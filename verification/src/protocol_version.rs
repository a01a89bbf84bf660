//! The Minecraft protocol versions that the server knows, their protocol
//! numbers, release names and order.
use crate::var_int::VarInt;
use crate::version_name::{
    lemma_version_name_follows_variant, lemma_version_name_injective, spec_dotted_name,
    spec_release,
};
use core::cmp::Ordering;
use vstd::prelude::*;
use vstd::std_specs::cmp::{PartialEqSpecImpl, PartialOrdSpecImpl};
use vstd::std_specs::convert::FromSpecImpl;

verus! {

/// A protocol version. Versions that share a protocol number are named by
/// the first release that used it.
#[derive(Debug, Clone, Copy)]
pub enum ProtocolVersion {
        V1_21_4,
    /// Same protocol version number for 1.21.3
    V1_21_2,
    /// Same protocol version number for 1.21.1
    V1_21,
    /// Same protocol version number for 1.20.6
    V1_20_5,
    /// Same protocol version number for 1.20.4
    V1_20_3,
    V1_20_2,
    /// Same protocol version number for 1.20.1
    V1_20,
    V1_19_4,
    V1_19_3,
    /// Same protocol version number for 1.19.2
    V1_19_1,
    V1_19,
    V1_18_2,
    /// Same protocol version number for 1.18.1
    V1_18,
    V1_17_1,
    V1_17,
    /// Same protocol version number for 1.16.5
    V1_16_4,
    V1_16_3,
    V1_16_2,
    V1_16_1,
    V1_16,
    V1_15_2,
    V1_15_1,
    V1_15,
    V1_14_4,
    V1_14_3,
    V1_14_2,
    V1_14_1,
    V1_14,
    V1_13_2,
    V1_13_1,
    V1_13,
    V1_12_2,
    V1_12_1,
    V1_12,
    /// Same protocol version number for 1.11.2
    V1_11_1,
    V1_11,
    /// Same protocol version number for 1.10.1 and 1.10.2
    V1_10,
    /// Same protocol version number for 1.9.4
    V1_9_3,
    V1_9_2,
    V1_9_1,
    V1_9,
    /// Same protocol version number for 1.8.1, 1.8.2, 1.8.3, 1.8.4, 1.8.5, 1.8.6, 1.8.7, 1.8.8 and 1.8.9
    V1_8,
    /// Same protocol version number for 1.7.7, 1.7.8, 1.7.9 and 1.7.10
    V1_7_6,
    /// Same protocol version number for 1.7.2, 1.7.4 and 1.7.5
    V1_7_2,
}

/// The protocol number of `v`.
pub open spec fn spec_version_number(v: ProtocolVersion) -> u32 {
    match v {
        ProtocolVersion::V1_21_4 => 769,
        ProtocolVersion::V1_21_2 => 768,
        ProtocolVersion::V1_21 => 767,
        ProtocolVersion::V1_20_5 => 766,
        ProtocolVersion::V1_20_3 => 765,
        ProtocolVersion::V1_20_2 => 764,
        ProtocolVersion::V1_20 => 763,
        ProtocolVersion::V1_19_4 => 762,
        ProtocolVersion::V1_19_3 => 761,
        ProtocolVersion::V1_19_1 => 760,
        ProtocolVersion::V1_19 => 759,
        ProtocolVersion::V1_18_2 => 758,
        ProtocolVersion::V1_18 => 757,
        ProtocolVersion::V1_17_1 => 756,
        ProtocolVersion::V1_17 => 755,
        ProtocolVersion::V1_16_4 => 754,
        ProtocolVersion::V1_16_3 => 753,
        ProtocolVersion::V1_16_2 => 751,
        ProtocolVersion::V1_16_1 => 736,
        ProtocolVersion::V1_16 => 735,
        ProtocolVersion::V1_15_2 => 578,
        ProtocolVersion::V1_15_1 => 575,
        ProtocolVersion::V1_15 => 573,
        ProtocolVersion::V1_14_4 => 498,
        ProtocolVersion::V1_14_3 => 490,
        ProtocolVersion::V1_14_2 => 485,
        ProtocolVersion::V1_14_1 => 480,
        ProtocolVersion::V1_14 => 477,
        ProtocolVersion::V1_13_2 => 404,
        ProtocolVersion::V1_13_1 => 401,
        ProtocolVersion::V1_13 => 393,
        ProtocolVersion::V1_12_2 => 340,
        ProtocolVersion::V1_12_1 => 338,
        ProtocolVersion::V1_12 => 335,
        ProtocolVersion::V1_11_1 => 316,
        ProtocolVersion::V1_11 => 315,
        ProtocolVersion::V1_10 => 210,
        ProtocolVersion::V1_9_3 => 110,
        ProtocolVersion::V1_9_2 => 109,
        ProtocolVersion::V1_9_1 => 108,
        ProtocolVersion::V1_9 => 107,
        ProtocolVersion::V1_8 => 47,
        ProtocolVersion::V1_7_6 => 5,
        ProtocolVersion::V1_7_2 => 4,
    }
}

/// The release name of `v`.
pub open spec fn spec_version_name(v: ProtocolVersion) -> Seq<char> {
    match v {
        ProtocolVersion::V1_21_4 => "1.21.4"@,
        ProtocolVersion::V1_21_2 => "1.21.2"@,
        ProtocolVersion::V1_21 => "1.21"@,
        ProtocolVersion::V1_20_5 => "1.20.5"@,
        ProtocolVersion::V1_20_3 => "1.20.3"@,
        ProtocolVersion::V1_20_2 => "1.20.2"@,
        ProtocolVersion::V1_20 => "1.20"@,
        ProtocolVersion::V1_19_4 => "1.19.4"@,
        ProtocolVersion::V1_19_3 => "1.19.3"@,
        ProtocolVersion::V1_19_1 => "1.19.1"@,
        ProtocolVersion::V1_19 => "1.19"@,
        ProtocolVersion::V1_18_2 => "1.18.2"@,
        ProtocolVersion::V1_18 => "1.18"@,
        ProtocolVersion::V1_17_1 => "1.17.1"@,
        ProtocolVersion::V1_17 => "1.17"@,
        ProtocolVersion::V1_16_4 => "1.16.4"@,
        ProtocolVersion::V1_16_3 => "1.16.3"@,
        ProtocolVersion::V1_16_2 => "1.16.2"@,
        ProtocolVersion::V1_16_1 => "1.16.1"@,
        ProtocolVersion::V1_16 => "1.16"@,
        ProtocolVersion::V1_15_2 => "1.15.2"@,
        ProtocolVersion::V1_15_1 => "1.15.1"@,
        ProtocolVersion::V1_15 => "1.15"@,
        ProtocolVersion::V1_14_4 => "1.14.4"@,
        ProtocolVersion::V1_14_3 => "1.14.3"@,
        ProtocolVersion::V1_14_2 => "1.14.2"@,
        ProtocolVersion::V1_14_1 => "1.14.1"@,
        ProtocolVersion::V1_14 => "1.14"@,
        ProtocolVersion::V1_13_2 => "1.13.2"@,
        ProtocolVersion::V1_13_1 => "1.13.1"@,
        ProtocolVersion::V1_13 => "1.13"@,
        ProtocolVersion::V1_12_2 => "1.12.2"@,
        ProtocolVersion::V1_12_1 => "1.12.1"@,
        ProtocolVersion::V1_12 => "1.12"@,
        ProtocolVersion::V1_11_1 => "1.11.1"@,
        ProtocolVersion::V1_11 => "1.11"@,
        ProtocolVersion::V1_10 => "1.10"@,
        ProtocolVersion::V1_9_3 => "1.9.3"@,
        ProtocolVersion::V1_9_2 => "1.9.2"@,
        ProtocolVersion::V1_9_1 => "1.9.1"@,
        ProtocolVersion::V1_9 => "1.9"@,
        ProtocolVersion::V1_8 => "1.8"@,
        ProtocolVersion::V1_7_6 => "1.7.6"@,
        ProtocolVersion::V1_7_2 => "1.7.2"@,
    }
}

/// The version whose protocol number is `n`; the newest version for a
/// number that no version has.
pub open spec fn spec_version_from_number(n: i32) -> ProtocolVersion {
    if n == 769 {
        ProtocolVersion::V1_21_4
    } else if n == 768 {
        ProtocolVersion::V1_21_2
    } else if n == 767 {
        ProtocolVersion::V1_21
    } else if n == 766 {
        ProtocolVersion::V1_20_5
    } else if n == 765 {
        ProtocolVersion::V1_20_3
    } else if n == 764 {
        ProtocolVersion::V1_20_2
    } else if n == 763 {
        ProtocolVersion::V1_20
    } else if n == 762 {
        ProtocolVersion::V1_19_4
    } else if n == 761 {
        ProtocolVersion::V1_19_3
    } else if n == 760 {
        ProtocolVersion::V1_19_1
    } else if n == 759 {
        ProtocolVersion::V1_19
    } else if n == 758 {
        ProtocolVersion::V1_18_2
    } else if n == 757 {
        ProtocolVersion::V1_18
    } else if n == 756 {
        ProtocolVersion::V1_17_1
    } else if n == 755 {
        ProtocolVersion::V1_17
    } else if n == 754 {
        ProtocolVersion::V1_16_4
    } else if n == 753 {
        ProtocolVersion::V1_16_3
    } else if n == 751 {
        ProtocolVersion::V1_16_2
    } else if n == 736 {
        ProtocolVersion::V1_16_1
    } else if n == 735 {
        ProtocolVersion::V1_16
    } else if n == 578 {
        ProtocolVersion::V1_15_2
    } else if n == 575 {
        ProtocolVersion::V1_15_1
    } else if n == 573 {
        ProtocolVersion::V1_15
    } else if n == 498 {
        ProtocolVersion::V1_14_4
    } else if n == 490 {
        ProtocolVersion::V1_14_3
    } else if n == 485 {
        ProtocolVersion::V1_14_2
    } else if n == 480 {
        ProtocolVersion::V1_14_1
    } else if n == 477 {
        ProtocolVersion::V1_14
    } else if n == 404 {
        ProtocolVersion::V1_13_2
    } else if n == 401 {
        ProtocolVersion::V1_13_1
    } else if n == 393 {
        ProtocolVersion::V1_13
    } else if n == 340 {
        ProtocolVersion::V1_12_2
    } else if n == 338 {
        ProtocolVersion::V1_12_1
    } else if n == 335 {
        ProtocolVersion::V1_12
    } else if n == 316 {
        ProtocolVersion::V1_11_1
    } else if n == 315 {
        ProtocolVersion::V1_11
    } else if n == 210 {
        ProtocolVersion::V1_10
    } else if n == 110 {
        ProtocolVersion::V1_9_3
    } else if n == 109 {
        ProtocolVersion::V1_9_2
    } else if n == 108 {
        ProtocolVersion::V1_9_1
    } else if n == 107 {
        ProtocolVersion::V1_9
    } else if n == 47 {
        ProtocolVersion::V1_8
    } else if n == 5 {
        ProtocolVersion::V1_7_6
    } else if n == 4 {
        ProtocolVersion::V1_7_2
    } else {
        ProtocolVersion::V1_21_4
    }
}

impl ProtocolVersion {
    pub fn version_number(&self) -> (r: u32)
        ensures
            r == spec_version_number(*self),
    {
        match self {
            ProtocolVersion::V1_21_4 => 769,
            ProtocolVersion::V1_21_2 => 768,
            ProtocolVersion::V1_21 => 767,
            ProtocolVersion::V1_20_5 => 766,
            ProtocolVersion::V1_20_3 => 765,
            ProtocolVersion::V1_20_2 => 764,
            ProtocolVersion::V1_20 => 763,
            ProtocolVersion::V1_19_4 => 762,
            ProtocolVersion::V1_19_3 => 761,
            ProtocolVersion::V1_19_1 => 760,
            ProtocolVersion::V1_19 => 759,
            ProtocolVersion::V1_18_2 => 758,
            ProtocolVersion::V1_18 => 757,
            ProtocolVersion::V1_17_1 => 756,
            ProtocolVersion::V1_17 => 755,
            ProtocolVersion::V1_16_4 => 754,
            ProtocolVersion::V1_16_3 => 753,
            ProtocolVersion::V1_16_2 => 751,
            ProtocolVersion::V1_16_1 => 736,
            ProtocolVersion::V1_16 => 735,
            ProtocolVersion::V1_15_2 => 578,
            ProtocolVersion::V1_15_1 => 575,
            ProtocolVersion::V1_15 => 573,
            ProtocolVersion::V1_14_4 => 498,
            ProtocolVersion::V1_14_3 => 490,
            ProtocolVersion::V1_14_2 => 485,
            ProtocolVersion::V1_14_1 => 480,
            ProtocolVersion::V1_14 => 477,
            ProtocolVersion::V1_13_2 => 404,
            ProtocolVersion::V1_13_1 => 401,
            ProtocolVersion::V1_13 => 393,
            ProtocolVersion::V1_12_2 => 340,
            ProtocolVersion::V1_12_1 => 338,
            ProtocolVersion::V1_12 => 335,
            ProtocolVersion::V1_11_1 => 316,
            ProtocolVersion::V1_11 => 315,
            ProtocolVersion::V1_10 => 210,
            ProtocolVersion::V1_9_3 => 110,
            ProtocolVersion::V1_9_2 => 109,
            ProtocolVersion::V1_9_1 => 108,
            ProtocolVersion::V1_9 => 107,
            ProtocolVersion::V1_8 => 47,
            ProtocolVersion::V1_7_6 => 5,
            ProtocolVersion::V1_7_2 => 4,
        }
    }

    /// The release name: `1.<minor>.<patch>` (or `1.<minor>`) with the
    /// numbers of the variant's name `V1_<minor>_<patch>`, so that no other
    /// version has the same name.
    pub fn version_name(&self) -> (r: String)
        ensures
            r@ == spec_version_name(*self),
            r@ == spec_dotted_name(spec_release(*self).0, spec_release(*self).1),
            forall|w: ProtocolVersion| #[trigger] spec_version_name(w) == r@ ==> w == *self,
    {
        let name = match self {
            ProtocolVersion::V1_21_4 => "1.21.4",
            ProtocolVersion::V1_21_2 => "1.21.2",
            ProtocolVersion::V1_21 => "1.21",
            ProtocolVersion::V1_20_5 => "1.20.5",
            ProtocolVersion::V1_20_3 => "1.20.3",
            ProtocolVersion::V1_20_2 => "1.20.2",
            ProtocolVersion::V1_20 => "1.20",
            ProtocolVersion::V1_19_4 => "1.19.4",
            ProtocolVersion::V1_19_3 => "1.19.3",
            ProtocolVersion::V1_19_1 => "1.19.1",
            ProtocolVersion::V1_19 => "1.19",
            ProtocolVersion::V1_18_2 => "1.18.2",
            ProtocolVersion::V1_18 => "1.18",
            ProtocolVersion::V1_17_1 => "1.17.1",
            ProtocolVersion::V1_17 => "1.17",
            ProtocolVersion::V1_16_4 => "1.16.4",
            ProtocolVersion::V1_16_3 => "1.16.3",
            ProtocolVersion::V1_16_2 => "1.16.2",
            ProtocolVersion::V1_16_1 => "1.16.1",
            ProtocolVersion::V1_16 => "1.16",
            ProtocolVersion::V1_15_2 => "1.15.2",
            ProtocolVersion::V1_15_1 => "1.15.1",
            ProtocolVersion::V1_15 => "1.15",
            ProtocolVersion::V1_14_4 => "1.14.4",
            ProtocolVersion::V1_14_3 => "1.14.3",
            ProtocolVersion::V1_14_2 => "1.14.2",
            ProtocolVersion::V1_14_1 => "1.14.1",
            ProtocolVersion::V1_14 => "1.14",
            ProtocolVersion::V1_13_2 => "1.13.2",
            ProtocolVersion::V1_13_1 => "1.13.1",
            ProtocolVersion::V1_13 => "1.13",
            ProtocolVersion::V1_12_2 => "1.12.2",
            ProtocolVersion::V1_12_1 => "1.12.1",
            ProtocolVersion::V1_12 => "1.12",
            ProtocolVersion::V1_11_1 => "1.11.1",
            ProtocolVersion::V1_11 => "1.11",
            ProtocolVersion::V1_10 => "1.10",
            ProtocolVersion::V1_9_3 => "1.9.3",
            ProtocolVersion::V1_9_2 => "1.9.2",
            ProtocolVersion::V1_9_1 => "1.9.1",
            ProtocolVersion::V1_9 => "1.9",
            ProtocolVersion::V1_8 => "1.8",
            ProtocolVersion::V1_7_6 => "1.7.6",
            ProtocolVersion::V1_7_2 => "1.7.2",
        };
        proof {
            reveal_strlit("1.21.4");
            reveal_strlit("1.21.2");
            reveal_strlit("1.21");
            reveal_strlit("1.20.5");
            reveal_strlit("1.20.3");
            reveal_strlit("1.20.2");
            reveal_strlit("1.20");
            reveal_strlit("1.19.4");
            reveal_strlit("1.19.3");
            reveal_strlit("1.19.1");
            reveal_strlit("1.19");
            reveal_strlit("1.18.2");
            reveal_strlit("1.18");
            reveal_strlit("1.17.1");
            reveal_strlit("1.17");
            reveal_strlit("1.16.4");
            reveal_strlit("1.16.3");
            reveal_strlit("1.16.2");
            reveal_strlit("1.16.1");
            reveal_strlit("1.16");
            reveal_strlit("1.15.2");
            reveal_strlit("1.15.1");
            reveal_strlit("1.15");
            reveal_strlit("1.14.4");
            reveal_strlit("1.14.3");
            reveal_strlit("1.14.2");
            reveal_strlit("1.14.1");
            reveal_strlit("1.14");
            reveal_strlit("1.13.2");
            reveal_strlit("1.13.1");
            reveal_strlit("1.13");
            reveal_strlit("1.12.2");
            reveal_strlit("1.12.1");
            reveal_strlit("1.12");
            reveal_strlit("1.11.1");
            reveal_strlit("1.11");
            reveal_strlit("1.10");
            reveal_strlit("1.9.3");
            reveal_strlit("1.9.2");
            reveal_strlit("1.9.1");
            reveal_strlit("1.9");
            reveal_strlit("1.8");
            reveal_strlit("1.7.6");
            reveal_strlit("1.7.2");
            lemma_version_name_follows_variant(*self);
            assert forall|w: ProtocolVersion| #[trigger]
                spec_version_name(w) == spec_version_name(*self) implies w == *self by {
                lemma_version_name_injective(w, *self);
            }
        }
        name.to_owned()
    }

    /// The version whose protocol number is `n`; the newest version when no
    /// version has that number, in case the client still understands it.
    pub fn from_number(n: i32) -> (r: ProtocolVersion)
        ensures
            r == spec_version_from_number(n),
    {
        match n {
            769 => ProtocolVersion::V1_21_4,
            768 => ProtocolVersion::V1_21_2,
            767 => ProtocolVersion::V1_21,
            766 => ProtocolVersion::V1_20_5,
            765 => ProtocolVersion::V1_20_3,
            764 => ProtocolVersion::V1_20_2,
            763 => ProtocolVersion::V1_20,
            762 => ProtocolVersion::V1_19_4,
            761 => ProtocolVersion::V1_19_3,
            760 => ProtocolVersion::V1_19_1,
            759 => ProtocolVersion::V1_19,
            758 => ProtocolVersion::V1_18_2,
            757 => ProtocolVersion::V1_18,
            756 => ProtocolVersion::V1_17_1,
            755 => ProtocolVersion::V1_17,
            754 => ProtocolVersion::V1_16_4,
            753 => ProtocolVersion::V1_16_3,
            751 => ProtocolVersion::V1_16_2,
            736 => ProtocolVersion::V1_16_1,
            735 => ProtocolVersion::V1_16,
            578 => ProtocolVersion::V1_15_2,
            575 => ProtocolVersion::V1_15_1,
            573 => ProtocolVersion::V1_15,
            498 => ProtocolVersion::V1_14_4,
            490 => ProtocolVersion::V1_14_3,
            485 => ProtocolVersion::V1_14_2,
            480 => ProtocolVersion::V1_14_1,
            477 => ProtocolVersion::V1_14,
            404 => ProtocolVersion::V1_13_2,
            401 => ProtocolVersion::V1_13_1,
            393 => ProtocolVersion::V1_13,
            340 => ProtocolVersion::V1_12_2,
            338 => ProtocolVersion::V1_12_1,
            335 => ProtocolVersion::V1_12,
            316 => ProtocolVersion::V1_11_1,
            315 => ProtocolVersion::V1_11,
            210 => ProtocolVersion::V1_10,
            110 => ProtocolVersion::V1_9_3,
            109 => ProtocolVersion::V1_9_2,
            108 => ProtocolVersion::V1_9_1,
            107 => ProtocolVersion::V1_9,
            47 => ProtocolVersion::V1_8,
            5 => ProtocolVersion::V1_7_6,
            4 => ProtocolVersion::V1_7_2,
            _ => ProtocolVersion::V1_21_4,
        }
    }
}

impl Default for ProtocolVersion {
    fn default() -> (r: Self)
        ensures
            r == ProtocolVersion::V1_21_4,
    {
        ProtocolVersion::V1_21_4
    }
}

impl From<VarInt> for ProtocolVersion {
    fn from(value: VarInt) -> (r: Self) {
        ProtocolVersion::from_number(value.value())
    }
}

impl FromSpecImpl<VarInt> for ProtocolVersion {
    open spec fn obeys_from_spec() -> bool {
        true
    }

    open spec fn from_spec(v: VarInt) -> Self {
        spec_version_from_number(v.spec_value())
    }
}

impl PartialEq for ProtocolVersion {
    fn eq(&self, other: &Self) -> (r: bool) {
        self.version_number() == other.version_number()
    }
}

impl PartialEqSpecImpl for ProtocolVersion {
    open spec fn obeys_eq_spec() -> bool {
        true
    }

    open spec fn eq_spec(&self, other: &Self) -> bool {
        spec_version_number(*self) == spec_version_number(*other)
    }
}

impl Eq for ProtocolVersion {

}

/// How two protocol numbers compare.
pub open spec fn compare_numbers(a: u32, b: u32) -> Ordering {
    if a < b {
        Ordering::Less
    } else if a == b {
        Ordering::Equal
    } else {
        Ordering::Greater
    }
}

impl PartialOrd for ProtocolVersion {
    fn partial_cmp(&self, other: &Self) -> (r: Option<Ordering>) {
        let a = self.version_number();
        let b = other.version_number();
        if a < b {
            Some(Ordering::Less)
        } else if a == b {
            Some(Ordering::Equal)
        } else {
            Some(Ordering::Greater)
        }
    }
}

impl PartialOrdSpecImpl for ProtocolVersion {
    open spec fn obeys_partial_cmp_spec() -> bool {
        true
    }

    open spec fn partial_cmp_spec(&self, other: &Self) -> Option<Ordering> {
        Some(compare_numbers(spec_version_number(*self), spec_version_number(*other)))
    }
}

/// Each version is found again from its protocol number, so no two versions
/// share a number.
pub proof fn lemma_version_from_own_number(v: ProtocolVersion)
    ensures
        spec_version_from_number(spec_version_number(v) as i32) == v,
{
}

/// Two versions are equal exactly when their protocol numbers are.
pub proof fn lemma_version_number_injective(a: ProtocolVersion, b: ProtocolVersion)
    ensures
        spec_version_number(a) == spec_version_number(b) <==> a == b,
{
    lemma_version_from_own_number(a);
    lemma_version_from_own_number(b);
}

/// Distinct versions have distinct release names.
pub proof fn lemma_version_names_distinct(a: ProtocolVersion, b: ProtocolVersion)
    ensures
        a != b ==> spec_version_name(a) != spec_version_name(b),
{
    lemma_version_name_injective(a, b);
}

} // verus!
