//! Release names of protocol versions follow the variants' names: the
//! variant `V1_<minor>_<patch>` is named `1.<minor>.<patch>` (`1.<minor>`
//! when it has no patch), so no two versions share a name.
use crate::protocol_version::{spec_version_name, ProtocolVersion};
use vstd::prelude::*;

verus! {

/// The minor and patch numbers in the name of the variant `v`
/// (`V1_<minor>_<patch>`), the patch being 0 where the name has none.
pub open spec fn spec_release(v: ProtocolVersion) -> (nat, nat) {
    match v {
        ProtocolVersion::V1_21_4 => (21, 4),
        ProtocolVersion::V1_21_2 => (21, 2),
        ProtocolVersion::V1_21 => (21, 0),
        ProtocolVersion::V1_20_5 => (20, 5),
        ProtocolVersion::V1_20_3 => (20, 3),
        ProtocolVersion::V1_20_2 => (20, 2),
        ProtocolVersion::V1_20 => (20, 0),
        ProtocolVersion::V1_19_4 => (19, 4),
        ProtocolVersion::V1_19_3 => (19, 3),
        ProtocolVersion::V1_19_1 => (19, 1),
        ProtocolVersion::V1_19 => (19, 0),
        ProtocolVersion::V1_18_2 => (18, 2),
        ProtocolVersion::V1_18 => (18, 0),
        ProtocolVersion::V1_17_1 => (17, 1),
        ProtocolVersion::V1_17 => (17, 0),
        ProtocolVersion::V1_16_4 => (16, 4),
        ProtocolVersion::V1_16_3 => (16, 3),
        ProtocolVersion::V1_16_2 => (16, 2),
        ProtocolVersion::V1_16_1 => (16, 1),
        ProtocolVersion::V1_16 => (16, 0),
        ProtocolVersion::V1_15_2 => (15, 2),
        ProtocolVersion::V1_15_1 => (15, 1),
        ProtocolVersion::V1_15 => (15, 0),
        ProtocolVersion::V1_14_4 => (14, 4),
        ProtocolVersion::V1_14_3 => (14, 3),
        ProtocolVersion::V1_14_2 => (14, 2),
        ProtocolVersion::V1_14_1 => (14, 1),
        ProtocolVersion::V1_14 => (14, 0),
        ProtocolVersion::V1_13_2 => (13, 2),
        ProtocolVersion::V1_13_1 => (13, 1),
        ProtocolVersion::V1_13 => (13, 0),
        ProtocolVersion::V1_12_2 => (12, 2),
        ProtocolVersion::V1_12_1 => (12, 1),
        ProtocolVersion::V1_12 => (12, 0),
        ProtocolVersion::V1_11_1 => (11, 1),
        ProtocolVersion::V1_11 => (11, 0),
        ProtocolVersion::V1_10 => (10, 0),
        ProtocolVersion::V1_9_3 => (9, 3),
        ProtocolVersion::V1_9_2 => (9, 2),
        ProtocolVersion::V1_9_1 => (9, 1),
        ProtocolVersion::V1_9 => (9, 0),
        ProtocolVersion::V1_8 => (8, 0),
        ProtocolVersion::V1_7_6 => (7, 6),
        ProtocolVersion::V1_7_2 => (7, 2),
    }
}

/// The character of the decimal digit `d`.
pub open spec fn spec_digit(d: nat) -> char {
    (d + 48) as char
}

/// The decimal digits of `n`, for `n` below 100.
pub open spec fn spec_decimal(n: nat) -> Seq<char> {
    if n < 10 {
        seq![spec_digit(n)]
    } else {
        seq![spec_digit(n / 10), spec_digit(n % 10)]
    }
}

/// The name `1.<minor>.<patch>`, or `1.<minor>` when `patch` is 0.
pub open spec fn spec_dotted_name(minor: nat, patch: nat) -> Seq<char> {
    seq!['1', '.'] + spec_decimal(minor) + if patch == 0 {
        Seq::<char>::empty()
    } else {
        seq!['.'] + spec_decimal(patch)
    }
}

/// The value of the digit character `c`.
pub open spec fn spec_digit_value(c: char) -> nat {
    ((c as int) - 48) as nat
}

/// Reads the minor and patch numbers back from a dotted name.
pub open spec fn spec_parse_dotted(s: Seq<char>) -> (nat, nat) {
    let minor_len: int = if s.len() > 3 && s[3] != '.' {
        2
    } else {
        1
    };
    let minor = if minor_len == 2 {
        spec_digit_value(s[2]) * 10 + spec_digit_value(s[3])
    } else {
        spec_digit_value(s[2])
    };
    let patch = if s.len() > 2 + minor_len {
        spec_digit_value(s[3 + minor_len])
    } else {
        0
    };
    (minor, patch)
}

/// The version whose name has the given minor and patch numbers.
pub open spec fn spec_version_of_release(minor: nat, patch: nat) -> Option<ProtocolVersion> {
    if minor == 21 && patch == 4 {
        Some(ProtocolVersion::V1_21_4)
    } else if minor == 21 && patch == 2 {
        Some(ProtocolVersion::V1_21_2)
    } else if minor == 21 && patch == 0 {
        Some(ProtocolVersion::V1_21)
    } else if minor == 20 && patch == 5 {
        Some(ProtocolVersion::V1_20_5)
    } else if minor == 20 && patch == 3 {
        Some(ProtocolVersion::V1_20_3)
    } else if minor == 20 && patch == 2 {
        Some(ProtocolVersion::V1_20_2)
    } else if minor == 20 && patch == 0 {
        Some(ProtocolVersion::V1_20)
    } else if minor == 19 && patch == 4 {
        Some(ProtocolVersion::V1_19_4)
    } else if minor == 19 && patch == 3 {
        Some(ProtocolVersion::V1_19_3)
    } else if minor == 19 && patch == 1 {
        Some(ProtocolVersion::V1_19_1)
    } else if minor == 19 && patch == 0 {
        Some(ProtocolVersion::V1_19)
    } else if minor == 18 && patch == 2 {
        Some(ProtocolVersion::V1_18_2)
    } else if minor == 18 && patch == 0 {
        Some(ProtocolVersion::V1_18)
    } else if minor == 17 && patch == 1 {
        Some(ProtocolVersion::V1_17_1)
    } else if minor == 17 && patch == 0 {
        Some(ProtocolVersion::V1_17)
    } else if minor == 16 && patch == 4 {
        Some(ProtocolVersion::V1_16_4)
    } else if minor == 16 && patch == 3 {
        Some(ProtocolVersion::V1_16_3)
    } else if minor == 16 && patch == 2 {
        Some(ProtocolVersion::V1_16_2)
    } else if minor == 16 && patch == 1 {
        Some(ProtocolVersion::V1_16_1)
    } else if minor == 16 && patch == 0 {
        Some(ProtocolVersion::V1_16)
    } else if minor == 15 && patch == 2 {
        Some(ProtocolVersion::V1_15_2)
    } else if minor == 15 && patch == 1 {
        Some(ProtocolVersion::V1_15_1)
    } else if minor == 15 && patch == 0 {
        Some(ProtocolVersion::V1_15)
    } else if minor == 14 && patch == 4 {
        Some(ProtocolVersion::V1_14_4)
    } else if minor == 14 && patch == 3 {
        Some(ProtocolVersion::V1_14_3)
    } else if minor == 14 && patch == 2 {
        Some(ProtocolVersion::V1_14_2)
    } else if minor == 14 && patch == 1 {
        Some(ProtocolVersion::V1_14_1)
    } else if minor == 14 && patch == 0 {
        Some(ProtocolVersion::V1_14)
    } else if minor == 13 && patch == 2 {
        Some(ProtocolVersion::V1_13_2)
    } else if minor == 13 && patch == 1 {
        Some(ProtocolVersion::V1_13_1)
    } else if minor == 13 && patch == 0 {
        Some(ProtocolVersion::V1_13)
    } else if minor == 12 && patch == 2 {
        Some(ProtocolVersion::V1_12_2)
    } else if minor == 12 && patch == 1 {
        Some(ProtocolVersion::V1_12_1)
    } else if minor == 12 && patch == 0 {
        Some(ProtocolVersion::V1_12)
    } else if minor == 11 && patch == 1 {
        Some(ProtocolVersion::V1_11_1)
    } else if minor == 11 && patch == 0 {
        Some(ProtocolVersion::V1_11)
    } else if minor == 10 && patch == 0 {
        Some(ProtocolVersion::V1_10)
    } else if minor == 9 && patch == 3 {
        Some(ProtocolVersion::V1_9_3)
    } else if minor == 9 && patch == 2 {
        Some(ProtocolVersion::V1_9_2)
    } else if minor == 9 && patch == 1 {
        Some(ProtocolVersion::V1_9_1)
    } else if minor == 9 && patch == 0 {
        Some(ProtocolVersion::V1_9)
    } else if minor == 8 && patch == 0 {
        Some(ProtocolVersion::V1_8)
    } else if minor == 7 && patch == 6 {
        Some(ProtocolVersion::V1_7_6)
    } else if minor == 7 && patch == 2 {
        Some(ProtocolVersion::V1_7_2)
    } else {
        None
    }
}

/// A dotted name with a minor number below 100 and a patch below 10 reads
/// back as its numbers.
pub proof fn lemma_parse_dotted(minor: nat, patch: nat)
    requires
        minor < 100,
        patch < 10,
    ensures
        spec_parse_dotted(spec_dotted_name(minor, patch)) == (minor, patch),
{
    let s = spec_dotted_name(minor, patch);
    if minor < 10 {
        assert(s[2] == spec_digit(minor));
        if patch != 0 {
            assert(s[3] == '.');
            assert(s[4] == spec_digit(patch));
        }
    } else {
        assert(s[2] == spec_digit(minor / 10));
        assert(s[3] == spec_digit(minor % 10));
        if patch != 0 {
            assert(s[5] == spec_digit(patch));
        }
    }
}

/// Each version is found again from the numbers in its name.
pub proof fn lemma_version_of_own_release(v: ProtocolVersion)
    ensures
        spec_version_of_release(spec_release(v).0, spec_release(v).1) == Some(v),
{
}

/// The name of each version is `1.<minor>.<patch>` (or `1.<minor>`) with
/// the numbers of its variant's name.
pub proof fn lemma_version_name_follows_variant(v: ProtocolVersion)
    ensures
        spec_version_name(v) == spec_dotted_name(spec_release(v).0, spec_release(v).1),
{
    match v {
        ProtocolVersion::V1_21_4 => {
            reveal_strlit("1.21.4");
            assert(spec_version_name(v) =~= spec_dotted_name(21, 4));
        },
        ProtocolVersion::V1_21_2 => {
            reveal_strlit("1.21.2");
            assert(spec_version_name(v) =~= spec_dotted_name(21, 2));
        },
        ProtocolVersion::V1_21 => {
            reveal_strlit("1.21");
            assert(spec_version_name(v) =~= spec_dotted_name(21, 0));
        },
        ProtocolVersion::V1_20_5 => {
            reveal_strlit("1.20.5");
            assert(spec_version_name(v) =~= spec_dotted_name(20, 5));
        },
        ProtocolVersion::V1_20_3 => {
            reveal_strlit("1.20.3");
            assert(spec_version_name(v) =~= spec_dotted_name(20, 3));
        },
        ProtocolVersion::V1_20_2 => {
            reveal_strlit("1.20.2");
            assert(spec_version_name(v) =~= spec_dotted_name(20, 2));
        },
        ProtocolVersion::V1_20 => {
            reveal_strlit("1.20");
            assert(spec_version_name(v) =~= spec_dotted_name(20, 0));
        },
        ProtocolVersion::V1_19_4 => {
            reveal_strlit("1.19.4");
            assert(spec_version_name(v) =~= spec_dotted_name(19, 4));
        },
        ProtocolVersion::V1_19_3 => {
            reveal_strlit("1.19.3");
            assert(spec_version_name(v) =~= spec_dotted_name(19, 3));
        },
        ProtocolVersion::V1_19_1 => {
            reveal_strlit("1.19.1");
            assert(spec_version_name(v) =~= spec_dotted_name(19, 1));
        },
        ProtocolVersion::V1_19 => {
            reveal_strlit("1.19");
            assert(spec_version_name(v) =~= spec_dotted_name(19, 0));
        },
        ProtocolVersion::V1_18_2 => {
            reveal_strlit("1.18.2");
            assert(spec_version_name(v) =~= spec_dotted_name(18, 2));
        },
        ProtocolVersion::V1_18 => {
            reveal_strlit("1.18");
            assert(spec_version_name(v) =~= spec_dotted_name(18, 0));
        },
        ProtocolVersion::V1_17_1 => {
            reveal_strlit("1.17.1");
            assert(spec_version_name(v) =~= spec_dotted_name(17, 1));
        },
        ProtocolVersion::V1_17 => {
            reveal_strlit("1.17");
            assert(spec_version_name(v) =~= spec_dotted_name(17, 0));
        },
        ProtocolVersion::V1_16_4 => {
            reveal_strlit("1.16.4");
            assert(spec_version_name(v) =~= spec_dotted_name(16, 4));
        },
        ProtocolVersion::V1_16_3 => {
            reveal_strlit("1.16.3");
            assert(spec_version_name(v) =~= spec_dotted_name(16, 3));
        },
        ProtocolVersion::V1_16_2 => {
            reveal_strlit("1.16.2");
            assert(spec_version_name(v) =~= spec_dotted_name(16, 2));
        },
        ProtocolVersion::V1_16_1 => {
            reveal_strlit("1.16.1");
            assert(spec_version_name(v) =~= spec_dotted_name(16, 1));
        },
        ProtocolVersion::V1_16 => {
            reveal_strlit("1.16");
            assert(spec_version_name(v) =~= spec_dotted_name(16, 0));
        },
        ProtocolVersion::V1_15_2 => {
            reveal_strlit("1.15.2");
            assert(spec_version_name(v) =~= spec_dotted_name(15, 2));
        },
        ProtocolVersion::V1_15_1 => {
            reveal_strlit("1.15.1");
            assert(spec_version_name(v) =~= spec_dotted_name(15, 1));
        },
        ProtocolVersion::V1_15 => {
            reveal_strlit("1.15");
            assert(spec_version_name(v) =~= spec_dotted_name(15, 0));
        },
        ProtocolVersion::V1_14_4 => {
            reveal_strlit("1.14.4");
            assert(spec_version_name(v) =~= spec_dotted_name(14, 4));
        },
        ProtocolVersion::V1_14_3 => {
            reveal_strlit("1.14.3");
            assert(spec_version_name(v) =~= spec_dotted_name(14, 3));
        },
        ProtocolVersion::V1_14_2 => {
            reveal_strlit("1.14.2");
            assert(spec_version_name(v) =~= spec_dotted_name(14, 2));
        },
        ProtocolVersion::V1_14_1 => {
            reveal_strlit("1.14.1");
            assert(spec_version_name(v) =~= spec_dotted_name(14, 1));
        },
        ProtocolVersion::V1_14 => {
            reveal_strlit("1.14");
            assert(spec_version_name(v) =~= spec_dotted_name(14, 0));
        },
        ProtocolVersion::V1_13_2 => {
            reveal_strlit("1.13.2");
            assert(spec_version_name(v) =~= spec_dotted_name(13, 2));
        },
        ProtocolVersion::V1_13_1 => {
            reveal_strlit("1.13.1");
            assert(spec_version_name(v) =~= spec_dotted_name(13, 1));
        },
        ProtocolVersion::V1_13 => {
            reveal_strlit("1.13");
            assert(spec_version_name(v) =~= spec_dotted_name(13, 0));
        },
        ProtocolVersion::V1_12_2 => {
            reveal_strlit("1.12.2");
            assert(spec_version_name(v) =~= spec_dotted_name(12, 2));
        },
        ProtocolVersion::V1_12_1 => {
            reveal_strlit("1.12.1");
            assert(spec_version_name(v) =~= spec_dotted_name(12, 1));
        },
        ProtocolVersion::V1_12 => {
            reveal_strlit("1.12");
            assert(spec_version_name(v) =~= spec_dotted_name(12, 0));
        },
        ProtocolVersion::V1_11_1 => {
            reveal_strlit("1.11.1");
            assert(spec_version_name(v) =~= spec_dotted_name(11, 1));
        },
        ProtocolVersion::V1_11 => {
            reveal_strlit("1.11");
            assert(spec_version_name(v) =~= spec_dotted_name(11, 0));
        },
        ProtocolVersion::V1_10 => {
            reveal_strlit("1.10");
            assert(spec_version_name(v) =~= spec_dotted_name(10, 0));
        },
        ProtocolVersion::V1_9_3 => {
            reveal_strlit("1.9.3");
            assert(spec_version_name(v) =~= spec_dotted_name(9, 3));
        },
        ProtocolVersion::V1_9_2 => {
            reveal_strlit("1.9.2");
            assert(spec_version_name(v) =~= spec_dotted_name(9, 2));
        },
        ProtocolVersion::V1_9_1 => {
            reveal_strlit("1.9.1");
            assert(spec_version_name(v) =~= spec_dotted_name(9, 1));
        },
        ProtocolVersion::V1_9 => {
            reveal_strlit("1.9");
            assert(spec_version_name(v) =~= spec_dotted_name(9, 0));
        },
        ProtocolVersion::V1_8 => {
            reveal_strlit("1.8");
            assert(spec_version_name(v) =~= spec_dotted_name(8, 0));
        },
        ProtocolVersion::V1_7_6 => {
            reveal_strlit("1.7.6");
            assert(spec_version_name(v) =~= spec_dotted_name(7, 6));
        },
        ProtocolVersion::V1_7_2 => {
            reveal_strlit("1.7.2");
            assert(spec_version_name(v) =~= spec_dotted_name(7, 2));
        },
    }
}

/// Two versions have the same name exactly when they are the same version.
pub proof fn lemma_version_name_injective(a: ProtocolVersion, b: ProtocolVersion)
    ensures
        spec_version_name(a) == spec_version_name(b) <==> a == b,
{
    lemma_version_name_follows_variant(a);
    lemma_version_name_follows_variant(b);
    lemma_parse_dotted(spec_release(a).0, spec_release(a).1);
    lemma_parse_dotted(spec_release(b).0, spec_release(b).1);
    lemma_version_of_own_release(a);
    lemma_version_of_own_release(b);
}

} // verus!
