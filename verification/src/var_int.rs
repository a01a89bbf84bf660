//! Minecraft protocol `VarInt`: a 32-bit signed integer written in groups of
//! seven bits, least significant group first, with the high bit of each byte
//! telling whether another byte follows.
use crate::packet_field::EncodePacketField;
use vstd::prelude::*;

verus! {

/// The seven payload bits of a `VarInt` byte.
pub const SEGMENT_BITS: u8 = 0x7F;

/// The bit of a `VarInt` byte that says that another byte follows.
pub const CONTINUE_BIT: u8 = 0x80;

/// The longest encoding of a `VarInt`, in bytes.
pub const MAX_VAR_INT_BYTES: usize = 5;

/// Why a `VarInt` could not be read.
#[derive(Debug, PartialEq, Eq, Structural)]
pub enum VarIntParseError {
    /// Five bytes were read and the last one still asked for another.
    VarIntTooLarge,
    /// The input ended before the last byte of the value (the read failed).
    Io,
}

/// A 32-bit signed integer as written on the wire.
#[derive(Debug)]
pub struct VarInt(i32);

/// `128` to the power `k`.
pub open spec fn pow128(k: nat) -> nat
    decreases k,
{
    if k == 0 {
        1
    } else {
        128 * pow128((k - 1) as nat)
    }
}

/// The bytes of the unsigned value `u`: seven bits per byte, least
/// significant first, every byte but the last with its high bit set.
pub open spec fn encode_unsigned(u: nat) -> Seq<u8>
    decreases u,
{
    if u < 128 {
        seq![u as u8]
    } else {
        seq![(u % 128 + 128) as u8] + encode_unsigned(u / 128)
    }
}

/// The wire bytes of `v`: its two's complement bits taken as an unsigned number.
pub open spec fn spec_var_int_bytes(v: i32) -> Seq<u8> {
    encode_unsigned((v as u32) as nat)
}

/// The number that the seven-bit groups of `s` stand for, first byte lowest.
pub open spec fn groups_value(s: Seq<u8>) -> nat
    decreases s.len(),
{
    if s.len() == 0 {
        0
    } else {
        groups_value(s.drop_last()) + ((s.last() % 128) as nat) * pow128((s.len() - 1) as nat)
    }
}

/// How many bytes a reader takes from `s` when it has already passed `i`
/// bytes that all asked for another one, or why it stops.
pub open spec fn var_int_length_from(s: Seq<u8>, i: nat) -> Result<nat, VarIntParseError>
    decreases 5 - i,
{
    if i >= 5 {
        Err(VarIntParseError::VarIntTooLarge)
    } else if i >= s.len() {
        Err(VarIntParseError::Io)
    } else if s[i as int] < 128 {
        Ok(i + 1)
    } else {
        var_int_length_from(s, i + 1)
    }
}

/// What reading a `VarInt` from the start of `s` gives: the value and the
/// number of bytes read, or the error. Bits beyond the 32nd are dropped.
pub open spec fn spec_decode_var_int(s: Seq<u8>) -> Result<(i32, nat), VarIntParseError> {
    match var_int_length_from(s, 0) {
        Ok(n) => Ok(
            (((groups_value(s.take(n as int)) % 0x1_0000_0000) as u32) as i32, n),
        ),
        Err(e) => Err(e),
    }
}

impl VarInt {
    pub closed spec fn spec_value(&self) -> i32 {
        self.0
    }

    pub fn new(value: i32) -> (r: Self)
        ensures
            r.spec_value() == value,
    {
        Self(value)
    }

    pub fn value(&self) -> (r: i32)
        ensures
            r == self.spec_value(),
    {
        self.0
    }

    /// Reads a `VarInt` from the start of `bytes`; gives the value and how
    /// many bytes it took.
    pub fn decode(bytes: &[u8]) -> (r: Result<(VarInt, usize), VarIntParseError>)
        ensures
            match r {
                Ok((v, n)) => spec_decode_var_int(bytes@) == Ok::<(i32, nat), VarIntParseError>(
                    (v.spec_value(), n as nat),
                ),
                Err(e) => spec_decode_var_int(bytes@) == Err::<(i32, nat), VarIntParseError>(e),
            },
            r matches Ok((v, n)) ==> 1 <= n <= 5 && n <= bytes@.len(),
    {
        let mut acc: u64 = 0;
        let mut mult: u64 = 1;
        let mut i: usize = 0;
        while i < MAX_VAR_INT_BYTES
            invariant
                i <= 5,
                mult == pow128(i as nat),
                acc == groups_value(bytes@.take(i as int)),
                acc < pow128(i as nat),
                i <= bytes@.len(),
                var_int_length_from(bytes@, 0) == var_int_length_from(bytes@, i as nat),
            decreases 5 - i,
        {
            if i >= bytes.len() {
                return Err(VarIntParseError::Io);
            }
            let current_byte = bytes[i];
            proof {
                lemma_pow128_bound(i as nat);
                assert(bytes@.take(i + 1).drop_last() == bytes@.take(i as int));
            }
            let group = (current_byte & SEGMENT_BITS) as u64;
            assert(current_byte & 0x7f == current_byte % 128) by (bit_vector);
            assert(group * mult <= 127 * mult) by (nonlinear_arith)
                requires
                    group < 128,
                    mult > 0,
            ;
            acc = acc + group * mult;
            mult = mult * 128;
            i = i + 1;
            if (current_byte & CONTINUE_BIT) == 0 {
                assert(current_byte & 0x80 == 0 <==> current_byte < 128) by (bit_vector);
                let value = (acc % 0x1_0000_0000) as u32 as i32;
                return Ok((VarInt(value), i));
            }
            assert(current_byte & 0x80 != 0 <==> current_byte >= 128) by (bit_vector);
        }
        Err(VarIntParseError::VarIntTooLarge)
    }
}

impl EncodePacketField for VarInt {
    type Error = core::convert::Infallible;

    open spec fn spec_encoding(&self) -> Seq<u8> {
        spec_var_int_bytes(self.spec_value())
    }

    /// Appends the wire bytes of this value to `bytes`.
    fn encode(&self, bytes: &mut Vec<u8>) -> (r: Result<(), Self::Error>) {
        let mut value: u32 = self.0 as u32;
        loop
            invariant_except_break
                bytes@ + encode_unsigned(value as nat) == old(bytes)@ + spec_var_int_bytes(
                    self.spec_value(),
                ),
            ensures
                bytes@ == old(bytes)@ + spec_var_int_bytes(self.spec_value()),
            decreases value,
        {
            let ghost before = bytes@;
            assert((value & !(SEGMENT_BITS as u32)) == 0 <==> value < 128) by (bit_vector);
            if (value & !(SEGMENT_BITS as u32)) == 0 {
                bytes.push(value as u8);
                assert(bytes@ == before + encode_unsigned(value as nat));
                break ;
            }
            let low = ((value & SEGMENT_BITS as u32) as u8) | CONTINUE_BIT;
            assert(((value & 0x7f) as u8) | 0x80 == (value % 128 + 128) as u8) by (bit_vector);
            assert(value >> 7 == value / 128) by (bit_vector);
            let ghost old_value = value;
            bytes.push(low);
            value = value >> 7;
            assert(encode_unsigned(old_value as nat) == seq![low] + encode_unsigned(value as nat));
            assert(bytes@ + encode_unsigned(value as nat) == before + encode_unsigned(
                old_value as nat,
            ));
        }
        Ok(())
    }
}

/// Reading back what `encode` wrote gives the value again, and exactly the
/// written bytes are taken, whatever follows them.
pub proof fn lemma_var_int_roundtrip(v: i32, rest: Seq<u8>)
    ensures
        spec_decode_var_int(spec_var_int_bytes(v) + rest) == Ok::<(i32, nat), VarIntParseError>(
            (v, spec_var_int_bytes(v).len()),
        ),
        1 <= spec_var_int_bytes(v).len() <= 5,
{
    let u = (v as u32) as nat;
    let e = encode_unsigned(u);
    reveal_with_fuel(pow128, 6);
    lemma_encode_shape(u, 5);
    lemma_groups_value_encode(u);
    lemma_length_of_encoding(e, rest, 0);
    assert((e + rest).take(e.len() as int) == e);
    assert(((v as u32) as i32) == v) by (bit_vector);
}

/// Every byte of an encoding but the last asks for another; the last does not;
/// a value below `128^k` takes at most `k` bytes.
proof fn lemma_encode_shape(u: nat, k: nat)
    requires
        k >= 1,
        u < pow128(k),
    ensures
        1 <= encode_unsigned(u).len() <= k,
        encode_unsigned(u).last() < 128,
        forall|j: int| 0 <= j < encode_unsigned(u).len() - 1 ==> encode_unsigned(u)[j] >= 128,
    decreases u,
{
    if u >= 128 {
        assert(k >= 2) by {
            if k == 1 {
                reveal_with_fuel(pow128, 2);
            }
        }
        lemma_encode_shape(u / 128, (k - 1) as nat);
        let e = encode_unsigned(u);
        let t = encode_unsigned(u / 128);
        assert(e == seq![(u % 128 + 128) as u8] + t);
        assert forall|j: int| 0 <= j < e.len() - 1 implies e[j] >= 128 by {
            if j > 0 {
                assert(e[j] == t[j - 1]);
            }
        }
    }
}

/// The value of a byte followed by more bytes.
proof fn lemma_groups_value_prepend(b: u8, r: Seq<u8>)
    ensures
        groups_value(seq![b] + r) == (b % 128) as nat + 128 * groups_value(r),
    decreases r.len(),
{
    let s = seq![b] + r;
    if r.len() == 0 {
        assert(s.drop_last() =~= Seq::<u8>::empty());
        assert(groups_value(Seq::<u8>::empty()) == 0);
        assert(s.last() == b);
        assert(groups_value(s) == groups_value(s.drop_last()) + ((s.last() % 128) as nat)
            * pow128(0));
        assert(groups_value(r) == 0);
        assert(pow128(0) == 1);
        assert(groups_value(s.drop_last()) == 0);
        let x = (b % 128) as nat;
        let p0 = pow128(0);
        assert(x * p0 == x) by (nonlinear_arith)
            requires
                p0 == 1,
        ;
        assert(groups_value(s) == (b % 128) as nat);
    } else {
        assert(s.drop_last() =~= seq![b] + r.drop_last());
        lemma_groups_value_prepend(b, r.drop_last());
        let p = pow128((r.len() - 1) as nat);
        let g = groups_value(r.drop_last());
        let x = (r.last() % 128) as nat;
        assert(pow128((s.len() - 1) as nat) == 128 * p);
        assert(s.last() == r.last());
        assert(groups_value(r) == g + x * p);
        assert(groups_value(s) == groups_value(s.drop_last()) + x * (128 * p));
        assert(128 * (g + x * p) == 128 * g + x * (128 * p)) by (nonlinear_arith);
        assert(groups_value(s) == (b % 128) as nat + 128 * groups_value(r));
    }
}

proof fn lemma_groups_value_encode(u: nat)
    ensures
        groups_value(encode_unsigned(u)) == u,
    decreases u,
{
    if u < 128 {
        lemma_groups_value_prepend(u as u8, Seq::<u8>::empty());
        assert(seq![u as u8] + Seq::<u8>::empty() =~= encode_unsigned(u));
        assert(groups_value(Seq::<u8>::empty()) == 0);
    } else {
        let b = (u % 128 + 128) as u8;
        lemma_groups_value_encode(u / 128);
        lemma_groups_value_prepend(b, encode_unsigned(u / 128));
        assert(b % 128 == u % 128);
    }
}

/// A reader stops exactly at the end of an encoding, whatever follows it.
proof fn lemma_length_of_encoding(e: Seq<u8>, rest: Seq<u8>, i: nat)
    requires
        1 <= e.len() <= 5,
        i < e.len(),
        e.last() < 128,
        forall|j: int| 0 <= j < e.len() - 1 ==> e[j] >= 128,
    ensures
        var_int_length_from(e + rest, i) == Ok::<nat, VarIntParseError>(e.len()),
    decreases e.len() - i,
{
    let s = e + rest;
    assert(s[i as int] == e[i as int]);
    if i + 1 < e.len() {
        lemma_length_of_encoding(e, rest, i + 1);
    }
}

proof fn lemma_pow128_bound(k: nat)
    requires
        k <= 5,
    ensures
        0 < pow128(k) <= 0x8_0000_0000,
        pow128(k) <= pow128(5),
{
    reveal_with_fuel(pow128, 6);
}

} // verus!
