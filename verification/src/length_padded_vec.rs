//! A list written as its `VarInt` length followed by its items.
use crate::decode_field::DecodePacketField;
use crate::packet_field::EncodePacketField;
use crate::var_int::{
    lemma_var_int_roundtrip, spec_decode_var_int, spec_var_int_bytes, VarInt, VarIntParseError,
};
use vstd::prelude::*;

verus! {

/// A `Vec` that is written with its length before its items.
#[derive(Debug)]
pub struct LengthPaddedVec<T>(pub Vec<T>);

/// Why a list could not be written: an item could not be written.
#[derive(Debug, PartialEq, Eq, Structural)]
pub enum LengthPaddedVecEncodeError {
    EncodeError,
}

/// The bytes of the items of `items`, one after the other.
pub open spec fn items_encoding<T: EncodePacketField>(items: Seq<T>) -> Seq<u8>
    decreases items.len(),
{
    if items.len() == 0 {
        Seq::empty()
    } else {
        items_encoding(items.drop_last()) + items.last().spec_encoding()
    }
}

impl<T: EncodePacketField> EncodePacketField for LengthPaddedVec<T> {
    type Error = LengthPaddedVecEncodeError;

    open spec fn spec_encoding(&self) -> Seq<u8> {
        spec_var_int_bytes((self.0@.len() as usize) as i32) + items_encoding(self.0@)
    }

    fn encode(&self, bytes: &mut Vec<u8>) -> (r: Result<(), Self::Error>) {
        if VarInt::new(self.0.len() as i32).encode(bytes).is_err() {
            return Err(LengthPaddedVecEncodeError::EncodeError);
        }
        let ghost start = bytes@;
        let mut i: usize = 0;
        while i < self.0.len()
            invariant
                i <= self.0@.len(),
                bytes@ == start + items_encoding(self.0@.take(i as int)),
                start == old(bytes)@ + spec_var_int_bytes((self.0@.len() as usize) as i32),
            decreases self.0@.len() - i,
        {
            if self.0[i].encode(bytes).is_err() {
                return Err(LengthPaddedVecEncodeError::EncodeError);
            }
            assert(self.0@.take(i + 1).drop_last() =~= self.0@.take(i as int));
            i = i + 1;
        }
        assert(self.0@.take(i as int) =~= self.0@);
        Ok(())
    }
}

/// Why a list could not be read: its length, or one of its items.
#[derive(Debug)]
pub enum LengthPaddedVecDecodeError<T: DecodePacketField> {
    InvalidVecLength(VarIntParseError),
    DecodeError(T::Error),
}

/// What reading `count` items one after the other from the start of
/// `bytes` gives: their views and the bytes taken, or `None` when an item
/// cannot be read.
pub open spec fn spec_decode_items<T: DecodePacketField>(bytes: Seq<u8>, count: nat) -> Option<
    (Seq<T::V>, nat),
>
    decreases count,
{
    if count == 0 {
        Some((Seq::empty(), 0))
    } else {
        match T::spec_decode(bytes) {
            None => None,
            Some((v, n)) => if n > bytes.len() {
                None
            } else {
                match spec_decode_items::<T>(bytes.skip(n as int), (count - 1) as nat) {
                    None => None,
                    Some((vs, m)) => Some((seq![v] + vs, n + m)),
                }
            },
        }
    }
}

/// Where reading `count` items one after the other from the start of
/// `bytes` first fails: the bytes from the start of the item that cannot be
/// read, or `None` when all of them can.
pub open spec fn spec_first_failure<T: DecodePacketField>(bytes: Seq<u8>, count: nat) -> Option<
    Seq<u8>,
>
    decreases count,
{
    if count == 0 {
        None
    } else {
        match T::spec_decode(bytes) {
            None => Some(bytes),
            Some((v, n)) => if n > bytes.len() {
                Some(bytes)
            } else {
                spec_first_failure::<T>(bytes.skip(n as int), (count - 1) as nat)
            },
        }
    }
}

/// `vs` and `len` put before what reading the rest gave.
pub open spec fn prepend_items<V>(vs: Seq<V>, len: nat, rest: Option<(Seq<V>, nat)>) -> Option<
    (Seq<V>, nat),
> {
    match rest {
        None => None,
        Some((ws, m)) => Some((vs + ws, len + m)),
    }
}

/// The length of a list as its first `VarInt` gives it, or `None` when
/// that cannot be read.
pub open spec fn spec_list_length(bytes: Seq<u8>) -> Option<(i32, nat)> {
    match spec_decode_var_int(bytes) {
        Ok((c, n)) => Some((c, n)),
        Err(_) => None,
    }
}

/// What reading a list from the start of `bytes` gives: the views of its
/// items and the bytes taken, or `None`.
pub open spec fn spec_decode_list<T: DecodePacketField>(bytes: Seq<u8>) -> Option<(Seq<T::V>, nat)> {
    match spec_list_length(bytes) {
        None => None,
        Some((c, n)) => prepend_items(
            Seq::empty(),
            n,
            spec_decode_items::<T>(bytes.skip(n as int), c as nat),
        ),
    }
}

impl<T: DecodePacketField> LengthPaddedVec<T> {
    /// Reads a list: its `VarInt` length, then that many items. A negative
    /// length is left out: the list cannot be allocated for it.
    pub fn decode(bytes: &[u8]) -> (r: Result<(Self, usize), LengthPaddedVecDecodeError<T>>)
        requires
            spec_list_length(bytes@) matches Some((c, _)) ==> c >= 0,
        ensures
            match r {
                Ok((list, n)) => spec_decode_list::<T>(bytes@) == Some(
                    (list.0@.map_values(|t: T| t@), n as nat),
                ) && n <= bytes@.len(),
                Err(LengthPaddedVecDecodeError::InvalidVecLength(e)) => spec_decode_var_int(bytes@)
                    == Err::<(i32, nat), VarIntParseError>(e),
                Err(LengthPaddedVecDecodeError::DecodeError(e)) => {
                    &&& spec_decode_list::<T>(bytes@) is None
                    &&& spec_list_length(bytes@) matches Some((c, n))
                    &&& spec_first_failure::<T>(bytes@.skip(n as int), c as nat) matches Some(at)
                    &&& e == T::spec_decode_error(at)
                },
            },
    {
        let (length, start) = match VarInt::decode(bytes) {
            Ok(p) => p,
            Err(e) => return Err(LengthPaddedVecDecodeError::InvalidVecLength(e)),
        };
        let count = length.value();
        let ghost whole = bytes@;
        let ghost total = spec_decode_items::<T>(whole.skip(start as int), count as nat);
        let mut items: Vec<T> = Vec::new();
        let mut pos: usize = start;
        let mut k: i32 = 0;
        while k < count
            invariant
                0 <= k <= count,
                start <= pos <= whole.len(),
                whole == bytes@,
                spec_decode_var_int(whole) == Ok::<(i32, nat), VarIntParseError>(
                    (count, start as nat),
                ),
                total == spec_decode_items::<T>(whole.skip(start as int), count as nat),
                spec_first_failure::<T>(whole.skip(start as int), count as nat)
                    == spec_first_failure::<T>(whole.skip(pos as int), (count - k) as nat),
                total == prepend_items(
                    items@.map_values(|t: T| t@),
                    (pos - start) as nat,
                    spec_decode_items::<T>(whole.skip(pos as int), (count - k) as nat),
                ),
            decreases count - k,
        {
            let rest = &bytes[pos..bytes.len()];
            assert(rest@ == whole.skip(pos as int));
            match T::decode(rest) {
                Ok((v, n)) => {
                    let ghost before = items@.map_values(|t: T| t@);
                    proof {
                        assert(whole.skip(pos as int).skip(n as int) =~= whole.skip(pos + n));
                        match spec_decode_items::<T>(whole.skip(pos + n), (count - k - 1) as nat) {
                            None => {},
                            Some((ws, m)) => {
                                assert(before.push(v@) + ws =~= before + (seq![v@] + ws));
                            },
                        }
                    }
                    items.push(v);
                    proof {
                        assert(items@.map_values(|t: T| t@) =~= before.push(v@));
                    }
                    pos = pos + n;
                },
                Err(e) => {
                    assert(spec_decode_items::<T>(whole.skip(pos as int), (count - k) as nat) is None);
                    assert(total is None);
                    assert(spec_list_length(bytes@) == Some((count, start as nat)));
                    return Err(LengthPaddedVecDecodeError::DecodeError(e));
                },
            }
            k = k + 1;
        }
        assert(spec_decode_items::<T>(whole.skip(pos as int), 0) == Some((Seq::<T::V>::empty(), 0nat)));
        assert(items@.map_values(|t: T| t@) + Seq::<T::V>::empty() =~= items@.map_values(|t: T| t@));
        Ok((LengthPaddedVec(items), pos))
    }
}

proof fn lemma_items_encoding_front<T: EncodePacketField>(items: Seq<T>)
    requires
        items.len() > 0,
    ensures
        items_encoding(items) == items[0].spec_encoding() + items_encoding(items.drop_first()),
    decreases items.len(),
{
    if items.len() == 1 {
        assert(items.drop_first().len() == 0);
        assert(items.drop_last().len() == 0);
        assert(items_encoding(items.drop_last()) =~= Seq::<u8>::empty());
        assert(items_encoding(items.drop_first()) =~= Seq::<u8>::empty());
        assert(items.last() == items[0]);
        assert(items_encoding(items) =~= items[0].spec_encoding());
    } else {
        lemma_items_encoding_front(items.drop_last());
        assert(items.drop_last().drop_first() =~= items.drop_first().drop_last());
        assert(items.drop_first().last() == items.last());
        assert(items_encoding(items) =~= items[0].spec_encoding() + items_encoding(
            items.drop_first(),
        ));
    }
}

/// Reading back written `VarInt` items gives them back.
proof fn lemma_var_int_items_roundtrip(items: Seq<VarInt>, rest: Seq<u8>)
    ensures
        spec_decode_items::<VarInt>(items_encoding(items) + rest, items.len()) == Some(
            (items.map_values(|t: VarInt| t@), items_encoding(items).len()),
        ),
    decreases items.len(),
{
    if items.len() == 0 {
        assert(items.map_values(|t: VarInt| t@) =~= Seq::<i32>::empty());
    } else {
        let first = items[0].spec_value();
        let head = spec_var_int_bytes(first);
        let tail = items.drop_first();
        lemma_items_encoding_front(items);
        lemma_var_int_items_roundtrip(tail, rest);
        let bytes = items_encoding(items) + rest;
        assert(bytes =~= head + (items_encoding(tail) + rest));
        lemma_var_int_roundtrip(first, items_encoding(tail) + rest);
        assert(bytes.skip(head.len() as int) =~= items_encoding(tail) + rest);
        assert(items.map_values(|t: VarInt| t@) =~= seq![first] + tail.map_values(|t: VarInt| t@));
    }
}

/// A list of `VarInt`s, once written, reads back as the same numbers and
/// takes exactly its bytes, whatever follows it.
pub proof fn lemma_var_int_list_roundtrip(items: Seq<VarInt>, rest: Seq<u8>)
    requires
        items.len() <= i32::MAX,
    ensures
        spec_decode_list::<VarInt>(
            spec_var_int_bytes((items.len() as usize) as i32) + items_encoding(items) + rest,
        ) == Some(
            (
                items.map_values(|t: VarInt| t@),
                spec_var_int_bytes((items.len() as usize) as i32).len() + items_encoding(
                    items,
                ).len(),
            ),
        ),
{
    let len = (items.len() as usize) as i32;
    let head = spec_var_int_bytes(len);
    let bytes = head + items_encoding(items) + rest;
    assert(bytes =~= head + (items_encoding(items) + rest));
    lemma_var_int_roundtrip(len, items_encoding(items) + rest);
    assert(bytes.skip(head.len() as int) =~= items_encoding(items) + rest);
    lemma_var_int_items_roundtrip(items, rest);
    assert(Seq::<i32>::empty() + items.map_values(|t: VarInt| t@) =~= items.map_values(
        |t: VarInt| t@,
    ));
}

} // verus!
