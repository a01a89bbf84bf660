//! Reading binary NBT: a tag id, the root name unless the root is nameless,
//! then the value, all numbers big-endian.
use crate::nbt::error::NbtError;
use crate::nbt::options::NbtOptions;
use crate::nbt::value::{
    compound_insert, lemma_view_values_push, spec_insert, view_entries, view_values, Value,
    ValueView,
};
use crate::text::string_from_utf8;
use vstd::prelude::*;
use vstd::utf8::{decode_utf8, valid_utf8};

verus! {

/// The number written big-endian in the `n` bytes of `s` from `pos`.
pub open spec fn be_value(s: Seq<u8>, pos: int, n: nat) -> nat
    decreases n,
{
    if n == 0 {
        0
    } else {
        be_value(s, pos, (n - 1) as nat) * 256 + s[pos + n - 1] as nat
    }
}

/// A 32-bit signed length or count at `pos`.
pub open spec fn be_i32(s: Seq<u8>, pos: int) -> i32 {
    (be_value(s, pos, 4) as u32) as i32
}

/// A string at `pos`: a big-endian `u16` byte count, then UTF-8 bytes.
/// Gives the characters and the position after them.
pub open spec fn spec_read_string(s: Seq<u8>, pos: nat) -> Result<(Seq<char>, nat), NbtError> {
    if pos + 2 > s.len() {
        Err(NbtError::Io)
    } else {
        let len = be_value(s, pos as int, 2);
        if pos + 2 + len > s.len() {
            Err(NbtError::Io)
        } else {
            let body = s.subrange(pos + 2int, (pos + 2 + len) as int);
            if valid_utf8(body) {
                Ok((decode_utf8(body), pos + 2 + len))
            } else {
                Err(NbtError::InvalidUtf8)
            }
        }
    }
}

/// A count of `width`-byte items at `pos`: a big-endian `i32` count, then
/// the items. Gives the count, or why it cannot be read.
pub open spec fn spec_array_count(s: Seq<u8>, pos: nat, width: nat) -> Result<nat, NbtError> {
    if pos + 4 > s.len() {
        Err(NbtError::Io)
    } else if be_i32(s, pos as int) < 0 {
        Err(NbtError::InvalidLength)
    } else if pos + 4 + width * (be_i32(s, pos as int) as nat) > s.len() {
        Err(NbtError::Io)
    } else {
        Ok(be_i32(s, pos as int) as nat)
    }
}

/// The value of tag `tag` at `pos`, and the position after it.
pub open spec fn spec_read_value(s: Seq<u8>, pos: nat, tag: u8) -> Result<(ValueView, nat), NbtError>
    decreases s.len() - pos, 1nat, 0nat,
{
    if pos > s.len() {
        Err(NbtError::Io)
    } else if tag == 1 {
        if pos + 1 > s.len() {
            Err(NbtError::Io)
        } else {
            Ok((ValueView::Byte((be_value(s, pos as int, 1) as u8) as i8), pos + 1))
        }
    } else if tag == 2 {
        if pos + 2 > s.len() {
            Err(NbtError::Io)
        } else {
            Ok((ValueView::Short((be_value(s, pos as int, 2) as u16) as i16), pos + 2))
        }
    } else if tag == 3 {
        if pos + 4 > s.len() {
            Err(NbtError::Io)
        } else {
            Ok((ValueView::Int(be_i32(s, pos as int)), pos + 4))
        }
    } else if tag == 4 {
        if pos + 8 > s.len() {
            Err(NbtError::Io)
        } else {
            Ok((ValueView::Long((be_value(s, pos as int, 8) as u64) as i64), pos + 8))
        }
    } else if tag == 5 {
        if pos + 4 > s.len() {
            Err(NbtError::Io)
        } else {
            Ok((ValueView::Float(be_value(s, pos as int, 4) as u32), pos + 4))
        }
    } else if tag == 6 {
        if pos + 8 > s.len() {
            Err(NbtError::Io)
        } else {
            Ok((ValueView::Double(be_value(s, pos as int, 8) as u64), pos + 8))
        }
    } else if tag == 7 {
        match spec_array_count(s, pos, 1) {
            Err(e) => Err(e),
            Ok(n) => Ok((ValueView::ByteArray(s.subrange(pos + 4int, (pos + 4 + n) as int)), pos + 4 + n)),
        }
    } else if tag == 8 {
        match spec_read_string(s, pos) {
            Err(e) => Err(e),
            Ok((cs, p)) => Ok((ValueView::String(cs), p)),
        }
    } else if tag == 9 {
        if pos + 5 > s.len() {
            Err(NbtError::Io)
        } else if be_i32(s, pos + 1int) < 0 {
            Err(NbtError::InvalidLength)
        } else {
            match spec_read_list(
                s,
                pos + 5,
                s[pos as int],
                be_i32(s, pos + 1int) as nat,
                Seq::empty(),
            ) {
                Err(e) => Err(e),
                Ok((items, p)) => Ok((ValueView::List(items), p)),
            }
        }
    } else if tag == 10 {
        match spec_read_entries(s, pos, Seq::empty()) {
            Err(e) => Err(e),
            Ok((entries, p)) => Ok((ValueView::Compound(entries), p)),
        }
    } else if tag == 11 {
        match spec_array_count(s, pos, 4) {
            Err(e) => Err(e),
            Ok(n) => Ok(
                (
                    ValueView::IntArray(Seq::new(n, |k: int| be_i32(s, pos + 4 + 4 * k))),
                    pos + 4 + 4 * n,
                ),
            ),
        }
    } else if tag == 12 {
        match spec_array_count(s, pos, 8) {
            Err(e) => Err(e),
            Ok(n) => Ok(
                (
                    ValueView::LongArray(
                        Seq::new(n, |k: int| (be_value(s, pos + 4 + 8 * k, 8) as u64) as i64),
                    ),
                    pos + 4 + 8 * n,
                ),
            ),
        }
    } else {
        Err(NbtError::InvalidTagId(tag))
    }
}

/// `count` values of tag `tag` one after another from `pos`, appended to `acc`.
pub open spec fn spec_read_list(
    s: Seq<u8>,
    pos: nat,
    tag: u8,
    count: nat,
    acc: Seq<ValueView>,
) -> Result<(Seq<ValueView>, nat), NbtError>
    decreases s.len() - pos, 2nat, count,
{
    if pos > s.len() {
        Err(NbtError::Io)
    } else if count == 0 {
        Ok((acc, pos))
    } else {
        match spec_read_value(s, pos, tag) {
            Err(e) => Err(e),
            Ok((v, p)) => if p <= pos || p > s.len() {
                Err(NbtError::Io)
            } else {
                spec_read_list(s, p, tag, (count - 1) as nat, acc.push(v))
            },
        }
    }
}

/// The entries of a compound from `pos` up to its end tag, inserted in order
/// after `acc` as an ordered map inserts; a later entry of the same name
/// replaces the value of the earlier one.
pub open spec fn spec_read_entries(s: Seq<u8>, pos: nat, acc: Seq<(Seq<char>, ValueView)>) -> Result<
    (Seq<(Seq<char>, ValueView)>, nat),
    NbtError,
>
    decreases s.len() - pos, 0nat, 0nat,
{
    if pos + 1 > s.len() {
        Err(NbtError::Io)
    } else if s[pos as int] == 0 {
        Ok((acc, pos + 1))
    } else {
        match spec_read_string(s, pos + 1) {
            Err(e) => Err(e),
            Ok((name, p)) => match spec_read_value(s, p, s[pos as int]) {
                Err(e) => Err(e),
                Ok((v, q)) => if q <= pos || q > s.len() {
                    Err(NbtError::Io)
                } else {
                    spec_read_entries(s, q, spec_insert(acc, name, v))
                },
            },
        }
    }
}

/// Reading a whole NBT document: the root tag id, its name (empty for a
/// nameless root), then the value. Gives the name, the value and the
/// position after it.
pub open spec fn spec_read_root(s: Seq<u8>, pos: nat, nameless: bool) -> Result<
    (Seq<char>, ValueView, nat),
    NbtError,
> {
    if pos + 1 > s.len() {
        Err(NbtError::Io)
    } else {
        let tag = s[pos as int];
        let named = if nameless {
            Ok((Seq::<char>::empty(), pos + 1))
        } else {
            spec_read_string(s, pos + 1)
        };
        match named {
            Err(e) => Err(e),
            Ok((name, p)) => match spec_read_value(s, p, tag) {
                Err(e) => Err(e),
                Ok((v, q)) => Ok((name, v, q)),
            },
        }
    }
}

/// Reads the big-endian number in the `n` bytes from `pos`, if they are there.
pub fn read_be(s: &[u8], pos: usize, n: usize) -> (r: Option<u64>)
    requires
        n <= 8,
    ensures
        match r {
            Some(x) => pos + n <= s@.len() && x == be_value(s@, pos as int, n as nat),
            None => pos + n > s@.len(),
        },
{
    if n > s.len() || pos > s.len() - n {
        return None;
    }
    let mut acc: u64 = 0;
    let mut i: usize = 0;
    while i < n
        invariant
            i <= n <= 8,
            pos + n <= s.len(),
            acc == be_value(s@, pos as int, i as nat),
            acc < pow256(i as nat),
        decreases n - i,
    {
        proof {
            lemma_pow256_bound(i as nat);
        }
        assert(acc * 256 + s@[pos + i] < pow256((i + 1) as nat)) by (nonlinear_arith)
            requires
                acc < pow256(i as nat),
                s@[pos + i] < 256,
                pow256((i + 1) as nat) == 256 * pow256(i as nat),
        ;
        acc = acc * 256 + s[pos + i] as u64;
        i = i + 1;
    }
    Some(acc)
}

/// `256` to the power `k`.
pub open spec fn pow256(k: nat) -> nat
    decreases k,
{
    if k == 0 {
        1
    } else {
        256 * pow256((k - 1) as nat)
    }
}

proof fn lemma_pow256_bound(k: nat)
    requires
        k <= 7,
    ensures
        pow256(k + 1) == 256 * pow256(k),
        pow256(k + 1) <= 0x1_0000_0000_0000_0000,
{
    reveal_with_fuel(pow256, 9);
}

/// Reads a string at `pos`: a big-endian `u16` byte count, then UTF-8 bytes.
fn read_string(s: &[u8], pos: usize) -> (r: Result<(String, usize), NbtError>)
    ensures
        match r {
            Ok((st, p)) => spec_read_string(s@, pos as nat) == Ok::<(Seq<char>, nat), NbtError>(
                (st@, p as nat),
            ) && pos < p <= s@.len(),
            Err(e) => spec_read_string(s@, pos as nat) == Err::<(Seq<char>, nat), NbtError>(e),
        },
{
    proof {
        reveal_with_fuel(be_value, 3);
    }
    let len = match read_be(s, pos, 2) {
        Some(x) => x as usize,
        None => return Err(NbtError::Io),
    };
    let total = s.len();
    assert(pos + 2 <= total);
    let start = pos + 2;
    if len > s.len() - start {
        return Err(NbtError::Io);
    }
    let body = vstd::slice::slice_to_vec(&s[start..start + len]);
    match string_from_utf8(body) {
        Some(st) => Ok((st, start + len)),
        None => Err(NbtError::InvalidUtf8),
    }
}

/// Reads the count of an array of `width`-byte items at `pos`.
fn read_count(s: &[u8], pos: usize, width: usize) -> (r: Result<usize, NbtError>)
    requires
        1 <= width <= 8,
        pos <= s@.len(),
    ensures
        match r {
            Ok(n) => spec_array_count(s@, pos as nat, width as nat) == Ok::<nat, NbtError>(
                n as nat,
            ) && pos + 4 + width * n <= s@.len(),
            Err(e) => spec_array_count(s@, pos as nat, width as nat) == Err::<nat, NbtError>(e),
        },
{
    let x = match read_be(s, pos, 4) {
        Some(x) => x,
        None => return Err(NbtError::Io),
    };
    proof {
        reveal_with_fuel(be_value, 5);
    }
    let count = (x as u32) as i32;
    if count < 0 {
        return Err(NbtError::InvalidLength);
    }
    let n = count as usize;
    let room = (s.len() - pos - 4) / width;
    if n > room {
        assert(width * n > s@.len() - pos - 4) by (nonlinear_arith)
            requires
                n > room,
                room == (s@.len() - pos - 4) / (width as int),
                width >= 1,
                s@.len() - pos - 4 >= 0,
        ;
        return Err(NbtError::Io);
    }
    assert(width * n <= s@.len() - pos - 4) by (nonlinear_arith)
        requires
            n <= room,
            room == (s@.len() - pos - 4) / (width as int),
            width >= 1,
            s@.len() - pos - 4 >= 0,
    ;
    Ok(n)
}

/// The postcondition of reading the value of tag `tag` at `pos`.
pub open spec fn read_value_result(
    s: Seq<u8>,
    pos: nat,
    tag: u8,
    r: Result<(Value, usize), NbtError>,
) -> bool {
    match r {
        Ok((v, p)) => spec_read_value(s, pos, tag) == Ok::<(ValueView, nat), NbtError>(
            (v@, p as nat),
        ) && pos < p <= s.len(),
        Err(e) => spec_read_value(s, pos, tag) == Err::<(ValueView, nat), NbtError>(e),
    }
}

/// Reads a list at `pos`: the element tag, a big-endian `i32` count, then
/// the elements.
fn read_list(s: &[u8], pos: usize) -> (r: Result<(Value, usize), NbtError>)
    requires
        pos <= s@.len(),
    ensures
        read_value_result(s@, pos as nat, 9, r),
    decreases s@.len() - pos, 1nat, 0nat,
{
    let total = s.len();
    if pos >= total {
        return Err(NbtError::Io);
    }
    let elem_type = s[pos];
    let x = match read_be(s, pos + 1, 4) {
        Some(x) => x,
        None => return Err(NbtError::Io),
    };
    let count = (x as u32) as i32;
    if count < 0 {
        return Err(NbtError::InvalidLength);
    }
    let n = count as usize;
    let ghost whole = spec_read_list(s@, (pos + 5) as nat, elem_type, n as nat, Seq::empty());
    let mut list: Vec<Value> = Vec::new();
    let mut p: usize = pos + 5;
    let mut k: usize = 0;
    assert(view_values(list@) =~= Seq::<ValueView>::empty());
    while k < n
        invariant
            k <= n,
            pos + 5 <= p <= s@.len(),
            elem_type == s@[pos as int],
            be_i32(s@, pos + 1int) >= 0,
            n == be_i32(s@, pos + 1int) as nat,
            whole == spec_read_list(s@, (pos + 5) as nat, elem_type, n as nat, Seq::empty()),
            whole == spec_read_list(s@, p as nat, elem_type, (n - k) as nat, view_values(list@)),
        decreases n - k,
    {
        match read_value(s, p, elem_type) {
            Ok((v, q)) => {
                proof {
                    lemma_view_values_push(list@, v);
                }
                list.push(v);
                p = q;
            },
            Err(e) => return Err(e),
        }
        k = k + 1;
    }
    Ok((Value::List(list), p))
}

/// Reads the entries of a compound at `pos`, up to its end tag.
fn read_compound(s: &[u8], pos: usize) -> (r: Result<(Value, usize), NbtError>)
    requires
        pos <= s@.len(),
    ensures
        read_value_result(s@, pos as nat, 10, r),
    decreases s@.len() - pos, 1nat, 0nat,
{
    let total = s.len();
    let ghost whole = spec_read_entries(s@, pos as nat, Seq::empty());
    let mut map: Vec<(String, Value)> = Vec::new();
    let mut p: usize = pos;
    assert(view_entries(map@) =~= Seq::<(Seq<char>, ValueView)>::empty());
    loop
        invariant
            total == s@.len(),
            pos <= p <= s@.len(),
            whole == spec_read_entries(s@, pos as nat, Seq::empty()),
            whole == spec_read_entries(s@, p as nat, view_entries(map@)),
        decreases s@.len() - p,
    {
        if p >= total {
            return Err(NbtError::Io);
        }
        let tag_type = s[p];
        if tag_type == 0 {
            return Ok((Value::Compound(map), p + 1));
        }
        let (name, p2) = match read_string(s, p + 1) {
            Ok(x) => x,
            Err(e) => return Err(e),
        };
        let (value, p3) = match read_value(s, p2, tag_type) {
            Ok(x) => x,
            Err(e) => return Err(e),
        };
        compound_insert(&mut map, name, value);
        p = p3;
    }
}

/// Reads an array of big-endian `i32` at `pos`: a count, then the items.
fn read_int_array(s: &[u8], pos: usize) -> (r: Result<(Value, usize), NbtError>)
    requires
        pos <= s@.len(),
    ensures
        read_value_result(s@, pos as nat, 11, r),
{
    let n = match read_count(s, pos, 4) {
        Ok(n) => n,
        Err(e) => return Err(e),
    };
    let mut list: Vec<i32> = Vec::with_capacity(n);
    let mut k: usize = 0;
    while k < n
        invariant
            k <= n,
            pos + 4 + 4 * n <= s.len(),
            list@ == Seq::new(k as nat, |m: int| be_i32(s@, pos + 4 + 4 * m)),
        decreases n - k,
    {
        let x = match read_be(s, pos + 4 + 4 * k, 4) {
            Some(x) => x,
            None => return Err(NbtError::Io),
        };
        list.push((x as u32) as i32);
        k = k + 1;
        assert(list@ =~= Seq::new(k as nat, |m: int| be_i32(s@, pos + 4 + 4 * m)));
    }
    Ok((Value::IntArray(list), pos + 4 + 4 * n))
}

/// Reads an array of big-endian `i64` at `pos`: a count, then the items.
fn read_long_array(s: &[u8], pos: usize) -> (r: Result<(Value, usize), NbtError>)
    requires
        pos <= s@.len(),
    ensures
        read_value_result(s@, pos as nat, 12, r),
{
    let n = match read_count(s, pos, 8) {
        Ok(n) => n,
        Err(e) => return Err(e),
    };
    let mut list: Vec<i64> = Vec::with_capacity(n);
    let mut k: usize = 0;
    while k < n
        invariant
            k <= n,
            pos + 4 + 8 * n <= s.len(),
            list@ == Seq::new(k as nat, |m: int| (be_value(s@, pos + 4 + 8 * m, 8) as u64) as i64),
        decreases n - k,
    {
        let x = match read_be(s, pos + 4 + 8 * k, 8) {
            Some(x) => x,
            None => return Err(NbtError::Io),
        };
        list.push(x as i64);
        k = k + 1;
        assert(list@ =~= Seq::new(
            k as nat,
            |m: int| (be_value(s@, pos + 4 + 8 * m, 8) as u64) as i64,
        ));
    }
    Ok((Value::LongArray(list), pos + 4 + 8 * n))
}

/// Reads a byte array at `pos`: a big-endian `i32` count, then the bytes.
fn read_byte_array(s: &[u8], pos: usize) -> (r: Result<(Value, usize), NbtError>)
    requires
        pos <= s@.len(),
    ensures
        read_value_result(s@, pos as nat, 7, r),
{
    let n = match read_count(s, pos, 1) {
        Ok(n) => n,
        Err(e) => return Err(e),
    };
    let total = s.len();
    assert(pos + 4 + n <= total);
    let start = pos + 4;
    let bytes = vstd::slice::slice_to_vec(&s[start..start + n]);
    Ok((Value::ByteArray(bytes), start + n))
}

/// Reads the value of tag `tag` at `pos`; gives it and the position after it.
fn read_value(s: &[u8], pos: usize, tag: u8) -> (r: Result<(Value, usize), NbtError>)
    requires
        pos <= s@.len(),
    ensures
        read_value_result(s@, pos as nat, tag, r),
    decreases s@.len() - pos, 2nat, 0nat,
{
    proof {
        reveal_with_fuel(be_value, 9);
    }
    let total = s.len();
    assert(total == s@.len());
    match tag {
        1 => match read_be(s, pos, 1) {
            Some(x) => Ok((Value::Byte((x as u8) as i8), pos + 1)),
            None => Err(NbtError::Io),
        },
        2 => match read_be(s, pos, 2) {
            Some(x) => Ok((Value::Short((x as u16) as i16), pos + 2)),
            None => Err(NbtError::Io),
        },
        3 => match read_be(s, pos, 4) {
            Some(x) => Ok((Value::Int((x as u32) as i32), pos + 4)),
            None => Err(NbtError::Io),
        },
        4 => match read_be(s, pos, 8) {
            Some(x) => Ok((Value::Long(x as i64), pos + 8)),
            None => Err(NbtError::Io),
        },
        5 => match read_be(s, pos, 4) {
            Some(x) => Ok((Value::Float(x as u32), pos + 4)),
            None => Err(NbtError::Io),
        },
        6 => match read_be(s, pos, 8) {
            Some(x) => Ok((Value::Double(x), pos + 8)),
            None => Err(NbtError::Io),
        },
        7 => read_byte_array(s, pos),
        8 => match read_string(s, pos) {
            Ok((st, p)) => Ok((Value::String(st), p)),
            Err(e) => Err(e),
        },
        9 => read_list(s, pos),
        10 => read_compound(s, pos),
        11 => read_int_array(s, pos),
        12 => read_long_array(s, pos),
        id => Err(NbtError::InvalidTagId(id)),
    }
}

/// Reads NBT from bytes held in memory.
pub struct NbtReader {
    bytes: Vec<u8>,
    pos: usize,
    options: NbtOptions,
}

impl NbtReader {
    /// The bytes being read.
    pub closed spec fn spec_bytes(&self) -> Seq<u8> {
        self.bytes@
    }

    /// How many bytes have been read.
    pub closed spec fn spec_pos(&self) -> nat {
        self.pos as nat
    }

    /// The options of this reader.
    pub closed spec fn spec_options(&self) -> NbtOptions {
        self.options
    }

    /// A reader at the start of `bytes`, with the default options.
    pub fn new(bytes: Vec<u8>) -> (r: Self)
        ensures
            r.spec_bytes() == bytes@,
            r.spec_pos() == 0,
            r.spec_options().spec_flags() == 0,
    {
        Self { bytes, pos: 0, options: NbtOptions::new() }
    }

    /// A reader at the start of `bytes`, with the given options.
    pub fn new_with_options(bytes: Vec<u8>, options: NbtOptions) -> (r: Self)
        ensures
            r.spec_bytes() == bytes@,
            r.spec_pos() == 0,
            r.spec_options() == options,
    {
        Self { bytes, pos: 0, options }
    }

    /// Reads the root tag: its id, its name (skipped, and empty, when the
    /// options say the root is nameless), then its value. On success the
    /// position moves past the value; on an error it stays where it was, so
    /// nothing of a document that cannot be read is consumed (how much a
    /// failed read takes from a byte stream is left unspecified by
    /// `std::io::Read::read_exact`).
    pub fn read_root(&mut self) -> (r: Result<(String, Value), NbtError>)
        ensures
            final(self).spec_bytes() == old(self).spec_bytes(),
            final(self).spec_options() == old(self).spec_options(),
            r is Err ==> final(self).spec_pos() == old(self).spec_pos(),
            match r {
                Ok((name, v)) => spec_read_root(
                    old(self).spec_bytes(),
                    old(self).spec_pos(),
                    old(self).spec_options().spec_nameless_root(),
                ) == Ok::<(Seq<char>, ValueView, nat), NbtError>(
                    (name@, v@, final(self).spec_pos()),
                ),
                Err(e) => spec_read_root(
                    old(self).spec_bytes(),
                    old(self).spec_pos(),
                    old(self).spec_options().spec_nameless_root(),
                ) == Err::<(Seq<char>, ValueView, nat), NbtError>(e),
            },
    {
        let s = self.bytes.as_slice();
        let pos = self.pos;
        if pos >= s.len() {
            return Err(NbtError::Io);
        }
        let tag_id = s[pos];
        let (name, p) = if self.options.is_nameless_root() {
            (String::new(), pos + 1)
        } else {
            match read_string(s, pos + 1) {
                Ok(x) => x,
                Err(e) => return Err(e),
            }
        };
        let (value, q) = match read_value(s, p, tag_id) {
            Ok(x) => x,
            Err(e) => return Err(e),
        };
        self.pos = q;
        Ok((name, value))
    }
}

/// Reads a document with a named root from the start of `bytes`; bytes
/// after the root value are left unread.
pub fn from_slice(bytes: &[u8]) -> (r: Result<(String, Value), NbtError>)
    ensures
        match r {
            Ok((name, v)) => exists|end: nat|
                spec_read_root(bytes@, 0, false) == Ok::<(Seq<char>, ValueView, nat), NbtError>(
                    (name@, v@, end),
                ),
            Err(e) => spec_read_root(bytes@, 0, false) == Err::<
                (Seq<char>, ValueView, nat),
                NbtError,
            >(e),
        },
{
    let mut reader = NbtReader::new(vstd::slice::slice_to_vec(bytes));
    proof {
        assert(!reader.spec_options().spec_nameless_root()) by {
            assert(0u8 & 1u8 == 0u8) by (bit_vector);
        }
    }
    reader.read_root()
}

} // verus!
