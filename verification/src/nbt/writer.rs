//! Writing binary NBT: the inverse of the reader. A value is written as its
//! payload after its tag id; numbers are big-endian, strings carry a `u16`
//! byte count, arrays and lists an `i32` count, compounds end with tag 0.
use crate::nbt::error::NbtError;
use crate::nbt::options::NbtOptions;
use crate::nbt::value::{
    lemma_view_entries_index, lemma_view_entries_len, lemma_view_values_index,
    lemma_view_values_len, view_entries, view_values, Value, ValueView,
};
use vstd::prelude::*;
use vstd::utf8::encode_utf8;

verus! {

/// The tag id of a value.
pub open spec fn spec_tag_id(v: ValueView) -> u8 {
    match v {
        ValueView::Byte(_) => 1,
        ValueView::Short(_) => 2,
        ValueView::Int(_) => 3,
        ValueView::Long(_) => 4,
        ValueView::Float(_) => 5,
        ValueView::Double(_) => 6,
        ValueView::ByteArray(_) => 7,
        ValueView::String(_) => 8,
        ValueView::List(_) => 9,
        ValueView::Compound(_) => 10,
        ValueView::IntArray(_) => 11,
        ValueView::LongArray(_) => 12,
    }
}

/// The low `n` bytes of `x`, most significant first.
pub open spec fn be_bytes(x: nat, n: nat) -> Seq<u8>
    decreases n,
{
    if n == 0 {
        Seq::empty()
    } else {
        be_bytes(x / 256, (n - 1) as nat).push((x % 256) as u8)
    }
}

/// A string: its UTF-8 byte count as a big-endian `u16`, then the bytes.
pub open spec fn spec_write_string(cs: Seq<char>) -> Seq<u8> {
    be_bytes(encode_utf8(cs).len(), 2) + encode_utf8(cs)
}

/// The element tag that a list is written with: that of its first element,
/// or 0 for an empty list.
pub open spec fn spec_list_tag(items: Seq<ValueView>) -> u8 {
    if items.len() == 0 {
        0
    } else {
        spec_tag_id(items[0])
    }
}

/// Every element has the tag of the first.
pub open spec fn same_tags(items: Seq<ValueView>) -> bool {
    forall|k: int| 0 <= k < items.len() ==> spec_tag_id(#[trigger] items[k]) == spec_tag_id(items[0])
}

/// The bytes of the `i32` numbers, one after another.
pub open spec fn spec_ints_payload(xs: Seq<i32>) -> Seq<u8>
    decreases xs.len(),
{
    if xs.len() == 0 {
        Seq::empty()
    } else {
        spec_ints_payload(xs.drop_last()) + be_bytes(xs.last() as u32 as nat, 4)
    }
}

/// The bytes of the `i64` numbers, one after another.
pub open spec fn spec_longs_payload(xs: Seq<i64>) -> Seq<u8>
    decreases xs.len(),
{
    if xs.len() == 0 {
        Seq::empty()
    } else {
        spec_longs_payload(xs.drop_last()) + be_bytes(xs.last() as u64 as nat, 8)
    }
}

/// The bytes of a value after its tag id.
pub open spec fn spec_payload(v: ValueView) -> Seq<u8>
    decreases v,
{
    match v {
        ValueView::Byte(x) => be_bytes(x as u8 as nat, 1),
        ValueView::Short(x) => be_bytes(x as u16 as nat, 2),
        ValueView::Int(x) => be_bytes(x as u32 as nat, 4),
        ValueView::Long(x) => be_bytes(x as u64 as nat, 8),
        ValueView::Float(b) => be_bytes(b as nat, 4),
        ValueView::Double(b) => be_bytes(b as nat, 8),
        ValueView::ByteArray(b) => be_bytes(b.len(), 4) + b,
        ValueView::String(cs) => spec_write_string(cs),
        ValueView::List(items) => seq![spec_list_tag(items)] + be_bytes(items.len(), 4)
            + spec_items_payload(items),
        ValueView::Compound(entries) => spec_entries_payload(entries).push(0u8),
        ValueView::IntArray(xs) => be_bytes(xs.len(), 4) + spec_ints_payload(xs),
        ValueView::LongArray(xs) => be_bytes(xs.len(), 4) + spec_longs_payload(xs),
    }
}

/// The payloads of the elements of a list, one after another.
pub open spec fn spec_items_payload(items: Seq<ValueView>) -> Seq<u8>
    decreases items,
{
    if items.len() == 0 {
        Seq::empty()
    } else {
        spec_items_payload(items.drop_last()) + spec_payload(items.last())
    }
}

/// The entries of a compound, each as its tag id, its name and its payload.
pub open spec fn spec_entries_payload(entries: Seq<(Seq<char>, ValueView)>) -> Seq<u8>
    decreases entries,
{
    if entries.len() == 0 {
        Seq::empty()
    } else {
        spec_entries_payload(entries.drop_last()) + seq![spec_tag_id(entries.last().1)]
            + spec_write_string(entries.last().0) + spec_payload(entries.last().1)
    }
}

/// Whether a value can be written, or the first reason it cannot, in the
/// order the writer meets them: a string longer than 65535 UTF-8 bytes, an
/// array or list longer than `i32::MAX`, or a list whose elements do not
/// all have the tag of the first.
pub open spec fn spec_check(v: ValueView) -> Result<(), NbtError>
    decreases v,
{
    match v {
        ValueView::ByteArray(b) => if b.len() > i32::MAX {
            Err(NbtError::TooLong)
        } else {
            Ok(())
        },
        ValueView::String(cs) => if encode_utf8(cs).len() > u16::MAX {
            Err(NbtError::TooLong)
        } else {
            Ok(())
        },
        ValueView::List(items) => if items.len() > i32::MAX {
            Err(NbtError::TooLong)
        } else if !same_tags(items) {
            Err(NbtError::MixedList)
        } else {
            spec_check_items(items)
        },
        ValueView::Compound(entries) => spec_check_entries(entries),
        ValueView::IntArray(xs) => if xs.len() > i32::MAX {
            Err(NbtError::TooLong)
        } else {
            Ok(())
        },
        ValueView::LongArray(xs) => if xs.len() > i32::MAX {
            Err(NbtError::TooLong)
        } else {
            Ok(())
        },
        _ => Ok(()),
    }
}

/// The first element of a list that cannot be written, by its reason.
pub open spec fn spec_check_items(items: Seq<ValueView>) -> Result<(), NbtError>
    decreases items,
{
    if items.len() == 0 {
        Ok(())
    } else {
        match spec_check_items(items.drop_last()) {
            Err(e) => Err(e),
            Ok(()) => spec_check(items.last()),
        }
    }
}

/// The first entry of a compound whose name or value cannot be written.
pub open spec fn spec_check_entries(entries: Seq<(Seq<char>, ValueView)>) -> Result<(), NbtError>
    decreases entries,
{
    if entries.len() == 0 {
        Ok(())
    } else {
        match spec_check_entries(entries.drop_last()) {
            Err(e) => Err(e),
            Ok(()) => if encode_utf8(entries.last().0).len() > u16::MAX {
                Err(NbtError::TooLong)
            } else {
                spec_check(entries.last().1)
            },
        }
    }
}

/// A whole document: the root's tag id, its name unless the root is
/// nameless, then its payload.
pub open spec fn spec_write_root(name: Seq<char>, v: ValueView, nameless: bool) -> Seq<u8> {
    if nameless {
        seq![spec_tag_id(v)] + spec_payload(v)
    } else {
        seq![spec_tag_id(v)] + spec_write_string(name) + spec_payload(v)
    }
}

/// Whether a document can be written, or why not: the name first, then the
/// value.
pub open spec fn spec_check_root(name: Seq<char>, v: ValueView, nameless: bool) -> Result<
    (),
    NbtError,
> {
    if !nameless && encode_utf8(name).len() > u16::MAX {
        Err(NbtError::TooLong)
    } else {
        spec_check(v)
    }
}

/// The tag id of a value.
pub fn tag_id(v: &Value) -> (r: u8)
    ensures
        r == spec_tag_id(v@),
{
    match v {
        Value::Byte(_) => 1,
        Value::Short(_) => 2,
        Value::Int(_) => 3,
        Value::Long(_) => 4,
        Value::Float(_) => 5,
        Value::Double(_) => 6,
        Value::ByteArray(_) => 7,
        Value::String(_) => 8,
        Value::List(_) => 9,
        Value::Compound(_) => 10,
        Value::IntArray(_) => 11,
        Value::LongArray(_) => 12,
    }
}

/// Appends the low `n` bytes of `x`, most significant first.
fn write_be(out: &mut Vec<u8>, x: u64, n: usize)
    ensures
        final(out)@ == old(out)@ + be_bytes(x as nat, n as nat),
    decreases n,
{
    if n > 0 {
        write_be(out, x / 256, n - 1);
        out.push((x % 256) as u8);
        assert(final(out)@ =~= old(out)@ + be_bytes(x as nat, n as nat));
    }
}

/// Appends a string: its byte count as a `u16`, then its UTF-8 bytes.
fn write_string(out: &mut Vec<u8>, s: &str) -> (r: Result<(), NbtError>)
    ensures
        match r {
            Ok(()) => encode_utf8(s@).len() <= u16::MAX && final(out)@ == old(out)@
                + spec_write_string(s@),
            Err(e) => e == NbtError::TooLong && encode_utf8(s@).len() > u16::MAX,
        },
{
    let bytes = s.as_bytes();
    if bytes.len() > 65535 {
        return Err(NbtError::TooLong);
    }
    write_be(out, bytes.len() as u64, 2);
    out.extend_from_slice(bytes);
    assert(final(out)@ =~= old(out)@ + spec_write_string(s@));
    Ok(())
}

/// Appends the payload of `v`, or says why it cannot be written.
fn write_payload(v: &Value, out: &mut Vec<u8>) -> (r: Result<(), NbtError>)
    ensures
        match r {
            Ok(()) => spec_check(v@) == Ok::<(), NbtError>(()) && final(out)@ == old(out)@
                + spec_payload(v@),
            Err(e) => spec_check(v@) == Err::<(), NbtError>(e),
        },
    decreases v, 1nat,
{
    match v {
        Value::Byte(x) => {
            write_be(out, (*x as u8) as u64, 1);
            Ok(())
        },
        Value::Short(x) => {
            write_be(out, (*x as u16) as u64, 2);
            Ok(())
        },
        Value::Int(x) => {
            write_be(out, (*x as u32) as u64, 4);
            Ok(())
        },
        Value::Long(x) => {
            write_be(out, *x as u64, 8);
            Ok(())
        },
        Value::Float(b) => {
            write_be(out, *b as u64, 4);
            Ok(())
        },
        Value::Double(b) => {
            write_be(out, *b, 8);
            Ok(())
        },
        Value::ByteArray(b) => {
            if b.len() > 0x7FFF_FFFF {
                return Err(NbtError::TooLong);
            }
            write_be(out, b.len() as u64, 4);
            out.extend_from_slice(b.as_slice());
            assert(final(out)@ =~= old(out)@ + spec_payload(v@));
            Ok(())
        },
        Value::String(s) => write_string(out, s.as_str()),
        Value::List(items) => write_list(items, out),
        Value::Compound(entries) => write_compound(entries, out),
        Value::IntArray(xs) => {
            if xs.len() > 0x7FFF_FFFF {
                return Err(NbtError::TooLong);
            }
            write_be(out, xs.len() as u64, 4);
            let ghost start = out@;
            let mut k: usize = 0;
            while k < xs.len()
                invariant
                    k <= xs@.len(),
                    out@ == start + spec_ints_payload(xs@.take(k as int)),
                decreases xs@.len() - k,
            {
                assert(xs@.take(k + 1).drop_last() =~= xs@.take(k as int));
                write_be(out, (xs[k] as u32) as u64, 4);
                k = k + 1;
                assert(out@ =~= start + spec_ints_payload(xs@.take(k as int)));
            }
            assert(xs@.take(k as int) =~= xs@);
            assert(final(out)@ =~= old(out)@ + spec_payload(v@));
            Ok(())
        },
        Value::LongArray(xs) => {
            if xs.len() > 0x7FFF_FFFF {
                return Err(NbtError::TooLong);
            }
            write_be(out, xs.len() as u64, 4);
            let ghost start = out@;
            let mut k: usize = 0;
            while k < xs.len()
                invariant
                    k <= xs@.len(),
                    out@ == start + spec_longs_payload(xs@.take(k as int)),
                decreases xs@.len() - k,
            {
                assert(xs@.take(k + 1).drop_last() =~= xs@.take(k as int));
                write_be(out, xs[k] as u64, 8);
                k = k + 1;
                assert(out@ =~= start + spec_longs_payload(xs@.take(k as int)));
            }
            assert(xs@.take(k as int) =~= xs@);
            assert(final(out)@ =~= old(out)@ + spec_payload(v@));
            Ok(())
        },
    }
}

/// An error in an element is the error of every longer prefix of the list.
proof fn lemma_check_items_error_stays(items: Seq<ValueView>, k: int)
    requires
        0 <= k < items.len(),
        spec_check_items(items.take(k + 1)) is Err,
    ensures
        spec_check_items(items) == spec_check_items(items.take(k + 1)),
    decreases items.len() - k,
{
    if k + 1 < items.len() {
        assert(items.take(k + 2).drop_last() =~= items.take(k + 1));
        lemma_check_items_error_stays(items, k + 1);
    } else {
        assert(items.take(k + 1) =~= items);
    }
}

/// An error in an entry is the error of every longer prefix of the entries.
proof fn lemma_check_entries_error_stays(entries: Seq<(Seq<char>, ValueView)>, k: int)
    requires
        0 <= k < entries.len(),
        spec_check_entries(entries.take(k + 1)) is Err,
    ensures
        spec_check_entries(entries) == spec_check_entries(entries.take(k + 1)),
    decreases entries.len() - k,
{
    if k + 1 < entries.len() {
        assert(entries.take(k + 2).drop_last() =~= entries.take(k + 1));
        lemma_check_entries_error_stays(entries, k + 1);
    } else {
        assert(entries.take(k + 1) =~= entries);
    }
}

/// Appends a list: the element tag, the count, then the elements' payloads.
fn write_list(items: &Vec<Value>, out: &mut Vec<u8>) -> (r: Result<(), NbtError>)
    ensures
        match r {
            Ok(()) => spec_check(ValueView::List(view_values(items@))) == Ok::<(), NbtError>(())
                && final(out)@ == old(out)@ + spec_payload(ValueView::List(view_values(items@))),
            Err(e) => spec_check(ValueView::List(view_values(items@))) == Err::<(), NbtError>(e),
        },
    decreases items@, 0nat,
{
    let ghost views = view_values(items@);
    proof {
        lemma_view_values_len(items@);
    }
    if items.len() > 0x7FFF_FFFF {
        return Err(NbtError::TooLong);
    }
    let tag: u8 = if items.len() == 0 {
        0
    } else {
        tag_id(&items[0])
    };
    proof {
        if items.len() > 0 {
            lemma_view_values_index(items@, 0);
        }
    }
    let mut k: usize = 0;
    while k < items.len()
        invariant
            k <= items@.len(),
            views == view_values(items@),
            views.len() == items@.len(),
            items@.len() <= i32::MAX,
            items@.len() > 0 ==> tag == spec_tag_id(views[0]),
            forall|j: int| 0 <= j < k ==> spec_tag_id(#[trigger] views[j]) == tag,
        decreases items@.len() - k,
    {
        proof {
            lemma_view_values_index(items@, k as int);
        }
        if tag_id(&items[k]) != tag {
            assert(!same_tags(views)) by {
                assert(spec_tag_id(views[k as int]) != spec_tag_id(views[0]));
            }
            return Err(NbtError::MixedList);
        }
        k = k + 1;
    }
    assert(same_tags(views));
    out.push(tag);
    write_be(out, items.len() as u64, 4);
    let ghost start = out@;
    let mut k: usize = 0;
    while k < items.len()
        invariant
            k <= items@.len(),
            views == view_values(items@),
            views.len() == items@.len(),
            items@.len() <= i32::MAX,
            same_tags(views),
            spec_check_items(views.take(k as int)) == Ok::<(), NbtError>(()),
            out@ == start + spec_items_payload(views.take(k as int)),
        decreases items@.len() - k,
    {
        proof {
            lemma_view_values_index(items@, k as int);
            assert(views.take(k + 1).drop_last() =~= views.take(k as int));
            assert(decreases_to!(items@ => items@[k as int]));
        }
        match write_payload(&items[k], out) {
            Ok(()) => {},
            Err(e) => {
                proof {
                    assert(views.take(k + 1).last() == views[k as int]);
                    assert(spec_check_items(views.take(k + 1)) == Err::<(), NbtError>(e));
                    lemma_check_items_error_stays(views, k as int);
                }
                return Err(e);
            },
        }
        k = k + 1;
        assert(out@ =~= start + spec_items_payload(views.take(k as int)));
    }
    assert(views.take(k as int) =~= views);
    assert(final(out)@ =~= old(out)@ + spec_payload(ValueView::List(views)));
    Ok(())
}

/// Appends a compound: each entry as its tag id, name and payload, then the
/// end tag.
fn write_compound(entries: &Vec<(String, Value)>, out: &mut Vec<u8>) -> (r: Result<(), NbtError>)
    ensures
        match r {
            Ok(()) => spec_check(ValueView::Compound(view_entries(entries@))) == Ok::<
                (),
                NbtError,
            >(()) && final(out)@ == old(out)@ + spec_payload(
                ValueView::Compound(view_entries(entries@)),
            ),
            Err(e) => spec_check(ValueView::Compound(view_entries(entries@))) == Err::<
                (),
                NbtError,
            >(e),
        },
    decreases entries@, 0nat,
{
    let ghost views = view_entries(entries@);
    proof {
        lemma_view_entries_len(entries@);
    }
    let ghost start = out@;
    let mut k: usize = 0;
    while k < entries.len()
        invariant
            k <= entries@.len(),
            views == view_entries(entries@),
            views.len() == entries@.len(),
            spec_check_entries(views.take(k as int)) == Ok::<(), NbtError>(()),
            out@ == start + spec_entries_payload(views.take(k as int)),
        decreases entries@.len() - k,
    {
        proof {
            lemma_view_entries_index(entries@, k as int);
            assert(views.take(k + 1).drop_last() =~= views.take(k as int));
            assert(decreases_to!(entries@ => entries@[k as int].1));
        }
        let entry = &entries[k];
        let name = entry.0.as_str();
        if name.as_bytes().len() > 65535 {
            proof {
                lemma_check_entries_error_stays(views, k as int);
            }
            return Err(NbtError::TooLong);
        }
        out.push(tag_id(&entry.1));
        let _ = write_string(out, name);
        match write_payload(&entry.1, out) {
            Ok(()) => {},
            Err(e) => {
                proof {
                    lemma_check_entries_error_stays(views, k as int);
                }
                return Err(e);
            },
        }
        k = k + 1;
        assert(out@ =~= start + spec_entries_payload(views.take(k as int)));
    }
    assert(views.take(k as int) =~= views);
    out.push(0);
    assert(final(out)@ =~= old(out)@ + spec_payload(ValueView::Compound(views)));
    Ok(())
}

/// Writes a whole document: the root's tag id, its name unless the options
/// make the root nameless, then the value.
pub fn to_bytes_with_options(value: &Value, name: &str, options: NbtOptions) -> (r: Result<
    Vec<u8>,
    NbtError,
>)
    ensures
        match r {
            Ok(bytes) => spec_check_root(name@, value@, options.spec_nameless_root()) == Ok::<
                (),
                NbtError,
            >(()) && bytes@ == spec_write_root(name@, value@, options.spec_nameless_root()),
            Err(e) => spec_check_root(name@, value@, options.spec_nameless_root()) == Err::<
                (),
                NbtError,
            >(e),
        },
{
    let mut out: Vec<u8> = Vec::new();
    out.push(tag_id(value));
    if !options.is_nameless_root() {
        match write_string(&mut out, name) {
            Ok(()) => {},
            Err(e) => return Err(e),
        }
    }
    match write_payload(value, &mut out) {
        Ok(()) => {},
        Err(e) => return Err(e),
    }
    assert(out@ =~= spec_write_root(name@, value@, options.spec_nameless_root()));
    Ok(out)
}

/// Writes a whole document with the root named `name`, or nameless when
/// there is no name.
pub fn to_bytes(value: &Value, name: Option<&str>) -> (r: Result<Vec<u8>, NbtError>)
    ensures
        match r {
            Ok(bytes) => spec_check_root(
                match name {
                    Some(n) => n@,
                    None => Seq::empty(),
                },
                value@,
                name is None,
            ) == Ok::<(), NbtError>(()) && bytes@ == spec_write_root(
                match name {
                    Some(n) => n@,
                    None => Seq::empty(),
                },
                value@,
                name is None,
            ),
            Err(e) => spec_check_root(
                match name {
                    Some(n) => n@,
                    None => Seq::empty(),
                },
                value@,
                name is None,
            ) == Err::<(), NbtError>(e),
        },
{
    match name {
        Some(n) => to_bytes_with_options(value, n, NbtOptions::new()),
        None => to_bytes_with_options(value, "", NbtOptions::new().nameless_root(true)),
    }
}

} // verus!
