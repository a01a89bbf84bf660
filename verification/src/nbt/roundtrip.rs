//! The reader gives back what the writer wrote.
use crate::nbt::error::NbtError;
use crate::nbt::reader::{
    be_i32, be_value, pow256, spec_array_count, spec_read_entries, spec_read_list, spec_read_root,
    spec_read_string, spec_read_value,
};
use crate::nbt::value::{key_index, lemma_key_index_absent, spec_insert, ValueView};
use crate::nbt::writer::{
    be_bytes, same_tags, spec_check, spec_check_entries, spec_check_items, spec_check_root,
    spec_entries_payload, spec_ints_payload, spec_items_payload, spec_list_tag, spec_longs_payload,
    spec_payload, spec_tag_id, spec_write_root, spec_write_string,
};
use vstd::prelude::*;
use vstd::utf8::{decode_utf8, encode_utf8, valid_utf8};

verus! {

broadcast use {vstd::utf8::encode_utf8_valid_utf8, vstd::utf8::encode_utf8_decode_utf8};

/// No two entries have the same name.
pub open spec fn names_distinct(entries: Seq<(Seq<char>, ValueView)>) -> bool {
    forall|i: int, j: int|
        0 <= i < j < entries.len() ==> #[trigger] entries[i].0 != #[trigger] entries[j].0
}

/// No compound, at any depth, has two entries of one name.
pub open spec fn unique_names(v: ValueView) -> bool
    decreases v,
{
    match v {
        ValueView::List(items) => unique_names_items(items),
        ValueView::Compound(entries) => names_distinct(entries) && unique_names_entries(entries),
        _ => true,
    }
}

/// Every element has unique names at every depth.
pub open spec fn unique_names_items(items: Seq<ValueView>) -> bool
    decreases items,
{
    if items.len() == 0 {
        true
    } else {
        unique_names_items(items.drop_last()) && unique_names(items.last())
    }
}

/// Every entry's value has unique names at every depth.
pub open spec fn unique_names_entries(entries: Seq<(Seq<char>, ValueView)>) -> bool
    decreases entries,
{
    if entries.len() == 0 {
        true
    } else {
        unique_names_entries(entries.drop_last()) && unique_names(entries.last().1)
    }
}

proof fn lemma_sign_casts(b: i8, s: i16, i: i32, l: i64)
    by (bit_vector)
    ensures
        (b as u8) as i8 == b,
        (s as u16) as i16 == s,
        (i as u32) as i32 == i,
        (l as u64) as i64 == l,
{
}

proof fn lemma_pow256_values()
    ensures
        pow256(1) == 0x100,
        pow256(2) == 0x1_0000,
        pow256(4) == 0x1_0000_0000,
        pow256(8) == 0x1_0000_0000_0000_0000,
{
    reveal_with_fuel(pow256, 9);
}

proof fn lemma_be_bytes_len(x: nat, n: nat)
    ensures
        be_bytes(x, n).len() == n,
    decreases n,
{
    if n > 0 {
        lemma_be_bytes_len(x / 256, (n - 1) as nat);
    }
}

proof fn lemma_pow256_positive(n: nat)
    ensures
        pow256(n) >= 1,
    decreases n,
{
    if n > 0 {
        lemma_pow256_positive((n - 1) as nat);
    }
}

/// The big-endian number in bytes written by `be_bytes` is the number written.
proof fn lemma_be_value_bytes(s: Seq<u8>, pos: int, x: nat, n: nat)
    requires
        0 <= pos,
        pos + n <= s.len(),
        s.subrange(pos, pos + n) == be_bytes(x, n),
        x < pow256(n),
    ensures
        be_value(s, pos, n) == x,
    decreases n,
{
    if n > 0 {
        let m = (n - 1) as nat;
        lemma_be_bytes_len(x / 256, m);
        assert(s.subrange(pos, pos + m) =~= s.subrange(pos, pos + n).subrange(0, m as int));
        assert(be_bytes(x, n).subrange(0, m as int) =~= be_bytes(x / 256, m));
        lemma_pow256_positive(m);
        assert(x / 256 < pow256(m)) by (nonlinear_arith)
            requires
                x < pow256(n),
                pow256(n) == 256 * pow256(m),
        ;
        lemma_be_value_bytes(s, pos, x / 256, m);
        assert(s[pos + m] == s.subrange(pos, pos + n)[m as int]);
        assert(s[pos + m] == (x % 256) as u8);
        assert((x / 256) * 256 + x % 256 == x) by (nonlinear_arith);
    }
}

proof fn lemma_items_payload_append(a: Seq<ValueView>, b: Seq<ValueView>)
    ensures
        spec_items_payload(a + b) == spec_items_payload(a) + spec_items_payload(b),
    decreases b.len(),
{
    if b.len() == 0 {
        assert(a + b =~= a);
        assert(spec_items_payload(a) + spec_items_payload(b) =~= spec_items_payload(a));
    } else {
        assert((a + b).drop_last() =~= a + b.drop_last());
        lemma_items_payload_append(a, b.drop_last());
        assert(spec_items_payload(a + b) =~= spec_items_payload(a) + spec_items_payload(b));
    }
}

proof fn lemma_entries_payload_append(
    a: Seq<(Seq<char>, ValueView)>,
    b: Seq<(Seq<char>, ValueView)>,
)
    ensures
        spec_entries_payload(a + b) == spec_entries_payload(a) + spec_entries_payload(b),
    decreases b.len(),
{
    if b.len() == 0 {
        assert(a + b =~= a);
        assert(spec_entries_payload(a) + spec_entries_payload(b) =~= spec_entries_payload(a));
    } else {
        assert((a + b).drop_last() =~= a + b.drop_last());
        lemma_entries_payload_append(a, b.drop_last());
        assert(spec_entries_payload(a + b) =~= spec_entries_payload(a) + spec_entries_payload(b));
    }
}

/// The bytes of the `k`-th number of an `i32` array.
proof fn lemma_ints_payload_at(xs: Seq<i32>, k: int)
    requires
        0 <= k < xs.len(),
    ensures
        spec_ints_payload(xs).len() == 4 * xs.len(),
        spec_ints_payload(xs).subrange(4 * k, 4 * k + 4) == be_bytes(xs[k] as u32 as nat, 4),
    decreases xs.len(),
{
    lemma_be_bytes_len(xs.last() as u32 as nat, 4);
    if k < xs.len() - 1 {
        lemma_ints_payload_at(xs.drop_last(), k);
        assert(spec_ints_payload(xs).subrange(4 * k, 4 * k + 4) =~= spec_ints_payload(
            xs.drop_last(),
        ).subrange(4 * k, 4 * k + 4));
    } else {
        lemma_ints_payload_len(xs.drop_last());
        assert(spec_ints_payload(xs).subrange(4 * k, 4 * k + 4) =~= be_bytes(
            xs[k] as u32 as nat,
            4,
        ));
    }
}

proof fn lemma_ints_payload_len(xs: Seq<i32>)
    ensures
        spec_ints_payload(xs).len() == 4 * xs.len(),
    decreases xs.len(),
{
    if xs.len() > 0 {
        lemma_ints_payload_len(xs.drop_last());
        lemma_be_bytes_len(xs.last() as u32 as nat, 4);
    }
}

/// The bytes of the `k`-th number of an `i64` array.
proof fn lemma_longs_payload_at(xs: Seq<i64>, k: int)
    requires
        0 <= k < xs.len(),
    ensures
        spec_longs_payload(xs).len() == 8 * xs.len(),
        spec_longs_payload(xs).subrange(8 * k, 8 * k + 8) == be_bytes(xs[k] as u64 as nat, 8),
    decreases xs.len(),
{
    lemma_be_bytes_len(xs.last() as u64 as nat, 8);
    if k < xs.len() - 1 {
        lemma_longs_payload_at(xs.drop_last(), k);
        assert(spec_longs_payload(xs).subrange(8 * k, 8 * k + 8) =~= spec_longs_payload(
            xs.drop_last(),
        ).subrange(8 * k, 8 * k + 8));
    } else {
        lemma_longs_payload_len(xs.drop_last());
        assert(spec_longs_payload(xs).subrange(8 * k, 8 * k + 8) =~= be_bytes(
            xs[k] as u64 as nat,
            8,
        ));
    }
}

proof fn lemma_longs_payload_len(xs: Seq<i64>)
    ensures
        spec_longs_payload(xs).len() == 8 * xs.len(),
    decreases xs.len(),
{
    if xs.len() > 0 {
        lemma_longs_payload_len(xs.drop_last());
        lemma_be_bytes_len(xs.last() as u64 as nat, 8);
    }
}

/// A writable list has writable elements with unique names.
proof fn lemma_items_each(items: Seq<ValueView>, k: int)
    requires
        0 <= k < items.len(),
        spec_check_items(items) is Ok,
        unique_names_items(items),
    ensures
        spec_check(items[k]) is Ok,
        unique_names(items[k]),
    decreases items.len(),
{
    if spec_check_items(items.drop_last()) is Err {
        assert(spec_check_items(items) is Err);
    }
    if k < items.len() - 1 {
        lemma_items_each(items.drop_last(), k);
    }
}

/// A writable compound has short names and writable values with unique names.
proof fn lemma_entries_each(entries: Seq<(Seq<char>, ValueView)>, k: int)
    requires
        0 <= k < entries.len(),
        spec_check_entries(entries) is Ok,
        unique_names_entries(entries),
    ensures
        encode_utf8(entries[k].0).len() <= u16::MAX,
        spec_check(entries[k].1) is Ok,
        unique_names(entries[k].1),
    decreases entries.len(),
{
    if spec_check_entries(entries.drop_last()) is Err {
        assert(spec_check_entries(entries) is Err);
    }
    if k < entries.len() - 1 {
        lemma_entries_each(entries.drop_last(), k);
    }
}

proof fn lemma_write_string_len(cs: Seq<char>)
    ensures
        spec_write_string(cs).len() == 2 + encode_utf8(cs).len(),
{
    lemma_be_bytes_len(encode_utf8(cs).len(), 2);
}

/// Reading a written string gives it back.
proof fn lemma_read_string(s: Seq<u8>, pos: int, cs: Seq<char>)
    requires
        0 <= pos,
        encode_utf8(cs).len() <= u16::MAX,
        pos + spec_write_string(cs).len() <= s.len(),
        s.subrange(pos, pos + spec_write_string(cs).len()) == spec_write_string(cs),
    ensures
        spec_read_string(s, pos as nat) == Ok::<(Seq<char>, nat), NbtError>(
            (cs, (pos + spec_write_string(cs).len()) as nat),
        ),
{
    let body = encode_utf8(cs);
    let w = spec_write_string(cs);
    lemma_write_string_len(cs);
    lemma_be_bytes_len(body.len(), 2);
    lemma_pow256_values();
    assert(s.subrange(pos, pos + 2) =~= w.subrange(0, 2));
    assert(w.subrange(0, 2) =~= be_bytes(body.len(), 2));
    lemma_be_value_bytes(s, pos, body.len(), 2);
    assert(s.subrange(pos + 2, pos + 2 + body.len()) =~= w.subrange(2, w.len() as int));
    assert(w.subrange(2, w.len() as int) =~= body);
}

proof fn lemma_payload_nonempty(v: ValueView)
    ensures
        spec_payload(v).len() >= 1,
{
    match v {
        ValueView::Byte(x) => lemma_be_bytes_len(x as u8 as nat, 1),
        ValueView::Short(x) => lemma_be_bytes_len(x as u16 as nat, 2),
        ValueView::Int(x) => lemma_be_bytes_len(x as u32 as nat, 4),
        ValueView::Long(x) => lemma_be_bytes_len(x as u64 as nat, 8),
        ValueView::Float(b) => lemma_be_bytes_len(b as nat, 4),
        ValueView::Double(b) => lemma_be_bytes_len(b as nat, 8),
        ValueView::ByteArray(b) => lemma_be_bytes_len(b.len(), 4),
        ValueView::String(cs) => lemma_write_string_len(cs),
        ValueView::IntArray(xs) => lemma_be_bytes_len(xs.len(), 4),
        ValueView::LongArray(xs) => lemma_be_bytes_len(xs.len(), 8),
        _ => {},
    }
}

/// Reading the elements of a written list, from the `k`-th on, gives the
/// whole list and stops at its end.
proof fn lemma_read_items(s: Seq<u8>, start: int, items: Seq<ValueView>, k: int, tag: u8)
    requires
        0 <= start,
        0 <= k <= items.len(),
        forall|j: int| 0 <= j < items.len() ==> spec_tag_id(#[trigger] items[j]) == tag,
        spec_check_items(items) is Ok,
        unique_names_items(items),
        start + spec_items_payload(items).len() <= s.len(),
        s.subrange(start, start + spec_items_payload(items).len()) == spec_items_payload(items),
    ensures
        spec_read_list(
            s,
            (start + spec_items_payload(items.take(k)).len()) as nat,
            tag,
            (items.len() - k) as nat,
            items.take(k),
        ) == Ok::<(Seq<ValueView>, nat), NbtError>(
            (items, (start + spec_items_payload(items).len()) as nat),
        ),
    decreases items, items.len() - k,
{
    let whole = spec_items_payload(items);
    let head = spec_items_payload(items.take(k));
    let p = start + head.len();
    assert(items =~= items.take(k) + items.skip(k));
    lemma_items_payload_append(items.take(k), items.skip(k));
    if k == items.len() {
        assert(items.take(k) =~= items);
    } else {
        let v = items[k];
        let pv = spec_payload(v);
        assert(items.take(k + 1).drop_last() =~= items.take(k));
        assert(items =~= items.take(k + 1) + items.skip(k + 1));
        lemma_items_payload_append(items.take(k + 1), items.skip(k + 1));
        assert(spec_items_payload(items.take(k + 1)) == head + pv);
        assert(whole == head + pv + spec_items_payload(items.skip(k + 1)));
        let h = head.len() as int;
        let lp = pv.len() as int;
        assert(s.subrange(p, p + lp) =~= whole.subrange(h, h + lp));
        assert(whole.subrange(h, h + lp) =~= pv);
        lemma_items_each(items, k);
        assert(decreases_to!(items => items[k]));
        lemma_read_payload(s, p, v);
        lemma_payload_nonempty(v);
        lemma_read_items(s, start, items, k + 1, tag);
        assert(items.take(k).push(v) =~= items.take(k + 1));
    }
}

#[verifier::rlimit(40)]
/// Reading the entries of a written compound, from the `k`-th on, gives
/// them all and stops after the end tag.
proof fn lemma_read_entries(
    s: Seq<u8>,
    start: int,
    entries: Seq<(Seq<char>, ValueView)>,
    k: int,
)
    requires
        0 <= start,
        0 <= k <= entries.len(),
        names_distinct(entries),
        spec_check_entries(entries) is Ok,
        unique_names_entries(entries),
        start + spec_entries_payload(entries).len() + 1 <= s.len(),
        s.subrange(start, start + spec_entries_payload(entries).len() + 1)
            == spec_entries_payload(entries).push(0u8),
    ensures
        spec_read_entries(
            s,
            (start + spec_entries_payload(entries.take(k)).len()) as nat,
            entries.take(k),
        ) == Ok::<(Seq<(Seq<char>, ValueView)>, nat), NbtError>(
            (entries, (start + spec_entries_payload(entries).len() + 1) as nat),
        ),
    decreases entries, entries.len() - k,
{
    let whole = spec_entries_payload(entries);
    let head = spec_entries_payload(entries.take(k));
    let p = start + head.len();
    assert(entries =~= entries.take(k) + entries.skip(k));
    lemma_entries_payload_append(entries.take(k), entries.skip(k));
    if k == entries.len() {
        assert(entries.take(k) =~= entries);
        assert(s[p as int] == whole.push(0u8)[whole.len() as int]);
    } else {
        let (name, v) = entries[k];
        let pv = spec_payload(v);
        let ws = spec_write_string(name);
        let entry = seq![spec_tag_id(v)] + ws + pv;
        assert(entries.take(k + 1).drop_last() =~= entries.take(k));
        assert(entries =~= entries.take(k + 1) + entries.skip(k + 1));
        lemma_entries_payload_append(entries.take(k + 1), entries.skip(k + 1));
        assert(spec_entries_payload(entries.take(k + 1)) == head + entry);
        assert(whole == head + entry + spec_entries_payload(entries.skip(k + 1)));
        let full = whole.push(0u8);
        assert(s[p as int] == full[head.len() as int]);
        assert(full[head.len() as int] == spec_tag_id(v));
        let h = head.len() as int;
        let lw = ws.len() as int;
        let lp = pv.len() as int;
        assert(s.subrange(p + 1, p + 1 + lw) =~= full.subrange(h + 1, h + 1 + lw));
        assert(full.subrange(h + 1, h + 1 + lw) =~= ws);
        lemma_entries_each(entries, k);
        lemma_read_string(s, p + 1, name);
        let q = p + 1 + ws.len();
        assert(s.subrange(q, q + lp) =~= full.subrange(h + 1 + lw, h + 1 + lw + lp));
        assert(full.subrange(h + 1 + lw, h + 1 + lw + lp) =~= pv);
        assert(decreases_to!(entries => entries[k]));
        assert(decreases_to!(entries[k] => entries[k].1));
        lemma_read_payload(s, q, v);
        lemma_payload_nonempty(v);
        assert forall|j: int| 0 <= j < entries.take(k).len() implies #[trigger] entries.take(
            k,
        )[j].0 != name by {
            assert(entries[j].0 != entries[k].0);
        }
        lemma_key_index_absent(entries.take(k), name);
        assert(spec_insert(entries.take(k), name, v) =~= entries.take(k + 1));
        lemma_read_entries(s, start, entries, k + 1);
    }
}

/// Reading a written value gives it back and stops at its end.
pub proof fn lemma_read_payload(s: Seq<u8>, pos: int, v: ValueView)
    requires
        0 <= pos,
        spec_check(v) is Ok,
        unique_names(v),
        pos + spec_payload(v).len() <= s.len(),
        s.subrange(pos, pos + spec_payload(v).len()) == spec_payload(v),
    ensures
        spec_read_value(s, pos as nat, spec_tag_id(v)) == Ok::<(ValueView, nat), NbtError>(
            (v, (pos + spec_payload(v).len()) as nat),
        ),
    decreases v, 0nat,
{
    lemma_pow256_values();
    let pv = spec_payload(v);
    match v {
        ValueView::Byte(x) => {
            lemma_be_bytes_len(x as u8 as nat, 1);
            lemma_be_value_bytes(s, pos, x as u8 as nat, 1);
            lemma_sign_casts(x, 0, 0, 0);
        },
        ValueView::Short(x) => {
            lemma_be_bytes_len(x as u16 as nat, 2);
            lemma_be_value_bytes(s, pos, x as u16 as nat, 2);
            lemma_sign_casts(0, x, 0, 0);
        },
        ValueView::Int(x) => {
            lemma_be_bytes_len(x as u32 as nat, 4);
            lemma_be_value_bytes(s, pos, x as u32 as nat, 4);
            lemma_sign_casts(0, 0, x, 0);
        },
        ValueView::Long(x) => {
            lemma_be_bytes_len(x as u64 as nat, 8);
            lemma_be_value_bytes(s, pos, x as u64 as nat, 8);
            lemma_sign_casts(0, 0, 0, x);
        },
        ValueView::Float(b) => {
            lemma_be_bytes_len(b as nat, 4);
            lemma_be_value_bytes(s, pos, b as nat, 4);
        },
        ValueView::Double(b) => {
            lemma_be_bytes_len(b as nat, 8);
            lemma_be_value_bytes(s, pos, b as nat, 8);
        },
        ValueView::ByteArray(b) => {
            lemma_be_bytes_len(b.len(), 4);
            assert(s.subrange(pos, pos + 4) =~= pv.subrange(0, 4));
            assert(pv.subrange(0, 4) =~= be_bytes(b.len(), 4));
            lemma_be_value_bytes(s, pos, b.len(), 4);
            assert(spec_array_count(s, pos as nat, 1) == Ok::<nat, NbtError>(b.len()));
            assert(s.subrange(pos + 4, pos + 4 + b.len()) =~= pv.subrange(
                4,
                pv.len() as int,
            ));
            assert(pv.subrange(4, pv.len() as int) =~= b);
        },
        ValueView::String(cs) => {
            lemma_read_string(s, pos, cs);
        },
        ValueView::List(items) => {
            let n = items.len();
            let tag = spec_list_tag(items);
            lemma_be_bytes_len(n, 4);
            assert(s[pos] == pv[0]);
            assert(s.subrange(pos + 1, pos + 5) =~= pv.subrange(1, 5));
            assert(pv.subrange(1, 5) =~= be_bytes(n, 4));
            lemma_be_value_bytes(s, pos + 1, n, 4);
            assert(be_i32(s, pos + 1) == n as i32);
            let start = pos + 5;
            assert(s.subrange(start, start + spec_items_payload(items).len()) =~= pv.subrange(
                5,
                pv.len() as int,
            ));
            assert(pv.subrange(5, pv.len() as int) =~= spec_items_payload(items));
            assert forall|j: int| 0 <= j < items.len() implies spec_tag_id(#[trigger] items[j])
                == tag by {
                assert(same_tags(items));
            }
            assert(items.take(0) =~= Seq::<ValueView>::empty());
            lemma_read_items(s, start, items, 0, tag);
        },
        ValueView::Compound(entries) => {
            assert(entries.take(0) =~= Seq::<(Seq<char>, ValueView)>::empty());
            lemma_read_entries(s, pos, entries, 0);
        },
        ValueView::IntArray(xs) => {
            let n = xs.len();
            lemma_be_bytes_len(n, 4);
            lemma_ints_payload_len(xs);
            assert(s.subrange(pos, pos + 4) =~= pv.subrange(0, 4));
            assert(pv.subrange(0, 4) =~= be_bytes(n, 4));
            lemma_be_value_bytes(s, pos, n, 4);
            assert(spec_array_count(s, pos as nat, 4) == Ok::<nat, NbtError>(n));
            let read = Seq::new(n, |k: int| be_i32(s, pos + 4 + 4 * k));
            let body = s.subrange(pos + 4, pos + 4 + 4 * n);
            assert(body =~= pv.subrange(4, pv.len() as int));
            assert(pv.subrange(4, pv.len() as int) =~= spec_ints_payload(xs));
            assert forall|k: int| 0 <= k < n implies #[trigger] read[k] == xs[k] by {
                lemma_ints_payload_at(xs, k);
                assert(s.subrange(pos + 4 + 4 * k, pos + 4 + 4 * k + 4) =~= body.subrange(
                    4 * k,
                    4 * k + 4,
                ));
                lemma_be_value_bytes(s, pos + 4 + 4 * k, xs[k] as u32 as nat, 4);
                lemma_sign_casts(0, 0, xs[k], 0);
            }
            assert(read =~= xs);
        },
        ValueView::LongArray(xs) => {
            let n = xs.len();
            lemma_be_bytes_len(n, 4);
            lemma_longs_payload_len(xs);
            assert(s.subrange(pos, pos + 4) =~= pv.subrange(0, 4));
            assert(pv.subrange(0, 4) =~= be_bytes(n, 4));
            lemma_be_value_bytes(s, pos, n, 4);
            assert(spec_array_count(s, pos as nat, 8) == Ok::<nat, NbtError>(n));
            let read = Seq::new(n, |k: int| (be_value(s, pos + 4 + 8 * k, 8) as u64) as i64);
            let body = s.subrange(pos + 4, pos + 4 + 8 * n);
            assert(body =~= pv.subrange(4, pv.len() as int));
            assert(pv.subrange(4, pv.len() as int) =~= spec_longs_payload(xs));
            assert forall|k: int| 0 <= k < n implies #[trigger] read[k] == xs[k] by {
                lemma_longs_payload_at(xs, k);
                assert(s.subrange(pos + 4 + 8 * k, pos + 4 + 8 * k + 8) =~= body.subrange(
                    8 * k,
                    8 * k + 8,
                ));
                lemma_be_value_bytes(s, pos + 4 + 8 * k, xs[k] as u64 as nat, 8);
                lemma_sign_casts(0, 0, 0, xs[k]);
            }
            assert(read =~= xs);
        },
    }
}

/// Reading a written document gives back its name (the empty name when the
/// root is nameless) and its value, and stops at the end of the bytes; this
/// holds of every value that can be written and that has no compound with
/// two entries of one name.
pub proof fn lemma_nbt_roundtrip(name: Seq<char>, v: ValueView, nameless: bool)
    requires
        spec_check_root(name, v, nameless) is Ok,
        unique_names(v),
    ensures
        spec_read_root(spec_write_root(name, v, nameless), 0, nameless) == Ok::<
            (Seq<char>, ValueView, nat),
            NbtError,
        >(
            (
                if nameless {
                    Seq::<char>::empty()
                } else {
                    name
                },
                v,
                spec_write_root(name, v, nameless).len(),
            ),
        ),
{
    let s = spec_write_root(name, v, nameless);
    let pv = spec_payload(v);
    let lp = pv.len() as int;
    if nameless {
        assert(s.subrange(1, 1 + lp) =~= pv);
        lemma_read_payload(s, 1, v);
    } else {
        let ws = spec_write_string(name);
        let lw = ws.len() as int;
        assert(s.subrange(1, 1 + lw) =~= ws);
        lemma_read_string(s, 1, name);
        assert(s.subrange(1 + lw, 1 + lw + lp) =~= pv);
        lemma_read_payload(s, 1 + lw, v);
    }
}

} // verus!
