//! What holds of every NBT value converted from JSON: compound names are
//! distinct at every depth, and numeric widening leaves no `Short`, no
//! `ByteArray` and only boolean `Byte`s. With the writer's round trip, such
//! a value read back from its bytes is the value written.
use crate::nbt::error::NbtError;
use crate::nbt::json::{
    all_integers, all_integers_within, json_int, spec_convert_number, spec_json_entries, spec_json_list, spec_json_to_nbt, JsonNumber,
    JsonView,
};
use crate::nbt::roundtrip::{
    lemma_nbt_roundtrip, names_distinct, unique_names, unique_names_entries, unique_names_items,
};
use crate::nbt::reader::spec_read_root;
use crate::nbt::value::{key_index, spec_insert, ValueView};
use crate::nbt::writer::{spec_check_root, spec_write_root};
use vstd::prelude::*;

verus! {

/// No `Short` and no `ByteArray` at any depth, and every `Byte` is 0 or 1.
pub open spec fn widened(v: ValueView) -> bool
    decreases v,
{
    match v {
        ValueView::Short(_) => false,
        ValueView::ByteArray(_) => false,
        ValueView::Byte(b) => b == 0 || b == 1,
        ValueView::List(items) => widened_items(items),
        ValueView::Compound(entries) => widened_entries(entries),
        _ => true,
    }
}

/// Every element is widened.
pub open spec fn widened_items(items: Seq<ValueView>) -> bool
    decreases items,
{
    if items.len() == 0 {
        true
    } else {
        widened_items(items.drop_last()) && widened(items.last())
    }
}

/// Every entry's value is widened.
pub open spec fn widened_entries(entries: Seq<(Seq<char>, ValueView)>) -> bool
    decreases entries,
{
    if entries.len() == 0 {
        true
    } else {
        widened_entries(entries.drop_last()) && widened(entries.last().1)
    }
}

proof fn lemma_unique_entries_all(entries: Seq<(Seq<char>, ValueView)>)
    ensures
        unique_names_entries(entries) <==> forall|i: int|
            0 <= i < entries.len() ==> unique_names(#[trigger] entries[i].1),
    decreases entries.len(),
{
    if entries.len() > 0 {
        lemma_unique_entries_all(entries.drop_last());
        if forall|i: int| 0 <= i < entries.len() ==> unique_names(#[trigger] entries[i].1) {
            assert forall|i: int| 0 <= i < entries.drop_last().len() implies unique_names(
                #[trigger] entries.drop_last()[i].1,
            ) by {
                assert(entries.drop_last()[i] == entries[i]);
            }
            assert(unique_names(entries[entries.len() - 1].1));
        }
        if unique_names_entries(entries) {
            assert forall|i: int| 0 <= i < entries.len() implies unique_names(#[trigger] entries[i].1) by {
                if i < entries.len() - 1 {
                    assert(entries.drop_last()[i] == entries[i]);
                }
            }
        }
    }
}

proof fn lemma_widened_entries_all(entries: Seq<(Seq<char>, ValueView)>)
    ensures
        widened_entries(entries) <==> forall|i: int|
            0 <= i < entries.len() ==> widened(#[trigger] entries[i].1),
    decreases entries.len(),
{
    if entries.len() > 0 {
        lemma_widened_entries_all(entries.drop_last());
        if forall|i: int| 0 <= i < entries.len() ==> widened(#[trigger] entries[i].1) {
            assert forall|i: int| 0 <= i < entries.drop_last().len() implies widened(
                #[trigger] entries.drop_last()[i].1,
            ) by {
                assert(entries.drop_last()[i] == entries[i]);
            }
            assert(widened(entries[entries.len() - 1].1));
        }
        if widened_entries(entries) {
            assert forall|i: int| 0 <= i < entries.len() implies widened(#[trigger] entries[i].1) by {
                if i < entries.len() - 1 {
                    assert(entries.drop_last()[i] == entries[i]);
                }
            }
        }
    }
}

proof fn lemma_key_index_facts<V>(entries: Seq<(Seq<char>, V)>, key: Seq<char>)
    ensures
        key_index(entries, key) matches Some(i) ==> 0 <= i < entries.len() && entries[i].0 == key,
        key_index(entries, key) is None ==> forall|j: int|
            0 <= j < entries.len() ==> #[trigger] entries[j].0 != key,
    decreases entries.len(),
{
    if entries.len() > 0 {
        lemma_key_index_facts(entries.drop_last(), key);
        assert forall|j: int| 0 <= j < entries.drop_last().len() implies #[trigger] entries[j]
            == entries.drop_last()[j] by {}
    }
}

/// Inserting into entries with distinct names keeps the names distinct,
/// and the values as they were but for the inserted one.
proof fn lemma_insert_entries(
    acc: Seq<(Seq<char>, ValueView)>,
    key: Seq<char>,
    v: ValueView,
)
    requires
        names_distinct(acc),
    ensures
        names_distinct(spec_insert(acc, key, v)),
        forall|i: int|
            0 <= i < spec_insert(acc, key, v).len() ==> (#[trigger] spec_insert(acc, key, v)[i].1
                == v || exists|j: int| 0 <= j < acc.len() && acc[j].1 == spec_insert(acc, key, v)[i].1),
{
    lemma_key_index_facts(acc, key);
    let r = spec_insert(acc, key, v);
    match key_index(acc, key) {
        Some(i) => {
            assert forall|a: int, b: int| 0 <= a < b < r.len() implies #[trigger] r[a].0
                != #[trigger] r[b].0 by {
                assert(r[a].0 == acc[a].0);
                assert(r[b].0 == acc[b].0);
            }
            assert forall|a: int| 0 <= a < r.len() implies (#[trigger] r[a].1 == v || exists|j: int|
                0 <= j < acc.len() && acc[j].1 == r[a].1) by {
                if a != i {
                    assert(acc[a].1 == r[a].1);
                }
            }
        },
        None => {
            assert forall|a: int, b: int| 0 <= a < b < r.len() implies #[trigger] r[a].0
                != #[trigger] r[b].0 by {
                if b == acc.len() {
                    assert(acc[a].0 != key);
                } else {
                    assert(r[a] == acc[a]);
                    assert(r[b] == acc[b]);
                }
            }
            assert forall|a: int| 0 <= a < r.len() implies (#[trigger] r[a].1 == v || exists|j: int|
                0 <= j < acc.len() && acc[j].1 == r[a].1) by {
                if a < acc.len() {
                    assert(acc[a].1 == r[a].1);
                }
            }
        },
    }
}

/// Every compound built from JSON has distinct names, at every depth.
pub proof fn lemma_json_unique_names(j: JsonView, widening: bool)
    ensures
        spec_json_to_nbt(j, widening) matches Ok(v) ==> unique_names(v),
    decreases j, 1nat,
{
    match j {
        JsonView::Array(items) => {
            lemma_json_list_unique(items, widening);
        },
        JsonView::Object(entries) => {
            lemma_json_entries_unique(entries, widening);
        },
        _ => {},
    }
}

proof fn lemma_json_list_unique(items: Seq<JsonView>, widening: bool)
    ensures
        spec_json_list(items, widening) matches Ok(vs) ==> unique_names_items(vs),
    decreases items, 0nat,
{
    if items.len() > 0 {
        lemma_json_list_unique(items.drop_last(), widening);
        lemma_json_unique_names(items.last(), widening);
        if let Ok(vs) = spec_json_list(items.drop_last(), widening) {
            if let Ok(v) = spec_json_to_nbt(items.last(), widening) {
                assert(vs.push(v).drop_last() =~= vs);
            }
        }
    }
}

proof fn lemma_json_entries_unique(entries: Seq<(Seq<char>, JsonView)>, widening: bool)
    ensures
        spec_json_entries(entries, widening) matches Ok(es) ==> names_distinct(es)
            && unique_names_entries(es),
    decreases entries, 0nat,
{
    if entries.len() > 0 {
        lemma_json_entries_unique(entries.drop_last(), widening);
        lemma_json_unique_names(entries.last().1, widening);
        if let Ok(es) = spec_json_entries(entries.drop_last(), widening) {
            if let Ok(v) = spec_json_to_nbt(entries.last().1, widening) {
                let key = entries.last().0;
                lemma_insert_entries(es, key, v);
                lemma_unique_entries_all(es);
                lemma_unique_entries_all(spec_insert(es, key, v));
            }
        }
    }
}

/// With numeric widening, JSON becomes NBT without `Short` and `ByteArray`,
/// and its only `Byte`s are booleans, 0 or 1.
pub proof fn lemma_json_widening(j: JsonView)
    ensures
        spec_json_to_nbt(j, true) matches Ok(v) ==> widened(v),
    decreases j, 1nat,
{
    match j {
        JsonView::Array(items) => {
            lemma_json_list_widened(items);
        },
        JsonView::Object(entries) => {
            lemma_json_entries_widened(entries);
        },
        _ => {},
    }
}

proof fn lemma_json_list_widened(items: Seq<JsonView>)
    ensures
        spec_json_list(items, true) matches Ok(vs) ==> widened_items(vs),
    decreases items, 0nat,
{
    if items.len() > 0 {
        lemma_json_list_widened(items.drop_last());
        lemma_json_widening(items.last());
        if let Ok(vs) = spec_json_list(items.drop_last(), true) {
            if let Ok(v) = spec_json_to_nbt(items.last(), true) {
                assert(vs.push(v).drop_last() =~= vs);
            }
        }
    }
}

proof fn lemma_json_entries_widened(entries: Seq<(Seq<char>, JsonView)>)
    ensures
        spec_json_entries(entries, true) matches Ok(es) ==> widened_entries(es),
    decreases entries, 0nat,
{
    if entries.len() > 0 {
        lemma_json_entries_widened(entries.drop_last());
        lemma_json_widening(entries.last().1);
        if let Ok(es) = spec_json_entries(entries.drop_last(), true) {
            if let Ok(v) = spec_json_to_nbt(entries.last().1, true) {
                let key = entries.last().0;
                lemma_json_entries_unique(entries.drop_last(), true);
                lemma_insert_entries(es, key, v);
                lemma_widened_entries_all(es);
                lemma_widened_entries_all(spec_insert(es, key, v));
            }
        }
    }
}

/// NBT converted from JSON, once written, reads back as itself.
pub proof fn lemma_json_nbt_roundtrip(j: JsonView, widening: bool, name: Seq<char>, nameless: bool)
    requires
        spec_json_to_nbt(j, widening) is Ok,
        spec_check_root(name, spec_json_to_nbt(j, widening)->Ok_0, nameless) is Ok,
    ensures
        spec_read_root(
            spec_write_root(name, spec_json_to_nbt(j, widening)->Ok_0, nameless),
            0,
            nameless,
        ) matches Ok((_, v, _)) && v == spec_json_to_nbt(j, widening)->Ok_0,
{
    lemma_json_unique_names(j, widening);
    lemma_nbt_roundtrip(name, spec_json_to_nbt(j, widening)->Ok_0, nameless);
}


/// The integer an integer tag holds, with the tag's width in bits.
pub open spec fn integer_tag(v: ValueView) -> Option<(int, nat)> {
    match v {
        ValueView::Byte(b) => Some((b as int, 8)),
        ValueView::Short(x) => Some((x as int, 16)),
        ValueView::Int(x) => Some((x as int, 32)),
        ValueView::Long(x) => Some((x as int, 64)),
        _ => None,
    }
}

/// Whether `i` is a signed integer of `width` bits (8, 16, 32 or 64).
pub open spec fn fits_signed(i: int, width: nat) -> bool {
    if width == 8 {
        -128 <= i <= 127
    } else if width == 16 {
        -32768 <= i <= 32767
    } else if width == 32 {
        -2147483648 <= i <= 2147483647
    } else {
        width == 64 && -9223372036854775808 <= i <= 9223372036854775807
    }
}

/// Without widening, a JSON integer becomes the integer tag of the smallest
/// width (8, 16, 32 or 64 bits) that holds it, negative integers included,
/// with the same value; so every integer from -128 to 127 becomes a `Byte`.
pub proof fn lemma_json_integer_smallest_tag(i: i64)
    ensures
        spec_json_to_nbt(JsonView::Number(JsonNumber::Int(i)), false) matches Ok(v)
            && integer_tag(v) matches Some((x, w)) && x == i && fits_signed(i as int, w) && (w
            > 8 ==> !fits_signed(i as int, (w / 2) as nat)),
        -128 <= i <= 127 ==> spec_json_to_nbt(JsonView::Number(JsonNumber::Int(i)), false)
            == Ok::<ValueView, NbtError>(ValueView::Byte(i as i8)),
{
}

/// With widening, a JSON integer becomes an `Int` when it holds in 32 bits
/// and a `Long` otherwise, with the same value.
pub proof fn lemma_json_integer_widened_tag(i: i64)
    ensures
        spec_json_to_nbt(JsonView::Number(JsonNumber::Int(i)), true) matches Ok(v)
            && integer_tag(v) matches Some((x, w)) && x == i && (w == 32 <==> fits_signed(
            i as int,
            32,
        )) && (w == 32 || w == 64),
{
}

/// A JSON number that is not an integer becomes a `Float` of its 32-bit
/// rounding when widening or when that rounding is close, and a `Double`
/// of its bits otherwise; a number that is neither is refused. `null` is
/// refused and booleans become the `Byte`s 1 and 0.
pub proof fn lemma_json_other_scalars(bits: u64, f32_bits: u32, close_to_f32: bool, widening: bool)
    ensures
        spec_json_to_nbt(
            JsonView::Number(JsonNumber::Float { bits, f32_bits, close_to_f32 }),
            widening,
        ) == (if widening || close_to_f32 {
            Ok::<ValueView, NbtError>(ValueView::Float(f32_bits))
        } else {
            Ok::<ValueView, NbtError>(ValueView::Double(bits))
        }),
        spec_json_to_nbt(JsonView::Number(JsonNumber::Unrepresentable), widening) == Err::<
            ValueView,
            NbtError,
        >(NbtError::InvalidNumber),
        spec_json_to_nbt(JsonView::Null, widening) == Err::<ValueView, NbtError>(
            NbtError::NullNotSupported,
        ),
        spec_json_to_nbt(JsonView::Bool(true), widening) == Ok::<ValueView, NbtError>(
            ValueView::Byte(1),
        ),
        spec_json_to_nbt(JsonView::Bool(false), widening) == Ok::<ValueView, NbtError>(
            ValueView::Byte(0),
        ),
{
}

/// Every element of `items` is an integer that holds in `width` bits.
pub open spec fn all_fit(items: Seq<JsonView>, width: nat) -> bool {
    forall|k: int|
        0 <= k < items.len() ==> (json_int(#[trigger] items[k]) matches Some(x) && fits_signed(
            x as int,
            width,
        ))
}

/// A non-empty JSON array of integers becomes an array tag with the same
/// integers, of the narrowest kind that holds them all: a `ByteArray`
/// (without widening only) when they all hold in 8 bits, else an
/// `IntArray` when they all hold in 32 bits, else a `LongArray`.
pub proof fn lemma_json_integer_arrays(items: Seq<JsonView>, widening: bool)
    requires
        items.len() > 0,
        all_integers(items),
    ensures
        match spec_json_to_nbt(JsonView::Array(items), widening) {
            Ok(ValueView::ByteArray(bs)) => !widening && all_fit(items, 8) && bs.len() == items.len()
                && forall|k: int|
                0 <= k < items.len() ==> ((#[trigger] bs[k]) as i8) as int == json_int(
                    items[k],
                )->0,
            Ok(ValueView::IntArray(xs)) => (widening || !all_fit(items, 8)) && all_fit(items, 32)
                && xs.len() == items.len() && forall|k: int|
                0 <= k < items.len() ==> (#[trigger] xs[k]) as int == json_int(items[k])->0,
            Ok(ValueView::LongArray(xs)) => !all_fit(items, 32) && xs.len() == items.len()
                && forall|k: int|
                0 <= k < items.len() ==> (#[trigger] xs[k]) as int == json_int(items[k])->0,
            _ => false,
        },
{
    assert forall|k: int| 0 <= k < items.len() implies (json_int(#[trigger] items[k]) matches Some(
        x,
    ) && (fits_signed(x as int, 8) <==> i8::MIN <= x <= i8::MAX) && (fits_signed(x as int, 32)
        <==> i32::MIN <= x <= i32::MAX)) by {}
    if !widening && all_integers_within(items, i8::MIN as int, i8::MAX as int) {
        assert forall|k: int| 0 <= k < items.len() implies (((json_int(
            #[trigger] items[k],
        )->0 as i8) as u8) as i8) as int == json_int(items[k])->0 by {
            let x: i8 = json_int(items[k])->0 as i8;
            assert((x as u8) as i8 == x) by (bit_vector);
        }
    }
}

} // verus!
