//! NBT values, their mathematical view, and compound insertion.
use vstd::prelude::*;

verus! {

/// An NBT value. Floating-point payloads are kept as their IEEE 754 bits.
#[derive(Debug, PartialEq)]
pub enum Value {
    Byte(i8),
    Short(i16),
    Int(i32),
    Long(i64),
    /// The bits of a 32-bit float.
    Float(u32),
    /// The bits of a 64-bit float.
    Double(u64),
    ByteArray(Vec<u8>),
    String(String),
    List(Vec<Value>),
    /// Named entries in insertion order; no name occurs twice.
    Compound(Vec<(String, Value)>),
    IntArray(Vec<i32>),
    LongArray(Vec<i64>),
}

/// The mathematical view of a `Value`.
pub enum ValueView {
    Byte(i8),
    Short(i16),
    Int(i32),
    Long(i64),
    Float(u32),
    Double(u64),
    ByteArray(Seq<u8>),
    String(Seq<char>),
    List(Seq<ValueView>),
    Compound(Seq<(Seq<char>, ValueView)>),
    IntArray(Seq<i32>),
    LongArray(Seq<i64>),
}

pub open spec fn view_value(v: &Value) -> ValueView
    decreases v,
{
    match v {
        Value::Byte(x) => ValueView::Byte(*x),
        Value::Short(x) => ValueView::Short(*x),
        Value::Int(x) => ValueView::Int(*x),
        Value::Long(x) => ValueView::Long(*x),
        Value::Float(x) => ValueView::Float(*x),
        Value::Double(x) => ValueView::Double(*x),
        Value::ByteArray(x) => ValueView::ByteArray(x@),
        Value::String(x) => ValueView::String(x@),
        Value::List(items) => ValueView::List(view_values(items@)),
        Value::Compound(entries) => ValueView::Compound(view_entries(entries@)),
        Value::IntArray(x) => ValueView::IntArray(x@),
        Value::LongArray(x) => ValueView::LongArray(x@),
    }
}

/// The views of `s`, in order.
pub open spec fn view_values(s: Seq<Value>) -> Seq<ValueView>
    decreases s,
{
    if s.len() == 0 {
        Seq::empty()
    } else {
        view_values(s.drop_last()) + seq![view_value(&s.last())]
    }
}

/// The views of the named entries `s`, in order.
pub open spec fn view_entries(s: Seq<(String, Value)>) -> Seq<(Seq<char>, ValueView)>
    decreases s,
{
    if s.len() == 0 {
        Seq::empty()
    } else {
        view_entries(s.drop_last()) + seq![(s.last().0@, view_value(&s.last().1))]
    }
}

impl View for Value {
    type V = ValueView;

    open spec fn view(&self) -> ValueView {
        view_value(self)
    }
}

pub proof fn lemma_view_values_push(s: Seq<Value>, v: Value)
    ensures
        view_values(s.push(v)) == view_values(s).push(view_value(&v)),
{
    assert(s.push(v).drop_last() =~= s);
}

pub proof fn lemma_view_values_index(s: Seq<Value>, i: int)
    requires
        0 <= i < s.len(),
    ensures
        view_values(s).len() == s.len(),
        view_values(s)[i] == view_value(&s[i]),
    decreases s.len(),
{
    if i < s.len() - 1 {
        lemma_view_values_index(s.drop_last(), i);
    } else {
        lemma_view_values_len(s.drop_last());
    }
}

pub proof fn lemma_view_values_len(s: Seq<Value>)
    ensures
        view_values(s).len() == s.len(),
    decreases s.len(),
{
    if s.len() > 0 {
        lemma_view_values_len(s.drop_last());
    }
}

pub proof fn lemma_view_entries_push(s: Seq<(String, Value)>, e: (String, Value))
    ensures
        view_entries(s.push(e)) == view_entries(s).push((e.0@, view_value(&e.1))),
{
    assert(s.push(e).drop_last() =~= s);
}

pub proof fn lemma_view_entries_index(s: Seq<(String, Value)>, i: int)
    requires
        0 <= i < s.len(),
    ensures
        view_entries(s).len() == s.len(),
        view_entries(s)[i] == (s[i].0@, view_value(&s[i].1)),
    decreases s.len(),
{
    if i < s.len() - 1 {
        lemma_view_entries_index(s.drop_last(), i);
    } else {
        lemma_view_entries_len(s.drop_last());
    }
}

pub proof fn lemma_view_entries_len(s: Seq<(String, Value)>)
    ensures
        view_entries(s).len() == s.len(),
    decreases s.len(),
{
    if s.len() > 0 {
        lemma_view_entries_len(s.drop_last());
    }
}

/// The position of the entry named `key` in `entries`, if there is one.
pub open spec fn key_index<V>(entries: Seq<(Seq<char>, V)>, key: Seq<char>) -> Option<int>
    decreases entries.len(),
{
    if entries.len() == 0 {
        None
    } else if entries.last().0 == key {
        match key_index(entries.drop_last(), key) {
            Some(i) => Some(i),
            None => Some(entries.len() - 1),
        }
    } else {
        key_index(entries.drop_last(), key)
    }
}

/// Inserting into an ordered map: an entry of the same name keeps its place
/// and takes the new value; otherwise the entry is appended.
pub open spec fn spec_insert<V>(entries: Seq<(Seq<char>, V)>, key: Seq<char>, value: V) -> Seq<
    (Seq<char>, V),
> {
    match key_index(entries, key) {
        Some(i) => entries.update(i, (key, value)),
        None => entries.push((key, value)),
    }
}

proof fn lemma_key_index_found<V>(entries: Seq<(Seq<char>, V)>, key: Seq<char>, i: int)
    requires
        0 <= i < entries.len(),
        entries[i].0 == key,
        forall|j: int| 0 <= j < i ==> entries[j].0 != key,
    ensures
        key_index(entries, key) == Some(i),
    decreases entries.len(),
{
    if i < entries.len() - 1 {
        lemma_key_index_found(entries.drop_last(), key, i);
    } else {
        lemma_key_index_absent(entries.drop_last(), key);
    }
}

pub proof fn lemma_key_index_absent<V>(entries: Seq<(Seq<char>, V)>, key: Seq<char>)
    requires
        forall|j: int| 0 <= j < entries.len() ==> entries[j].0 != key,
    ensures
        key_index(entries, key) == None::<int>,
    decreases entries.len(),
{
    if entries.len() > 0 {
        lemma_key_index_absent(entries.drop_last(), key);
    }
}

/// Inserts `(key, value)` into the ordered entries, as an ordered map does.
pub fn compound_insert(entries: &mut Vec<(String, Value)>, key: String, value: Value)
    ensures
        view_entries(final(entries)@) == spec_insert(view_entries(old(entries)@), key@, value@),
{
    let ghost old_view = view_entries(entries@);
    let ghost key_view = key@;
    let ghost value_view = value@;
    proof {
        lemma_view_entries_len(entries@);
    }
    let mut i: usize = 0;
    while i < entries.len()
        invariant
            i <= entries@.len(),
            entries@ == old(entries)@,
            old_view == view_entries(entries@),
            old_view.len() == entries@.len(),
            forall|j: int| 0 <= j < i ==> old_view[j].0 != key@,
            key_view == key@,
            value_view == value@,
        decreases entries@.len() - i,
    {
        proof {
            lemma_view_entries_index(entries@, i as int);
        }
        if entries[i].0 == key {
            proof {
                lemma_key_index_found(old_view, key@, i as int);
            }
            let ghost before = entries@;
            entries.set(i, (key, value));
            proof {
                assert forall|j: int| 0 <= j < entries@.len() implies view_entries(entries@)[j]
                    == old_view.update(i as int, (key_view, value_view))[j] by {
                    lemma_view_entries_index(entries@, j);
                    lemma_view_entries_index(before, j);
                    if j == i {
                        assert(entries@[j].0@ == key_view);
                        assert(view_value(&entries@[j].1) == value_view);
                    } else {
                        assert(entries@[j] == before[j]);
                    }
                }
                lemma_view_entries_len(entries@);
                assert(view_entries(entries@) =~= old_view.update(i as int, (key_view, value_view)));
            }
            return ;
        }
        i = i + 1;
    }
    proof {
        lemma_key_index_absent(old_view, key@);
        lemma_view_entries_push(entries@, (key, value));
    }
    entries.push((key, value));
}

/// A copy of `v`.
pub fn clone_value(v: &Value) -> (r: Value)
    ensures
        r@ == v@,
    decreases v, 1nat,
{
    match v {
        Value::Byte(x) => Value::Byte(*x),
        Value::Short(x) => Value::Short(*x),
        Value::Int(x) => Value::Int(*x),
        Value::Long(x) => Value::Long(*x),
        Value::Float(x) => Value::Float(*x),
        Value::Double(x) => Value::Double(*x),
        Value::ByteArray(x) => Value::ByteArray(x.clone()),
        Value::String(x) => Value::String(x.clone()),
        Value::List(items) => Value::List(clone_values(items)),
        Value::Compound(entries) => Value::Compound(clone_entries(entries)),
        Value::IntArray(x) => Value::IntArray(x.clone()),
        Value::LongArray(x) => Value::LongArray(x.clone()),
    }
}

/// Copies of the values, in order.
pub fn clone_values(items: &Vec<Value>) -> (r: Vec<Value>)
    ensures
        view_values(r@) == view_values(items@),
    decreases items@, 0nat,
{
    let mut out: Vec<Value> = Vec::new();
    let mut k: usize = 0;
    while k < items.len()
        invariant
            k <= items@.len(),
            view_values(out@) == view_values(items@.take(k as int)),
        decreases items@.len() - k,
    {
        assert(decreases_to!(items@ => items@[k as int]));
        let v = clone_value(&items[k]);
        proof {
            lemma_view_values_push(out@, v);
            lemma_view_values_push(items@.take(k as int), items@[k as int]);
            assert(items@.take(k + 1) =~= items@.take(k as int).push(items@[k as int]));
        }
        out.push(v);
        k = k + 1;
    }
    assert(items@.take(k as int) =~= items@);
    out
}

/// Copies of the named entries, in order.
pub fn clone_entries(entries: &Vec<(String, Value)>) -> (r: Vec<(String, Value)>)
    ensures
        view_entries(r@) == view_entries(entries@),
    decreases entries@, 0nat,
{
    let mut out: Vec<(String, Value)> = Vec::new();
    let mut k: usize = 0;
    while k < entries.len()
        invariant
            k <= entries@.len(),
            view_entries(out@) == view_entries(entries@.take(k as int)),
        decreases entries@.len() - k,
    {
        assert(decreases_to!(entries@ => entries@[k as int].1));
        let v = clone_value(&entries[k].1);
        let name = entries[k].0.clone();
        proof {
            lemma_view_entries_push(out@, (name, v));
            lemma_view_entries_push(entries@.take(k as int), entries@[k as int]);
            assert(entries@.take(k + 1) =~= entries@.take(k as int).push(entries@[k as int]));
        }
        out.push((name, v));
        k = k + 1;
    }
    assert(entries@.take(k as int) =~= entries@);
    out
}

} // verus!
