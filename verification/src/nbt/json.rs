//! Turning JSON into NBT, choosing the NBT tag of each number.
use crate::nbt::error::NbtError;
use crate::nbt::options::NbtOptions;
use crate::nbt::value::{
    compound_insert, lemma_view_values_push, spec_insert, view_entries, view_values, Value,
    ValueView,
};
use vstd::prelude::*;

verus! {

/// A JSON number as the conversion reads it.
#[derive(Debug, Clone, Copy, PartialEq, Eq, Structural)]
pub enum JsonNumber {
    /// A number that is an integer in the range of `i64`.
    Int(i64),
    /// Any other number, with the facts about it that the conversion uses.
    Float {
        /// The bits of the number as a 64-bit float.
        bits: u64,
        /// The bits of the number rounded to a 32-bit float.
        f32_bits: u32,
        /// Whether the 32-bit rounding, widened back, differs from the
        /// number by less than `f64::EPSILON`.
        close_to_f32: bool,
    },
    /// A number that is neither (possible only with arbitrary precision).
    Unrepresentable,
}

/// A JSON value. The entries of an object keep their order.
#[derive(Debug)]
pub enum JsonValue {
    Null,
    Bool(bool),
    Number(JsonNumber),
    String(String),
    Array(Vec<JsonValue>),
    Object(Vec<(String, JsonValue)>),
}

/// The mathematical view of a `JsonValue`.
pub enum JsonView {
    Null,
    Bool(bool),
    Number(JsonNumber),
    String(Seq<char>),
    Array(Seq<JsonView>),
    Object(Seq<(Seq<char>, JsonView)>),
}

pub open spec fn view_json(j: &JsonValue) -> JsonView
    decreases j,
{
    match j {
        JsonValue::Null => JsonView::Null,
        JsonValue::Bool(b) => JsonView::Bool(*b),
        JsonValue::Number(n) => JsonView::Number(*n),
        JsonValue::String(s) => JsonView::String(s@),
        JsonValue::Array(items) => JsonView::Array(view_json_items(items@)),
        JsonValue::Object(entries) => JsonView::Object(view_json_entries(entries@)),
    }
}

pub open spec fn view_json_items(s: Seq<JsonValue>) -> Seq<JsonView>
    decreases s,
{
    if s.len() == 0 {
        Seq::empty()
    } else {
        view_json_items(s.drop_last()) + seq![view_json(&s.last())]
    }
}

pub open spec fn view_json_entries(s: Seq<(String, JsonValue)>) -> Seq<(Seq<char>, JsonView)>
    decreases s,
{
    if s.len() == 0 {
        Seq::empty()
    } else {
        view_json_entries(s.drop_last()) + seq![(s.last().0@, view_json(&s.last().1))]
    }
}

impl View for JsonValue {
    type V = JsonView;

    open spec fn view(&self) -> JsonView {
        view_json(self)
    }
}

/// The integer of `j`, when `j` is an integer number.
pub open spec fn json_int(j: JsonView) -> Option<i64> {
    match j {
        JsonView::Number(JsonNumber::Int(i)) => Some(i),
        _ => None,
    }
}

/// Every element is an integer number.
pub open spec fn all_integers(items: Seq<JsonView>) -> bool {
    forall|k: int| 0 <= k < items.len() ==> json_int(#[trigger] items[k]) is Some
}

/// Every element is an integer number in `lo..=hi`.
pub open spec fn all_integers_within(items: Seq<JsonView>, lo: int, hi: int) -> bool {
    forall|k: int|
        0 <= k < items.len() ==> (json_int(#[trigger] items[k]) matches Some(x) && lo <= x <= hi)
}

/// The NBT tag that a JSON number becomes. With widening, integers become
/// `Int` (`Long` beyond `i32`) and other numbers `Float`; without, integers
/// take the smallest of `Byte`, `Short`, `Int`, `Long` that holds them and
/// other numbers become `Float` when the 32-bit rounding is close, else `Double`.
pub open spec fn spec_convert_number(n: JsonNumber, widening: bool) -> Result<ValueView, NbtError> {
    match n {
        JsonNumber::Int(i) => if widening {
            if i32::MIN <= i <= i32::MAX {
                Ok(ValueView::Int(i as i32))
            } else {
                Ok(ValueView::Long(i))
            }
        } else if i8::MIN <= i <= i8::MAX {
            Ok(ValueView::Byte(i as i8))
        } else if i16::MIN <= i <= i16::MAX {
            Ok(ValueView::Short(i as i16))
        } else if i32::MIN <= i <= i32::MAX {
            Ok(ValueView::Int(i as i32))
        } else {
            Ok(ValueView::Long(i))
        },
        JsonNumber::Float { bits, f32_bits, close_to_f32 } => if widening || close_to_f32 {
            Ok(ValueView::Float(f32_bits))
        } else {
            Ok(ValueView::Double(bits))
        },
        JsonNumber::Unrepresentable => Err(NbtError::InvalidNumber),
    }
}

/// The NBT value of a JSON value: `null` is refused, booleans become `Byte`
/// 0 or 1, strings stay strings, arrays and objects are converted element by
/// element; the first error met, in order, is the result.
pub open spec fn spec_json_to_nbt(j: JsonView, widening: bool) -> Result<ValueView, NbtError>
    decreases j,
{
    match j {
        JsonView::Null => Err(NbtError::NullNotSupported),
        JsonView::Bool(b) => Ok(ValueView::Byte(if b { 1 } else { 0 })),
        JsonView::Number(n) => spec_convert_number(n, widening),
        JsonView::String(s) => Ok(ValueView::String(s)),
        JsonView::Array(items) => {
            if items.len() == 0 {
                Ok(ValueView::List(Seq::empty()))
            } else if all_integers_within(items, i8::MIN as int, i8::MAX as int) && !widening {
                Ok(
                    ValueView::ByteArray(
                        Seq::new(items.len(), |k: int| (json_int(items[k])->0 as i8) as u8),
                    ),
                )
            } else if all_integers_within(items, i32::MIN as int, i32::MAX as int) {
                Ok(ValueView::IntArray(Seq::new(items.len(), |k: int| json_int(items[k])->0 as i32)))
            } else if all_integers(items) {
                Ok(ValueView::LongArray(Seq::new(items.len(), |k: int| json_int(items[k])->0)))
            } else {
                match spec_json_list(items, widening) {
                    Ok(vs) => Ok(ValueView::List(vs)),
                    Err(e) => Err(e),
                }
            }
        },
        JsonView::Object(entries) => match spec_json_entries(entries, widening) {
            Ok(es) => Ok(ValueView::Compound(es)),
            Err(e) => Err(e),
        },
    }
}

/// The elements converted one by one, or the first error.
pub open spec fn spec_json_list(items: Seq<JsonView>, widening: bool) -> Result<
    Seq<ValueView>,
    NbtError,
>
    decreases items,
{
    if items.len() == 0 {
        Ok(Seq::empty())
    } else {
        match spec_json_list(items.drop_last(), widening) {
            Err(e) => Err(e),
            Ok(vs) => match spec_json_to_nbt(items.last(), widening) {
                Err(e) => Err(e),
                Ok(v) => Ok(vs.push(v)),
            },
        }
    }
}

/// The entries converted one by one and inserted in order into a compound,
/// or the first error.
pub open spec fn spec_json_entries(entries: Seq<(Seq<char>, JsonView)>, widening: bool) -> Result<
    Seq<(Seq<char>, ValueView)>,
    NbtError,
>
    decreases entries,
{
    if entries.len() == 0 {
        Ok(Seq::empty())
    } else {
        match spec_json_entries(entries.drop_last(), widening) {
            Err(e) => Err(e),
            Ok(es) => match spec_json_to_nbt(entries.last().1, widening) {
                Err(e) => Err(e),
                Ok(v) => Ok(spec_insert(es, entries.last().0, v)),
            },
        }
    }
}

proof fn lemma_json_items_index(s: Seq<JsonValue>, k: int)
    requires
        0 <= k < s.len(),
    ensures
        view_json_items(s).len() == s.len(),
        view_json_items(s)[k] == view_json(&s[k]),
    decreases s.len(),
{
    if k < s.len() - 1 {
        lemma_json_items_index(s.drop_last(), k);
    } else {
        lemma_json_items_len(s.drop_last());
    }
}

proof fn lemma_json_items_len(s: Seq<JsonValue>)
    ensures
        view_json_items(s).len() == s.len(),
    decreases s.len(),
{
    if s.len() > 0 {
        lemma_json_items_len(s.drop_last());
    }
}

pub proof fn lemma_json_entries_index(s: Seq<(String, JsonValue)>, k: int)
    requires
        0 <= k < s.len(),
    ensures
        view_json_entries(s).len() == s.len(),
        view_json_entries(s)[k] == (s[k].0@, view_json(&s[k].1)),
    decreases s.len(),
{
    if k < s.len() - 1 {
        lemma_json_entries_index(s.drop_last(), k);
    } else {
        lemma_json_entries_len(s.drop_last());
    }
}

pub proof fn lemma_json_entries_len(s: Seq<(String, JsonValue)>)
    ensures
        view_json_entries(s).len() == s.len(),
    decreases s.len(),
{
    if s.len() > 0 {
        lemma_json_entries_len(s.drop_last());
    }
}

fn convert_number(n: &JsonNumber, options: NbtOptions) -> (r: Result<Value, NbtError>)
    ensures
        match r {
            Ok(v) => spec_convert_number(*n, options.spec_numeric_widening()) == Ok::<
                ValueView,
                NbtError,
            >(v@),
            Err(e) => spec_convert_number(*n, options.spec_numeric_widening()) == Err::<
                ValueView,
                NbtError,
            >(e),
        },
{
    match n {
        JsonNumber::Int(i) => {
            let i = *i;
            if options.is_numeric_widening() {
                return Ok(
                    if i32::MIN as i64 <= i && i <= i32::MAX as i64 {
                        Value::Int(i as i32)
                    } else {
                        Value::Long(i)
                    },
                );
            }
            if i8::MIN as i64 <= i && i <= i8::MAX as i64 {
                Ok(Value::Byte(i as i8))
            } else if i16::MIN as i64 <= i && i <= i16::MAX as i64 {
                Ok(Value::Short(i as i16))
            } else if i32::MIN as i64 <= i && i <= i32::MAX as i64 {
                Ok(Value::Int(i as i32))
            } else {
                Ok(Value::Long(i))
            }
        },
        JsonNumber::Float { bits, f32_bits, close_to_f32 } => {
            if options.is_numeric_widening() || *close_to_f32 {
                Ok(Value::Float(*f32_bits))
            } else {
                Ok(Value::Double(*bits))
            }
        },
        JsonNumber::Unrepresentable => Err(NbtError::InvalidNumber),
    }
}

/// The integer of a JSON value that is an integer number.
fn integer_of(j: &JsonValue) -> (r: Option<i64>)
    ensures
        r == json_int(j@),
{
    match j {
        JsonValue::Number(JsonNumber::Int(i)) => Some(*i),
        _ => None,
    }
}

fn convert_array(arr: &Vec<JsonValue>, options: NbtOptions) -> (r: Result<Value, NbtError>)
    ensures
        match r {
            Ok(v) => spec_json_to_nbt(
                JsonView::Array(view_json_items(arr@)),
                options.spec_numeric_widening(),
            ) == Ok::<ValueView, NbtError>(v@),
            Err(e) => spec_json_to_nbt(
                JsonView::Array(view_json_items(arr@)),
                options.spec_numeric_widening(),
            ) == Err::<ValueView, NbtError>(e),
        },
    decreases arr@, 0nat,
{
    let ghost items = view_json_items(arr@);
    proof {
        lemma_json_items_len(arr@);
    }
    if arr.len() == 0 {
        return Ok(Value::List(Vec::new()));
    }
    let mut is_byte = true;
    let mut is_int = true;
    let mut is_long = true;
    let mut i: usize = 0;
    assert(items.take(items.len() as int) =~= items);
    while i < arr.len()
        invariant_except_break
            i <= arr@.len(),
            is_long == all_integers(items.take(i as int)),
            is_int == all_integers_within(items.take(i as int), i32::MIN as int, i32::MAX as int),
            is_byte == all_integers_within(items.take(i as int), i8::MIN as int, i8::MAX as int),
            is_long,
        invariant
            items == view_json_items(arr@),
            items.len() == arr@.len(),
            items.take(items.len() as int) == items,
        ensures
            is_long == all_integers(items),
            is_int == all_integers_within(items, i32::MIN as int, i32::MAX as int),
            is_byte == all_integers_within(items, i8::MIN as int, i8::MAX as int),
        decreases arr@.len() - i,
    {
        proof {
            lemma_json_items_index(arr@, i as int);
        }
        let ghost prefix = items.take(i as int);
        let ghost next = items.take(i + 1);
        assert(next =~= prefix.push(items[i as int]));
        match integer_of(&arr[i]) {
            Some(x) => {
                if is_byte && (x < i8::MIN as i64 || x > i8::MAX as i64) {
                    is_byte = false;
                }
                if is_int && (x < i32::MIN as i64 || x > i32::MAX as i64) {
                    is_int = false;
                }
                assert forall|k: int| 0 <= k < i + 1 implies json_int(#[trigger] next[k]) is Some by {
                    if k < i {
                        assert(next[k] == prefix[k]);
                    }
                }
                assert(is_int == all_integers_within(next, i32::MIN as int, i32::MAX as int)) by {
                    if is_int {
                        assert forall|k: int| 0 <= k < next.len() implies (json_int(
                            #[trigger] next[k],
                        ) matches Some(y) && i32::MIN <= y <= i32::MAX) by {
                            if k < i {
                                assert(next[k] == prefix[k]);
                            }
                        }
                    } else if all_integers_within(next, i32::MIN as int, i32::MAX as int) {
                        assert forall|k: int| 0 <= k < prefix.len() implies (json_int(
                            #[trigger] prefix[k],
                        ) matches Some(y) && i32::MIN <= y <= i32::MAX) by {
                            assert(next[k] == prefix[k]);
                        }
                        assert(json_int(next[i as int]) matches Some(y) && i32::MIN <= y
                            <= i32::MAX);
                    }
                }
                assert(is_byte == all_integers_within(next, i8::MIN as int, i8::MAX as int)) by {
                    if is_byte {
                        assert forall|k: int| 0 <= k < next.len() implies (json_int(
                            #[trigger] next[k],
                        ) matches Some(y) && i8::MIN <= y <= i8::MAX) by {
                            if k < i {
                                assert(next[k] == prefix[k]);
                            }
                        }
                    } else if all_integers_within(next, i8::MIN as int, i8::MAX as int) {
                        assert forall|k: int| 0 <= k < prefix.len() implies (json_int(
                            #[trigger] prefix[k],
                        ) matches Some(y) && i8::MIN <= y <= i8::MAX) by {
                            assert(next[k] == prefix[k]);
                        }
                        assert(json_int(next[i as int]) matches Some(y) && i8::MIN <= y
                            <= i8::MAX);
                    }
                }
            },
            None => {
                is_byte = false;
                is_int = false;
                is_long = false;
                assert(json_int(items[i as int]) is None);
            },
        }
        if !is_long {
            break ;
        }
        i = i + 1;
    }
    if is_byte && !options.is_numeric_widening() {
        let mut bytes: Vec<u8> = Vec::with_capacity(arr.len());
        let mut k: usize = 0;
        while k < arr.len()
            invariant
                k <= arr@.len(),
                items == view_json_items(arr@),
                items.len() == arr@.len(),
                all_integers_within(items, i8::MIN as int, i8::MAX as int),
                bytes@ == Seq::new(k as nat, |m: int| (json_int(items[m])->0 as i8) as u8),
            decreases arr@.len() - k,
        {
            proof {
                lemma_json_items_index(arr@, k as int);
            }
            if let Some(x) = integer_of(&arr[k]) {
                assert(json_int(items[k as int]) matches Some(y) && i8::MIN <= y <= i8::MAX);
                let byte_val = x as i8;
                bytes.push(byte_val as u8);
            }
            k = k + 1;
            assert(bytes@ =~= Seq::new(k as nat, |m: int| (json_int(items[m])->0 as i8) as u8));
        }
        return Ok(Value::ByteArray(bytes));
    } else if is_int {
        let mut ints: Vec<i32> = Vec::with_capacity(arr.len());
        let mut k: usize = 0;
        while k < arr.len()
            invariant
                k <= arr@.len(),
                items == view_json_items(arr@),
                items.len() == arr@.len(),
                all_integers_within(items, i32::MIN as int, i32::MAX as int),
                ints@ == Seq::new(k as nat, |m: int| json_int(items[m])->0 as i32),
            decreases arr@.len() - k,
        {
            proof {
                lemma_json_items_index(arr@, k as int);
            }
            if let Some(x) = integer_of(&arr[k]) {
                assert(json_int(items[k as int]) matches Some(y) && i32::MIN <= y <= i32::MAX);
                ints.push(x as i32);
            }
            k = k + 1;
            assert(ints@ =~= Seq::new(k as nat, |m: int| json_int(items[m])->0 as i32));
        }
        return Ok(Value::IntArray(ints));
    } else if is_long {
        let mut longs: Vec<i64> = Vec::with_capacity(arr.len());
        let mut k: usize = 0;
        while k < arr.len()
            invariant
                k <= arr@.len(),
                items == view_json_items(arr@),
                items.len() == arr@.len(),
                all_integers(items),
                longs@ == Seq::new(k as nat, |m: int| json_int(items[m])->0),
            decreases arr@.len() - k,
        {
            proof {
                lemma_json_items_index(arr@, k as int);
            }
            if let Some(x) = integer_of(&arr[k]) {
                longs.push(x);
            }
            k = k + 1;
            assert(longs@ =~= Seq::new(k as nat, |m: int| json_int(items[m])->0));
        }
        return Ok(Value::LongArray(longs));
    }
    let mut list: Vec<Value> = Vec::with_capacity(arr.len());
    let mut k: usize = 0;
    while k < arr.len()
        invariant
            k <= arr@.len(),
            items == view_json_items(arr@),
            items.len() == arr@.len(),
            spec_json_list(items.take(k as int), options.spec_numeric_widening()) == Ok::<
                Seq<ValueView>,
                NbtError,
            >(view_values(list@)),
        decreases arr@.len() - k,
    {
        proof {
            lemma_json_items_index(arr@, k as int);
            assert(items.take(k + 1).drop_last() =~= items.take(k as int));
            assert(decreases_to!(arr@ => arr@[k as int]));
        }
        let converted = convert_value(&arr[k], options);
        match converted {
            Ok(v) => {
                proof {
                    lemma_view_values_push(list@, v);
                }
                list.push(v);
            },
            Err(e) => {
                proof {
                    lemma_json_list_error_stays(items, k as int, options.spec_numeric_widening());
                }
                return Err(e);
            },
        }
        k = k + 1;
    }
    assert(items.take(k as int) =~= items);
    Ok(Value::List(list))
}

/// An error in an element is the error of every longer prefix of the list.
proof fn lemma_json_list_error_stays(items: Seq<JsonView>, k: int, widening: bool)
    requires
        0 <= k < items.len(),
        spec_json_list(items.take(k + 1), widening) is Err,
    ensures
        spec_json_list(items, widening) == spec_json_list(items.take(k + 1), widening),
    decreases items.len() - k,
{
    if k + 1 < items.len() {
        assert(items.take(k + 2).drop_last() =~= items.take(k + 1));
        lemma_json_list_error_stays(items, k + 1, widening);
    } else {
        assert(items.take(k + 1) =~= items);
    }
}

/// An error in an entry is the error of every longer prefix of the entries.
proof fn lemma_json_entries_error_stays(
    entries: Seq<(Seq<char>, JsonView)>,
    k: int,
    widening: bool,
)
    requires
        0 <= k < entries.len(),
        spec_json_entries(entries.take(k + 1), widening) is Err,
    ensures
        spec_json_entries(entries, widening) == spec_json_entries(entries.take(k + 1), widening),
    decreases entries.len() - k,
{
    if k + 1 < entries.len() {
        assert(entries.take(k + 2).drop_last() =~= entries.take(k + 1));
        lemma_json_entries_error_stays(entries, k + 1, widening);
    } else {
        assert(entries.take(k + 1) =~= entries);
    }
}

fn convert_object(obj: &Vec<(String, JsonValue)>, options: NbtOptions) -> (r: Result<
    Value,
    NbtError,
>)
    ensures
        match r {
            Ok(v) => spec_json_to_nbt(
                JsonView::Object(view_json_entries(obj@)),
                options.spec_numeric_widening(),
            ) == Ok::<ValueView, NbtError>(v@),
            Err(e) => spec_json_to_nbt(
                JsonView::Object(view_json_entries(obj@)),
                options.spec_numeric_widening(),
            ) == Err::<ValueView, NbtError>(e),
        },
    decreases obj@, 0nat,
{
    let ghost entries = view_json_entries(obj@);
    proof {
        lemma_json_entries_len(obj@);
    }
    let mut map: Vec<(String, Value)> = Vec::new();
    let mut k: usize = 0;
    while k < obj.len()
        invariant
            k <= obj@.len(),
            entries == view_json_entries(obj@),
            entries.len() == obj@.len(),
            spec_json_entries(entries.take(k as int), options.spec_numeric_widening()) == Ok::<
                Seq<(Seq<char>, ValueView)>,
                NbtError,
            >(view_entries(map@)),
        decreases obj@.len() - k,
    {
        proof {
            lemma_json_entries_index(obj@, k as int);
            assert(entries.take(k + 1).drop_last() =~= entries.take(k as int));
            assert(decreases_to!(obj@ => obj@[k as int].1));
        }
        let converted = convert_value(&obj[k].1, options);
        match converted {
            Ok(v) => {
                compound_insert(&mut map, obj[k].0.clone(), v);
            },
            Err(e) => {
                proof {
                    lemma_json_entries_error_stays(
                        entries,
                        k as int,
                        options.spec_numeric_widening(),
                    );
                }
                return Err(e);
            },
        }
        k = k + 1;
    }
    assert(entries.take(k as int) =~= entries);
    Ok(Value::Compound(map))
}

/// Converts a JSON value into NBT.
fn convert_value(json: &JsonValue, options: NbtOptions) -> (r: Result<Value, NbtError>)
    ensures
        match r {
            Ok(v) => spec_json_to_nbt(json@, options.spec_numeric_widening()) == Ok::<
                ValueView,
                NbtError,
            >(v@),
            Err(e) => spec_json_to_nbt(json@, options.spec_numeric_widening()) == Err::<
                ValueView,
                NbtError,
            >(e),
        },
    decreases json, 1nat,
{
    match json {
        JsonValue::Null => Err(NbtError::NullNotSupported),
        JsonValue::Bool(b) => Ok(
            Value::Byte(
                if *b {
                    1
                } else {
                    0
                },
            ),
        ),
        JsonValue::Number(n) => convert_number(n, options),
        JsonValue::String(s) => Ok(Value::String(s.clone())),
        JsonValue::Array(arr) => convert_array(arr, options),
        JsonValue::Object(obj) => convert_object(obj, options),
    }
}

/// Converts a JSON value into NBT with the default options.
///
/// Fails when the JSON holds a `null`, or a number that is neither an
/// integer nor a float.
pub fn json_to_nbt(json: JsonValue) -> (r: Result<Value, NbtError>)
    ensures
        match r {
            Ok(v) => spec_json_to_nbt(json@, false) == Ok::<ValueView, NbtError>(v@),
            Err(e) => spec_json_to_nbt(json@, false) == Err::<ValueView, NbtError>(e),
        },
{
    json_to_nbt_with_options(json, NbtOptions::new())
}

/// Converts a JSON value into NBT with the given options; numeric widening
/// picks Mojang's canonical tags for numbers.
///
/// Fails when the JSON holds a `null`, or a number that is neither an
/// integer nor a float.
pub fn json_to_nbt_with_options(json: JsonValue, options: NbtOptions) -> (r: Result<
    Value,
    NbtError,
>)
    ensures
        match r {
            Ok(v) => spec_json_to_nbt(json@, options.spec_numeric_widening()) == Ok::<
                ValueView,
                NbtError,
            >(v@),
            Err(e) => spec_json_to_nbt(json@, options.spec_numeric_widening()) == Err::<
                ValueView,
                NbtError,
            >(e),
        },
{
    convert_value(&json, options)
}

} // verus!
