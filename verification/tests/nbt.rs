use flate2::read::GzDecoder;
use flate2::write::GzEncoder;
use flate2::Compression;
use std::io::{Read, Write};
use pico_limbo::nbt::compression::{detect_compression, CompressionType};
use pico_limbo::nbt::error::NbtError;
use pico_limbo::nbt::json::{json_to_nbt, json_to_nbt_with_options, JsonNumber, JsonValue};
use pico_limbo::nbt::options::NbtOptions;
use pico_limbo::nbt::reader::NbtReader;
use pico_limbo::nbt::value::Value;

/// A JSON number as `serde_json` hands out one written with a fraction.
fn float(x: f64) -> JsonValue {
    let narrowed = x as f32;
    JsonValue::Number(JsonNumber::Float {
        bits: x.to_bits(),
        f32_bits: narrowed.to_bits(),
        close_to_f32: (f64::from(narrowed) - x).abs() < f64::EPSILON,
    })
}

fn integer(i: i64) -> JsonValue {
    JsonValue::Number(JsonNumber::Int(i))
}

fn string(s: &str) -> JsonValue {
    JsonValue::String(s.to_string())
}

fn object(entries: Vec<(&str, JsonValue)>) -> JsonValue {
    JsonValue::Object(entries.into_iter().map(|(k, v)| (k.to_string(), v)).collect())
}

fn get<'a>(entries: &'a [(String, Value)], key: &str) -> Option<&'a Value> {
    entries.iter().find(|(k, _)| k == key).map(|(_, v)| v)
}

fn widening() -> NbtOptions {
    NbtOptions::new().numeric_widening(true)
}

#[test]
fn numeric_widening_default_false() {
    assert!(!NbtOptions::new().is_numeric_widening());
}

#[test]
fn numeric_widening_can_be_enabled() {
    assert!(NbtOptions::new().numeric_widening(true).is_numeric_widening());
}

#[test]
fn numeric_widening_can_be_disabled() {
    let opts = NbtOptions::new().numeric_widening(true).numeric_widening(false);
    assert!(!opts.is_numeric_widening());
}

#[test]
fn numeric_widening_does_not_collide_with_other_flags() {
    let opts = NbtOptions::new()
        .nameless_root(true)
        .dynamic_lists(true)
        .numeric_widening(true);
    assert!(opts.is_nameless_root());
    assert!(opts.is_dynamic_lists());
    assert!(opts.is_numeric_widening());

    let opts = opts.numeric_widening(false);
    assert!(opts.is_nameless_root());
    assert!(opts.is_dynamic_lists());
    assert!(!opts.is_numeric_widening());
}

#[test]
fn default_options_have_no_flag() {
    let opts = NbtOptions::default();
    assert!(!opts.is_nameless_root());
    assert!(!opts.is_dynamic_lists());
    assert!(!opts.is_numeric_widening());
}

#[test]
fn bool_true() {
    assert_eq!(json_to_nbt(JsonValue::Bool(true)).unwrap(), Value::Byte(1));
}

#[test]
fn bool_false() {
    assert_eq!(json_to_nbt(JsonValue::Bool(false)).unwrap(), Value::Byte(0));
}

#[test]
fn zero_byte() {
    assert_eq!(json_to_nbt(integer(0)).unwrap(), Value::Byte(0));
}

#[test]
fn short_value() {
    assert_eq!(json_to_nbt(integer(128)).unwrap(), Value::Short(128));
}

#[test]
fn int_value() {
    assert_eq!(json_to_nbt(integer(12_345_678)).unwrap(), Value::Int(12_345_678));
}

#[test]
fn long_value() {
    assert_eq!(json_to_nbt(integer(2_147_483_649)).unwrap(), Value::Long(2_147_483_649));
}

#[test]
fn float_value() {
    assert_eq!(
        json_to_nbt(float(f64::from(std::f32::consts::PI))).unwrap(),
        Value::Float(std::f32::consts::PI.to_bits())
    );
}

#[test]
fn double_value() {
    assert_eq!(
        json_to_nbt(float(std::f64::consts::PI)).unwrap(),
        Value::Double(std::f64::consts::PI.to_bits())
    );
}

#[test]
fn string_value() {
    assert_eq!(json_to_nbt(string("hello")).unwrap(), Value::String("hello".into()));
}

#[test]
fn test_json_object() {
    let json_obj = object(vec![("foo", string("bar")), ("baz", integer(100))]);
    let nbt_compound = json_to_nbt(json_obj).unwrap();
    if let Value::Compound(map) = nbt_compound {
        assert_eq!(get(&map, "foo"), Some(&Value::String("bar".into())));
        assert_eq!(get(&map, "baz"), Some(&Value::Byte(100)));
    } else {
        panic!("Expected Compound");
    }
}

#[test]
fn test_json_nested() {
    let json_data = object(vec![(
        "list",
        JsonValue::Array(vec![object(vec![("id", integer(1))]), object(vec![("id", integer(2))])]),
    )]);
    let nbt = json_to_nbt(json_data).unwrap();
    let Value::Compound(root) = nbt else {
        panic!("Expected Root Compound")
    };
    let Value::List(list) = get(&root, "list").unwrap() else {
        panic!("Expected List")
    };
    assert_eq!(list.len(), 2);
    let Value::Compound(c1) = &list[0] else {
        panic!("Expected Compound 1")
    };
    assert_eq!(get(c1, "id"), Some(&Value::Byte(1)));
}

#[test]
fn test_byte_array_conversion() {
    let nbt = json_to_nbt(JsonValue::Array(vec![integer(1), integer(2), integer(3)])).unwrap();
    if let Value::ByteArray(arr) = nbt {
        assert_eq!(arr.len(), 3);
        assert_eq!(arr[0], 1);
    } else {
        panic!("Expected ByteArray, got {nbt:?}");
    }
}

#[test]
fn test_int_array_conversion() {
    let nbt = json_to_nbt(JsonValue::Array(vec![integer(1000), integer(2000), integer(3000)])).unwrap();
    if let Value::IntArray(arr) = nbt {
        assert_eq!(arr.len(), 3);
        assert_eq!(arr[0], 1000);
    } else {
        panic!("Expected IntArray, got {nbt:?}");
    }
}

#[test]
fn test_long_array_conversion() {
    let nbt =
        json_to_nbt(JsonValue::Array(vec![integer(10_000_000_000), integer(20_000_000_000)])).unwrap();
    if let Value::LongArray(arr) = nbt {
        assert_eq!(arr.len(), 2);
        assert_eq!(arr[0], 10_000_000_000);
    } else {
        panic!("Expected LongArray, got {nbt:?}");
    }
}

#[test]
fn test_mixed_content_is_list() {
    let nbt = json_to_nbt(JsonValue::Array(vec![integer(1), string("test")])).unwrap();
    if let Value::List(arr) = nbt {
        assert_eq!(arr.len(), 2);
        assert_eq!(arr[0], Value::Byte(1));
        assert_eq!(arr[1], Value::String("test".into()));
    } else {
        panic!("Expected List for mixed content");
    }
}

#[test]
fn test_string_list_is_list() {
    let nbt = json_to_nbt(JsonValue::Array(vec![string("foo"), string("bar")])).unwrap();
    if let Value::List(arr) = nbt {
        assert_eq!(arr.len(), 2);
        assert_eq!(arr[0], Value::String("foo".into()));
        assert_eq!(arr[1], Value::String("bar".into()));
    } else {
        panic!("Expected List for string list");
    }
}

#[test]
fn empty_array_is_empty_list() {
    assert_eq!(json_to_nbt(JsonValue::Array(vec![])).unwrap(), Value::List(vec![]));
}

#[test]
fn test_json_null_error() {
    let res = json_to_nbt(JsonValue::Null);
    assert!(res.is_err());
    assert_eq!(res.unwrap_err(), NbtError::NullNotSupported);
}

#[test]
fn null_inside_array_fails() {
    let res = json_to_nbt(JsonValue::Array(vec![string("a"), JsonValue::Null]));
    assert_eq!(res.unwrap_err(), NbtError::NullNotSupported);
}

#[test]
fn unrepresentable_number_fails() {
    let res = json_to_nbt(JsonValue::Number(JsonNumber::Unrepresentable));
    assert_eq!(res.unwrap_err(), NbtError::InvalidNumber);
}

#[test]
fn later_object_key_replaces_earlier_in_place() {
    let json_obj = object(vec![("a", integer(1)), ("b", integer(2)), ("a", integer(3))]);
    let Value::Compound(map) = json_to_nbt(json_obj).unwrap() else {
        panic!("Expected Compound");
    };
    assert_eq!(
        map,
        vec![("a".to_string(), Value::Byte(3)), ("b".to_string(), Value::Byte(2))]
    );
}

#[test]
fn widening_zero_becomes_int() {
    assert_eq!(json_to_nbt_with_options(integer(0), widening()).unwrap(), Value::Int(0));
}

#[test]
fn widening_short_range_becomes_int() {
    assert_eq!(json_to_nbt_with_options(integer(1_000), widening()).unwrap(), Value::Int(1_000));
}

#[test]
fn widening_int_max_becomes_int() {
    assert_eq!(
        json_to_nbt_with_options(integer(i64::from(i32::MAX)), widening()).unwrap(),
        Value::Int(i32::MAX)
    );
}

#[test]
fn widening_overflow_becomes_long() {
    let big: i64 = i64::from(i32::MAX) + 1;
    assert_eq!(json_to_nbt_with_options(integer(big), widening()).unwrap(), Value::Long(big));
}

#[test]
fn widening_negative_short_range_becomes_int() {
    assert_eq!(json_to_nbt_with_options(integer(-1_000), widening()).unwrap(), Value::Int(-1_000));
}

#[test]
fn widening_bool_stays_byte() {
    assert_eq!(json_to_nbt_with_options(JsonValue::Bool(true), widening()).unwrap(), Value::Byte(1));
    assert_eq!(json_to_nbt_with_options(JsonValue::Bool(false), widening()).unwrap(), Value::Byte(0));
}

#[test]
fn widening_float_unchanged_when_exact() {
    assert_eq!(
        json_to_nbt_with_options(float(1.0), widening()).unwrap(),
        Value::Float(1.0_f32.to_bits())
    );
}

#[test]
fn widening_imprecise_double_collapses_to_float() {
    let result = json_to_nbt_with_options(float(0.362_f64), widening()).unwrap();
    let Value::Float(bits) = result else {
        panic!("expected Float under widening, got {result:?}");
    };
    let f = f32::from_bits(bits);
    assert!((f - 0.362_f32).abs() < f32::EPSILON, "expected ~0.362 as Float, got {f}");
}

#[test]
fn default_options_keep_downcasting() {
    let opts = NbtOptions::new();
    assert_eq!(json_to_nbt_with_options(integer(0), opts).unwrap(), Value::Byte(0));
    assert_eq!(json_to_nbt_with_options(integer(128), opts).unwrap(), Value::Short(128));
}

#[test]
fn default_options_keep_double_when_imprecise() {
    let result = json_to_nbt_with_options(float(0.362_f64), NbtOptions::new()).unwrap();
    assert!(
        matches!(result, Value::Double(d) if (f64::from_bits(d) - 0.362_f64).abs() < f64::EPSILON),
        "expected Double under default options, got {result:?}",
    );
}

#[test]
fn nested_compound_widens_recursively() {
    let json_obj = object(vec![("ticks", integer(18000)), ("show_in_commands", JsonValue::Bool(true))]);
    let nbt = json_to_nbt_with_options(json_obj, widening()).unwrap();
    let Value::Compound(map) = nbt else {
        panic!("Expected Compound");
    };
    assert_eq!(get(&map, "ticks"), Some(&Value::Int(18000)));
    assert_eq!(get(&map, "show_in_commands"), Some(&Value::Byte(1)));
}

#[test]
fn widening_byte_range_array_becomes_int_array() {
    let nbt =
        json_to_nbt_with_options(JsonValue::Array(vec![integer(1), integer(2), integer(3)]), widening()).unwrap();
    assert_eq!(nbt, Value::IntArray(vec![1, 2, 3]));
}

#[test]
fn widening_short_range_array_becomes_int_array() {
    let nbt = json_to_nbt_with_options(
        JsonValue::Array(vec![integer(1000), integer(2000), integer(3000)]),
        widening(),
    )
    .unwrap();
    assert_eq!(nbt, Value::IntArray(vec![1000, 2000, 3000]));
}

#[test]
fn widening_overflow_array_becomes_long_array() {
    let big: i64 = i64::from(i32::MAX) + 1;
    let nbt = json_to_nbt_with_options(JsonValue::Array(vec![integer(big), integer(big)]), widening())
        .unwrap();
    assert_eq!(nbt, Value::LongArray(vec![big, big]));
}

#[test]
fn default_byte_range_array_stays_byte_array() {
    let nbt = json_to_nbt_with_options(JsonValue::Array(vec![integer(1), integer(2), integer(3)]), NbtOptions::new())
        .unwrap();
    let Value::ByteArray(bytes) = nbt else {
        panic!("expected ByteArray with default options, got {nbt:?}");
    };
    assert_eq!(bytes, vec![1, 2, 3]);
}

#[test]
fn negative_byte_array_keeps_twos_complement() {
    let nbt = json_to_nbt(JsonValue::Array(vec![integer(-1), integer(-128), integer(127)])).unwrap();
    assert_eq!(nbt, Value::ByteArray(vec![0xFF, 0x80, 0x7F]));
}

/// The fragments of the `minecraft:timeline` entry `day` that the registry
/// checks read, as the data report writes them.
fn timeline_day() -> JsonValue {
    object(vec![
        ("period_ticks", integer(24000)),
        (
            "time_markers",
            object(vec![
                ("minecraft:wake_up_from_sleep", integer(0)),
                (
                    "minecraft:day",
                    object(vec![("ticks", integer(1000)), ("show_in_commands", JsonValue::Bool(true))]),
                ),
            ]),
        ),
        (
            "tracks",
            object(vec![(
                "minecraft:visual/moon_angle",
                object(vec![(
                    "ease",
                    object(vec![(
                        "cubic_bezier",
                        JsonValue::Array(vec![float(0.362), float(0.0), float(0.638), float(1.0)]),
                    )]),
                )]),
            )]),
        ),
    ])
}

fn load_timeline_day() -> Value {
    json_to_nbt_with_options(timeline_day(), widening()).unwrap()
}

fn compound<'a>(value: &'a Value, msg: &str) -> &'a Vec<(String, Value)> {
    let Value::Compound(map) = value else {
        panic!("Expected compound at {msg}, got {value:?}");
    };
    map
}

#[test]
fn period_ticks_is_int() {
    let day = load_timeline_day();
    let root = compound(&day, "root");
    assert_eq!(get(root, "period_ticks"), Some(&Value::Int(24000)));
}

#[test]
fn time_marker_scalar_is_int() {
    let day = load_timeline_day();
    let root = compound(&day, "root");
    let markers = compound(get(root, "time_markers").expect("time_markers field must exist"), "time_markers");
    assert_eq!(get(markers, "minecraft:wake_up_from_sleep"), Some(&Value::Int(0)));
}

#[test]
fn time_marker_compound_ticks_is_int_and_bool_is_byte() {
    let day = load_timeline_day();
    let root = compound(&day, "root");
    let markers = compound(get(root, "time_markers").expect("time_markers field must exist"), "time_markers");
    let day_marker = compound(get(markers, "minecraft:day").expect("minecraft:day marker must exist"), "minecraft:day");
    assert_eq!(get(day_marker, "ticks"), Some(&Value::Int(1000)));
    assert_eq!(get(day_marker, "show_in_commands"), Some(&Value::Byte(1)));
}

#[test]
fn cubic_bezier_keyframe_is_float() {
    let day = load_timeline_day();
    let root = compound(&day, "root");
    let tracks = compound(get(root, "tracks").expect("tracks field must exist"), "tracks");
    let moon_angle = compound(
        get(tracks, "minecraft:visual/moon_angle").expect("moon_angle track must exist"),
        "moon_angle",
    );
    let ease = compound(get(moon_angle, "ease").expect("ease field must exist"), "ease");
    let Value::List(bezier) = get(ease, "cubic_bezier").expect("cubic_bezier field must exist") else {
        panic!("cubic_bezier must be a list");
    };
    assert_eq!(bezier.len(), 4, "cubic_bezier must have 4 control values");
    let Value::Float(bits) = bezier[0] else {
        panic!("cubic_bezier[0] must be FloatTag; got {:?}", bezier[0]);
    };
    let f = f32::from_bits(bits);
    if (f - 0.362_f32).abs() >= 1e-5 {
        panic!("cubic_bezier[0] expected ~0.362f, got {f}");
    }
}

fn hello_world_named() -> Vec<u8> {
    let mut bytes = vec![10, 0, 11];
    bytes.extend_from_slice(b"hello world");
    bytes.extend_from_slice(&[8, 0, 4]);
    bytes.extend_from_slice(b"name");
    bytes.extend_from_slice(&[0, 9]);
    bytes.extend_from_slice(b"Bananrama");
    bytes.push(0);
    bytes
}

#[test]
fn reads_named_hello_world() {
    let mut reader = NbtReader::new(hello_world_named());
    let (name, value) = reader.read_root().unwrap();
    assert_eq!(name, "hello world".to_string());
    assert_eq!(
        value,
        Value::Compound(vec![("name".to_string(), Value::String("Bananrama".to_string()))])
    );
}

#[test]
fn test_nameless_root_hello_world_decode() {
    let mut bytes = vec![10, 8, 0, 4];
    bytes.extend_from_slice(b"name");
    bytes.extend_from_slice(&[0, 9]);
    bytes.extend_from_slice(b"Bananrama");
    bytes.push(0);
    let mut reader = NbtReader::new_with_options(bytes, NbtOptions::new().nameless_root(true));
    let (name, value) = reader.read_root().unwrap();
    assert_eq!(name, String::new());
    let Value::Compound(map) = value else {
        panic!("Expected compound");
    };
    assert_eq!(get(&map, "name"), Some(&Value::String("Bananrama".to_string())));
}

#[test]
fn reads_numbers_lists_and_arrays() {
    let mut bytes = vec![10, 0, 0];
    // int "i" = -2
    bytes.extend_from_slice(&[3, 0, 1, b'i', 0xFF, 0xFF, 0xFF, 0xFE]);
    // list "l" of two shorts: 1, 256
    bytes.extend_from_slice(&[9, 0, 1, b'l', 2, 0, 0, 0, 2, 0, 1, 1, 0]);
    // long array "a" = [1]
    bytes.extend_from_slice(&[12, 0, 1, b'a', 0, 0, 0, 1, 0, 0, 0, 0, 0, 0, 0, 1]);
    bytes.push(0);
    let (_, value) = NbtReader::new(bytes).read_root().unwrap();
    assert_eq!(
        value,
        Value::Compound(vec![
            ("i".to_string(), Value::Int(-2)),
            ("l".to_string(), Value::List(vec![Value::Short(1), Value::Short(256)])),
            ("a".to_string(), Value::LongArray(vec![1])),
        ])
    );
}

#[test]
fn reader_errors() {
    assert_eq!(NbtReader::new(vec![]).read_root().unwrap_err(), NbtError::Io);
    assert_eq!(NbtReader::new(vec![3, 0, 0, 1, 2]).read_root().unwrap_err(), NbtError::Io);
    assert_eq!(NbtReader::new(vec![13, 0, 0]).read_root().unwrap_err(), NbtError::InvalidTagId(13));
    assert_eq!(
        NbtReader::new(vec![7, 0, 0, 0xFF, 0xFF, 0xFF, 0xFF]).read_root().unwrap_err(),
        NbtError::InvalidLength
    );
    assert_eq!(NbtReader::new(vec![8, 0, 0, 0, 1, 0xFF]).read_root().unwrap_err(), NbtError::InvalidUtf8);
}

#[test]
fn detects_compression_from_magic_bytes() {
    assert_eq!(detect_compression(&[0x1f, 0x8b, 0x08]), CompressionType::Gzip);
    assert_eq!(detect_compression(&[0x78, 0x9c]), CompressionType::Zlib);
    assert_eq!(detect_compression(&[0x0a, 0x00]), CompressionType::Uncompressed);
    assert_eq!(detect_compression(&[]), CompressionType::Uncompressed);
}

#[test]
fn test_roundtrip_primitive() {
    let v = Value::Int(12345);
    let bytes = pico_limbo::nbt::writer::to_bytes(&v, Some("test")).unwrap();
    let (name, v2) = pico_limbo::nbt::reader::from_slice(&bytes).unwrap();
    assert_eq!(name, "test");
    assert_eq!(v, v2);
}

#[test]
fn test_roundtrip_compound() {
    let v = Value::Compound(vec![
        ("byte".to_string(), Value::Byte(1)),
        ("string".to_string(), Value::String("hello".into())),
    ]);
    let bytes = pico_limbo::nbt::writer::to_bytes(&v, Some("root")).unwrap();
    let (name, v2) = pico_limbo::nbt::reader::from_slice(&bytes).unwrap();
    assert_eq!(name, "root");
    assert_eq!(v, v2);
}

#[test]
fn test_compression_gzip() {
    let v = Value::Int(42);
    let bytes = pico_limbo::nbt::writer::to_bytes(&v, Some("compressed")).unwrap();
    let mut encoder = GzEncoder::new(Vec::new(), Compression::default());
    encoder.write_all(&bytes).unwrap();
    let compressed = encoder.finish().unwrap();
    assert_eq!(detect_compression(&compressed), CompressionType::Gzip);

    let mut plain = Vec::new();
    GzDecoder::new(compressed.as_slice()).read_to_end(&mut plain).unwrap();
    let (name, v2) = pico_limbo::nbt::reader::from_slice(&plain).unwrap();
    assert_eq!(name, "compressed");
    assert_eq!(v, v2);
}

#[test]
fn writes_exact_bytes() {
    let bytes = pico_limbo::nbt::writer::to_bytes(&Value::Short(-2), Some("s")).unwrap();
    assert_eq!(bytes, vec![2, 0, 1, b's', 0xFF, 0xFE]);
    let nameless = pico_limbo::nbt::writer::to_bytes(&Value::Compound(vec![]), None).unwrap();
    assert_eq!(nameless, vec![10, 0]);
    let list = pico_limbo::nbt::writer::to_bytes(&Value::List(vec![]), None).unwrap();
    assert_eq!(list, vec![9, 0, 0, 0, 0, 0]);
    assert_eq!(bytes_of_hello_world(), hello_world_named());
}

fn bytes_of_hello_world() -> Vec<u8> {
    let v = Value::Compound(vec![("name".to_string(), Value::String("Bananrama".to_string()))]);
    pico_limbo::nbt::writer::to_bytes(&v, Some("hello world")).unwrap()
}

#[test]
fn roundtrip_of_every_tag_nameless() {
    let v = Value::Compound(vec![
        ("b".to_string(), Value::Byte(-5)),
        ("s".to_string(), Value::Short(300)),
        ("i".to_string(), Value::Int(-70000)),
        ("l".to_string(), Value::Long(i64::MIN)),
        ("f".to_string(), Value::Float(1.5f32.to_bits())),
        ("d".to_string(), Value::Double((-2.25f64).to_bits())),
        ("ba".to_string(), Value::ByteArray(vec![0, 255, 7])),
        ("st".to_string(), Value::String("ünïcödé".to_string())),
        ("li".to_string(), Value::List(vec![Value::Int(1), Value::Int(2)])),
        ("c".to_string(), Value::Compound(vec![("x".to_string(), Value::Byte(1))])),
        ("ia".to_string(), Value::IntArray(vec![i32::MIN, 0, i32::MAX])),
        ("la".to_string(), Value::LongArray(vec![-1, 1])),
    ]);
    let options = NbtOptions::new().nameless_root(true);
    let bytes = pico_limbo::nbt::writer::to_bytes_with_options(&v, "ignored", options).unwrap();
    let (name, v2) = NbtReader::new_with_options(bytes, options).read_root().unwrap();
    assert_eq!(name, String::new());
    assert_eq!(v, v2);
}

#[test]
fn writer_refuses_mixed_lists_and_long_strings() {
    let mixed = Value::List(vec![Value::Int(1), Value::Byte(1)]);
    assert_eq!(pico_limbo::nbt::writer::to_bytes(&mixed, None).unwrap_err(), NbtError::MixedList);
    let long = Value::String("x".repeat(65536));
    assert_eq!(pico_limbo::nbt::writer::to_bytes(&long, None).unwrap_err(), NbtError::TooLong);
    let long_name = "n".repeat(70000);
    assert_eq!(
        pico_limbo::nbt::writer::to_bytes(&Value::Byte(0), Some(long_name.as_str())).unwrap_err(),
        NbtError::TooLong
    );
}
