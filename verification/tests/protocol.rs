use pico_limbo::position::{pack_position, unpack_position};
use pico_limbo::batch::{
    stream_step, Batch, Current, Phase, Producer, ProducerKind, StreamEvent, StreamOutput,
};
use pico_limbo::decode_field::{DecodePacketField, DeserializeNumberError};
use pico_limbo::length_padded_vec::LengthPaddedVecDecodeError;
use pico_limbo::monitoring::{ErrorLabels, MetricsProvider, NoOpMetrics, PacketLabels, VersionLabels};
use pico_limbo::identifier::Identifier;
use pico_limbo::length_padded_vec::LengthPaddedVec;
use pico_limbo::packet_field::EncodePacketField;
use pico_limbo::protocol_version::ProtocolVersion;
use pico_limbo::string_field::{decode_string, StringDecodingError};
use pico_limbo::var_int::{VarInt, VarIntParseError};

fn get_test_cases() -> Vec<(Vec<u8>, i32)> {
    vec![
        (vec![0x00], 0),
        (vec![0x01], 1),
        (vec![0x02], 2),
        (vec![0x7f], 127),
        (vec![0x80, 0x01], 128),
        (vec![0xff, 0x01], 255),
        (vec![0xdd, 0xc7, 0x01], 25565),
        (vec![0xff, 0xff, 0x7f], 2097151),
        (vec![0xff, 0xff, 0xff, 0xff, 0x07], 2147483647),
        (vec![0xff, 0xff, 0xff, 0xff, 0x0f], -1),
        (vec![0x80, 0x80, 0x80, 0x80, 0x08], -2147483648),
    ]
}

#[test]
fn test_encode_var_int() {
    let test_cases = get_test_cases();

    for (expected_bytes, value) in test_cases {
        let mut bytes = Vec::new();
        VarInt::new(value).encode(&mut bytes).unwrap();
        assert_eq!(bytes, expected_bytes);
    }
}

#[test]
fn test_read_var_int() {
    for (bytes, expected) in get_test_cases() {
        let (value, used) = VarInt::decode(&bytes).unwrap();
        assert_eq!(value.value(), expected);
        assert_eq!(used, bytes.len());
    }
}

#[test]
fn var_int_round_trip_keeps_trailing_bytes() {
    for value in [0, 1, -1, 300, 25565, i32::MAX, i32::MIN, -123456] {
        let mut bytes = Vec::new();
        VarInt::new(value).encode(&mut bytes).unwrap();
        let written = bytes.len();
        bytes.extend_from_slice(&[0xAB, 0xCD]);
        let (decoded, used) = VarInt::decode(&bytes).unwrap();
        assert_eq!(decoded.value(), value);
        assert_eq!(used, written);
    }
}

#[test]
fn var_int_decode_errors() {
    assert!(matches!(VarInt::decode(&[]), Err(VarIntParseError::Io)));
    assert!(matches!(VarInt::decode(&[0x80, 0x80]), Err(VarIntParseError::Io)));
    assert!(matches!(
        VarInt::decode(&[0x80, 0x80, 0x80, 0x80, 0x80, 0x01]),
        Err(VarIntParseError::VarIntTooLarge)
    ));
}

#[test]
fn test_encode_string() {
    let mut bytes = Vec::new();
    "hello".to_string().encode(&mut bytes).unwrap();
    assert_eq!(bytes, vec![5, 104, 101, 108, 108, 111]);
}

#[test]
fn test_decode_string() {
    let bytes = vec![5, 104, 101, 108, 108, 111];
    let (string, used) = decode_string(&bytes).unwrap();
    assert_eq!(string, "hello".to_string());
    assert_eq!(used, 6);
}

#[test]
fn string_round_trip_multibyte() {
    let text = "héllo wörld ✓".to_string();
    let mut bytes = Vec::new();
    text.encode(&mut bytes).unwrap();
    assert_eq!(bytes[0] as usize, text.len());
    let (decoded, used) = decode_string(&bytes).unwrap();
    assert_eq!(decoded, text);
    assert_eq!(used, bytes.len());
}

#[test]
fn string_decode_errors() {
    assert!(matches!(decode_string(&[3, 0x61]), Err(StringDecodingError::Io)));
    assert!(matches!(
        decode_string(&[2, 0xC3, 0x28]),
        Err(StringDecodingError::InvalidUtf8String)
    ));
    // 32768 bytes announced: over the limit.
    assert!(matches!(
        decode_string(&[0x80, 0x80, 0x02]),
        Err(StringDecodingError::StringTooLarge)
    ));
    assert!(matches!(
        decode_string(&[0x80]),
        Err(StringDecodingError::VarIntParseError(VarIntParseError::Io))
    ));
}

#[test]
fn test_vec_encode() {
    let vec = LengthPaddedVec(vec![VarInt::new(1), VarInt::new(2)]);
    let mut bytes = Vec::new();
    vec.encode(&mut bytes).unwrap();
    assert_eq!(bytes, vec![0x02, 0x01, 0x02]);
}

#[test]
fn test_vec_encode_empty() {
    let vec = LengthPaddedVec(Vec::<VarInt>::new());
    let mut bytes = Vec::new();
    vec.encode(&mut bytes).unwrap();
    assert_eq!(bytes, vec![0x00]);
}

#[test]
fn test_identifier() {
    let identifier = Identifier::minecraft("overworld");
    let mut expected_bytes = Vec::new();
    identifier.encode(&mut expected_bytes).unwrap();
    let (decoded_identifier, used) = Identifier::decode(&expected_bytes).unwrap();
    assert_eq!(identifier, decoded_identifier);
    assert_eq!(used, expected_bytes.len());
    assert_eq!(identifier.to_string(), "minecraft:overworld".to_string());
}

#[test]
fn identifier_from_str_keeps_first_two_pieces() {
    let id = Identifier::from_str("pico:a:b");
    assert_eq!(id, Identifier::new("pico", "a"));
    assert_eq!(id.to_string(), "pico:a".to_string());
}

#[test]
fn test_protocol_version_ordering() {
    let v1_21 = ProtocolVersion::V1_21;
    let v1_21_2 = ProtocolVersion::V1_21_2;
    let v1_21_4 = ProtocolVersion::V1_21_4;

    assert!(v1_21 < v1_21_2);
    assert!(v1_21_2 < v1_21_4);
    assert!(v1_21_4 > v1_21_2);
    assert_eq!(v1_21_4, v1_21_4);
    assert_ne!(v1_21_2, v1_21_4);
}

#[test]
fn protocol_version_numbers_and_names() {
    assert_eq!(ProtocolVersion::V1_21_4.version_number(), 769);
    assert_eq!(ProtocolVersion::V1_21_4.version_name(), "1.21.4".to_string());
    assert_eq!(ProtocolVersion::from(VarInt::new(769)), ProtocolVersion::V1_21_4);
    assert_eq!(ProtocolVersion::default(), ProtocolVersion::V1_21_4);
}

#[test]
fn test_vec_decode() {
    let bytes = vec![0x02, 0x01, 0x02];
    let (vec, used) = LengthPaddedVec::<VarInt>::decode(&bytes).unwrap();
    assert_eq!(used, 3);
    assert_eq!(vec.0.len(), 2);
    assert_eq!(vec.0[0].value(), 1);
    assert_eq!(vec.0[1].value(), 2);
}

#[test]
fn vec_decode_errors() {
    assert!(matches!(
        LengthPaddedVec::<VarInt>::decode(&[]),
        Err(LengthPaddedVecDecodeError::InvalidVecLength(VarIntParseError::Io))
    ));
    assert!(matches!(
        LengthPaddedVec::<VarInt>::decode(&[0x02, 0x01]),
        Err(LengthPaddedVecDecodeError::DecodeError(VarIntParseError::Io))
    ));
    let (strings, used) = LengthPaddedVec::<String>::decode(&[0x02, 0x01, b'a', 0x00]).unwrap();
    assert_eq!(strings.0, vec!["a".to_string(), String::new()]);
    assert_eq!(used, 4);
}

#[test]
fn vec_round_trip() {
    let list = LengthPaddedVec(vec![VarInt::new(300), VarInt::new(-1), VarInt::new(0)]);
    let mut bytes = Vec::new();
    list.encode(&mut bytes).unwrap();
    bytes.push(0xEE);
    let (back, used) = LengthPaddedVec::<VarInt>::decode(&bytes).unwrap();
    assert_eq!(used, bytes.len() - 1);
    assert_eq!(back.0.iter().map(|v| v.value()).collect::<Vec<_>>(), vec![300, -1, 0]);
}

#[test]
fn decodes_numbers_big_endian() {
    assert_eq!(<i32 as DecodePacketField>::decode(&[0xFF, 0xFF, 0xFF, 0xFE, 9]).unwrap(), (-2, 4));
    assert_eq!(<i64 as DecodePacketField>::decode(&[0, 0, 0, 0, 0, 0, 1, 0]).unwrap(), (256, 8));
    assert_eq!(<u16 as DecodePacketField>::decode(&[1, 2]).unwrap(), (258, 2));
    assert_eq!(<u8 as DecodePacketField>::decode(&[7]).unwrap(), (7, 1));
    assert_eq!(<i8 as DecodePacketField>::decode(&[0x80]).unwrap(), (-128, 1));
    assert_eq!(<bool as DecodePacketField>::decode(&[1]).unwrap(), (true, 1));
    assert_eq!(<bool as DecodePacketField>::decode(&[2]).unwrap(), (false, 1));
    assert!(matches!(<i32 as DecodePacketField>::decode(&[1, 2, 3]), Err(DeserializeNumberError::Io)));
    let (id, used) = <Identifier as DecodePacketField>::decode(&[3, b'a', b':', b'b']).unwrap();
    assert_eq!(id, Identifier::new("a", "b"));
    assert_eq!(used, 4);
}

#[test]
fn metrics_labels() {
    let sent = PacketLabels::sent("KeepAlive", "play");
    assert_eq!((sent.name.as_str(), sent.state.as_str(), sent.direction.as_str()), ("KeepAlive", "play", "sent"));
    assert_eq!(PacketLabels::received("Handshake", "handshake").direction, "received");
    assert_eq!(VersionLabels::new("1.21.4").version, "1.21.4");
    assert_eq!(ErrorLabels::new("io").clone().error_type, "io");
    let metrics = NoOpMetrics;
    metrics.inc_total_connections();
    metrics.inc_packets_sent("KeepAlive", "play");
}

#[test]
fn batch_hands_producers_out_in_order() {
    let mut batch: Batch<u8, u16, Vec<u32>> = Batch::new();
    batch.queue(1);
    batch.queue_async(2);
    batch.chain_iter(vec![3, 4]);
    let mut stream = batch.into_stream::<u64>();
    assert!(matches!(stream.current_mut(), Current::Idle));
    assert!(matches!(stream.next_producer(), Some(Producer::SyncClosure(1))));
    assert!(matches!(stream.next_producer(), Some(Producer::AsyncClosure(2))));
    match stream.next_producer() {
        Some(Producer::Iterator(items)) => {
            assert_eq!(items, vec![3, 4]);
            stream.set_iterator(items);
        }
        _ => panic!("expected the iterator"),
    }
    assert!(matches!(stream.current_mut(), Current::Iterator(_)));
    stream.set_future(9);
    assert!(matches!(stream.current_mut(), Current::Future(9)));
    stream.set_idle();
    assert!(stream.next_producer().is_none());
}

#[test]
fn test_position() {
    let packed = pack_position(18357644, 831, -20882616);
    assert_eq!(unpack_position(packed), (18357644, 831, -20882616));
    assert_eq!(pack_position(0, 0, 0), 0);
    assert_eq!(unpack_position(pack_position(-1, -1, -1)), (-1, -1, -1));
}

#[test]
fn uuid_on_the_wire() {
    let id: u128 = 0x0123_4567_89ab_cdef_0011_2233_4455_6677;
    let mut bytes = Vec::new();
    id.encode(&mut bytes).unwrap();
    assert_eq!(bytes, id.to_be_bytes().to_vec());
    assert_eq!(<u128 as DecodePacketField>::decode(&bytes).unwrap(), (id, 16));
    assert!(<u128 as DecodePacketField>::decode(&bytes[..15]).is_err());
}

#[test]
fn identifier_without_colon_defaults_to_minecraft() {
    let (id, used) = Identifier::decode(&[5, b's', b't', b'o', b'n', b'e']).unwrap();
    assert_eq!(id, Identifier::minecraft("stone"));
    assert_eq!(used, 6);
}

#[test]
fn identifier_with_colon_splits_namespace_and_path() {
    let (id, used) = Identifier::decode(&[7, b'n', b's', b':', b'p', b'a', b't', b'h']).unwrap();
    assert_eq!(id, Identifier::new("ns", "path"));
    assert_eq!(used, 8);
}

#[test]
fn vec_decode_reports_the_first_failing_item() {
    // the second string announces a negative length, the third is cut short
    assert!(matches!(
        LengthPaddedVec::<String>::decode(&[0x03, 0x01, b'a', 0xff, 0xff, 0xff, 0xff, 0x0f, 0x05]),
        Err(LengthPaddedVecDecodeError::DecodeError(StringDecodingError::StringTooLarge))
    ));
    assert!(matches!(
        LengthPaddedVec::<VarInt>::decode(&[0x03, 0x01, 0xff, 0xff, 0xff, 0xff, 0xff, 0x01]),
        Err(LengthPaddedVecDecodeError::DecodeError(VarIntParseError::VarIntTooLarge))
    ));
}

#[test]
fn version_names_follow_variants_and_differ() {
    let versions = [
        ProtocolVersion::V1_21_4,
        ProtocolVersion::V1_21_2,
        ProtocolVersion::V1_21,
        ProtocolVersion::V1_20_5,
        ProtocolVersion::V1_19_1,
        ProtocolVersion::V1_16,
        ProtocolVersion::V1_12_1,
        ProtocolVersion::V1_11,
        ProtocolVersion::V1_10,
        ProtocolVersion::V1_9,
        ProtocolVersion::V1_8,
        ProtocolVersion::V1_7_2,
    ];
    let names: Vec<String> = versions.iter().map(|v| v.version_name()).collect();
    for (i, v) in versions.iter().enumerate() {
        let expected = format!("{:?}", v)[1..].replace('_', ".");
        assert_eq!(names[i], expected);
        for j in 0..i {
            assert_ne!(names[i], names[j]);
        }
    }
}

#[test]
fn batch_stream_steps() {
    assert_eq!(stream_step(Phase::Awaiting, StreamEvent::FutureReady), (Phase::Idle, StreamOutput::Yield));
    assert_eq!(stream_step(Phase::Awaiting, StreamEvent::FuturePending), (Phase::Awaiting, StreamOutput::Pending));
    assert_eq!(stream_step(Phase::Iterating, StreamEvent::IteratorGave), (Phase::Iterating, StreamOutput::Yield));
    assert_eq!(stream_step(Phase::Iterating, StreamEvent::IteratorEmpty), (Phase::Idle, StreamOutput::Continue));
    assert_eq!(
        stream_step(Phase::Idle, StreamEvent::NextProducer(Some(ProducerKind::Sync))),
        (Phase::Idle, StreamOutput::Yield)
    );
    assert_eq!(
        stream_step(Phase::Idle, StreamEvent::NextProducer(Some(ProducerKind::Async))),
        (Phase::Awaiting, StreamOutput::Continue)
    );
    assert_eq!(
        stream_step(Phase::Idle, StreamEvent::NextProducer(Some(ProducerKind::Iterator))),
        (Phase::Iterating, StreamOutput::Continue)
    );
    assert_eq!(stream_step(Phase::Idle, StreamEvent::NextProducer(None)), (Phase::Idle, StreamOutput::End));
}

#[test]
fn version_names_are_distinct_for_all_known_numbers() {
    let mut names: Vec<String> = Vec::new();
    for n in 0..800 {
        let v = ProtocolVersion::from_number(n);
        if v.version_number() as i32 == n {
            let name = v.version_name();
            assert!(!names.contains(&name));
            names.push(name);
        }
    }
    assert_eq!(names.len(), 44);
}
