use gremlin_client::{Bytecode, Date, GKey, GValue, Scope, Uuid};

fn encode(v: &GValue) -> Vec<u8> {
    let mut buf = Vec::new();
    v.to_be_bytes(&mut buf).expect("encodable");
    buf
}

fn decode_all(bytes: &[u8]) -> GValue {
    let (v, next) = GValue::from_be_bytes(bytes, 0).expect("decodable");
    assert_eq!(next, bytes.len());
    v
}

#[test]
fn int32_fixed_layout() {
    assert_eq!(encode(&GValue::Int32(1)), vec![0x01, 0x00, 0x00, 0x00, 0x00, 0x01]);
    assert_eq!(encode(&GValue::Int32(256)), vec![0x01, 0x00, 0x00, 0x00, 0x01, 0x00]);
    assert_eq!(encode(&GValue::Int32(257)), vec![0x01, 0x00, 0x00, 0x00, 0x01, 0x01]);
    assert_eq!(encode(&GValue::Int32(-1)), vec![0x01, 0x00, 0xFF, 0xFF, 0xFF, 0xFF]);
    assert_eq!(encode(&GValue::Int32(-2)), vec![0x01, 0x00, 0xFF, 0xFF, 0xFF, 0xFE]);
}

#[test]
fn int64_fixed_layout() {
    assert_eq!(
        encode(&GValue::Int64(1)),
        vec![0x02, 0x00, 0x00, 0x00, 0x00, 0x00, 0x00, 0x00, 0x00, 0x01]
    );
    assert_eq!(
        encode(&GValue::Int64(-2)),
        vec![0x02, 0x00, 0xFF, 0xFF, 0xFF, 0xFF, 0xFF, 0xFF, 0xFF, 0xFE]
    );
}

#[test]
fn string_fixed_layout() {
    assert_eq!(
        encode(&GValue::String("abc".to_string())),
        vec![0x03, 0x00, 0x00, 0x00, 0x00, 0x03, 0x61, 0x62, 0x63]
    );
    assert_eq!(
        encode(&GValue::String("abcd".to_string())),
        vec![0x03, 0x00, 0x00, 0x00, 0x00, 0x04, 0x61, 0x62, 0x63, 0x64]
    );
    assert_eq!(
        encode(&GValue::String(String::new())),
        vec![0x03, 0x00, 0x00, 0x00, 0x00, 0x00]
    );
}

#[test]
fn date_fixed_layout() {
    assert_eq!(
        encode(&GValue::Date(Date { millis: 0 })),
        vec![0x04, 0x00, 0x00, 0x00, 0x00, 0x00, 0x00, 0x00, 0x00, 0x00]
    );
    assert_eq!(
        encode(&GValue::Date(Date { millis: -1 })),
        vec![0x04, 0x00, 0xFF, 0xFF, 0xFF, 0xFF, 0xFF, 0xFF, 0xFF, 0xFF]
    );
}

#[test]
fn float_and_double_fixed_layout() {
    // 1.0f64 and 1.0f32 by their IEEE-754 bit patterns.
    assert_eq!(
        encode(&GValue::Double(0x3FF0_0000_0000_0000)),
        vec![0x07, 0x00, 0x3F, 0xF0, 0x00, 0x00, 0x00, 0x00, 0x00, 0x00]
    );
    assert_eq!(
        encode(&GValue::Float(0x3F80_0000)),
        vec![0x08, 0x00, 0x3F, 0x80, 0x00, 0x00]
    );
    assert_eq!(
        encode(&GValue::Float(0.375f32.to_bits())),
        vec![0x08, 0x00, 0x3E, 0xC0, 0x00, 0x00]
    );
}

#[test]
fn uuid_fixed_layout() {
    let u = Uuid { hi: 0x0011223344556677, lo: 0x8899aabbccddeeff };
    assert_eq!(
        encode(&GValue::Uuid(u)),
        vec![
            0x0C, 0x00, 0x00, 0x11, 0x22, 0x33, 0x44, 0x55, 0x66, 0x77, 0x88, 0x99, 0xAA, 0xBB,
            0xCC, 0xDD, 0xEE, 0xFF
        ]
    );
}

#[test]
fn list_and_set_fixed_layout() {
    assert_eq!(
        encode(&GValue::List(vec![GValue::Int32(1)])),
        vec![0x09, 0x00, 0x00, 0x00, 0x00, 0x01, 0x01, 0x00, 0x00, 0x00, 0x00, 0x01]
    );
    assert_eq!(
        encode(&GValue::GSet(vec![GValue::Int32(1)])),
        vec![0x0B, 0x00, 0x00, 0x00, 0x00, 0x01, 0x01, 0x00, 0x00, 0x00, 0x00, 0x01]
    );
}

#[test]
fn map_fixed_layout() {
    let m = GValue::GMap(vec![(GKey::String("abc".to_string()), GValue::Int32(1))]);
    assert_eq!(
        encode(&m),
        vec![
            0x0A, 0x00, 0x00, 0x00, 0x00, 0x01, 0x03, 0x00, 0x00, 0x00, 0x00, 0x03, 0x61, 0x62,
            0x63, 0x01, 0x00, 0x00, 0x00, 0x00, 0x01
        ]
    );
}

#[test]
fn null_fixed_layout() {
    assert_eq!(encode(&GValue::Null), vec![0xFE, 0x01]);
    assert_eq!(decode_all(&[0xFE, 0x01]), GValue::Null);
}

#[test]
fn null_flag_on_typed_value_reads_null() {
    assert_eq!(decode_all(&[0x01, 0x01]), GValue::Null);
    assert_eq!(decode_all(&[0x03, 0x01]), GValue::Null);
}

#[test]
fn scalar_round_trips() {
    let samples = [
        GValue::Null,
        GValue::Int32(-12345),
        GValue::Int64(9_007_199_254_740_993),
        GValue::Float(0.1f32.to_bits()),
        GValue::Double(0.1f64.to_bits()),
        GValue::String("hé\u{1F600}llo".to_string()),
        GValue::Uuid(Uuid { hi: 0xdeadbeef00112233, lo: 0x4455667788990011 }),
        GValue::Date(Date { millis: 9001 }),
        GValue::Scope(Scope::Global),
        GValue::Scope(Scope::Local),
    ];
    for v in samples {
        let bytes = encode(&v);
        assert_eq!(decode_all(&bytes), v);
    }
}

#[test]
fn composite_round_trips() {
    let list = GValue::List(vec![
        GValue::Int32(1),
        GValue::String("two".to_string()),
        GValue::List(vec![GValue::Int64(3)]),
    ]);
    let bytes = encode(&list);
    assert_eq!(decode_all(&bytes), list);

    let map = GValue::GMap(vec![
        (GKey::String("a".to_string()), GValue::Int32(1)),
        (GKey::String("b".to_string()), GValue::GSet(vec![GValue::Int32(2)])),
    ]);
    let bytes = encode(&map);
    assert_eq!(decode_all(&bytes), map);
}

#[test]
fn bytecode_round_trip() {
    let mut code = Bytecode::new();
    code.add_source("withStrategies".to_string(), vec![GValue::Int32(4)]);
    code.add_step("V".to_string(), vec![GValue::Int64(1)]);
    code.add_step("has".to_string(), vec![GValue::String("name".to_string())]);
    let v = GValue::Bytecode(code);
    let bytes = encode(&v);
    assert_eq!(decode_all(&bytes), v);
}

#[test]
fn traverser_decodes() {
    // A traverser: type code, flag, raw 8-byte bulk, then its value.
    let bytes = [
        0x21, 0x00, 0x00, 0x00, 0x00, 0x00, 0x00, 0x00, 0x00, 0x03, 0x01, 0x00, 0x00, 0x00, 0x00,
        0x07,
    ];
    match decode_all(&bytes) {
        GValue::Traverser(t) => {
            assert_eq!(t.bulk, 3);
            assert_eq!(*t.value, GValue::Int32(7));
        }
        other => panic!("expected a traverser, got {:?}", other),
    }
}

#[test]
fn truncated_int32_is_a_cast_error() {
    let r = GValue::from_be_bytes(&[0x01, 0x00, 0x00, 0x00, 0x00], 0);
    assert!(matches!(r, Err(gremlin_client::GremlinError::Cast(_))));
}

#[test]
fn truncated_inputs_are_rejected() {
    let v = GValue::List(vec![GValue::Int32(1), GValue::String("ab".to_string())]);
    let bytes = encode(&v);
    for cut in 0..bytes.len() {
        let r = GValue::from_be_bytes(&bytes[..cut], 0);
        assert!(matches!(r, Err(gremlin_client::GremlinError::Cast(_))));
    }
}

#[test]
fn unknown_type_code_is_a_cast_error() {
    let r = GValue::from_be_bytes(&[0x42, 0x00, 0x00], 0);
    assert!(matches!(r, Err(gremlin_client::GremlinError::Cast(_))));
}

#[test]
fn malformed_flag_is_a_cast_error() {
    let r = GValue::from_be_bytes(&[0x01, 0x07, 0x00, 0x00, 0x00, 0x01], 0);
    assert!(matches!(r, Err(gremlin_client::GremlinError::Cast(_))));
}

#[test]
fn non_string_map_key_is_refused_by_the_encoder() {
    let m = GValue::GMap(vec![(GKey::T(gremlin_client::T::Id), GValue::Int32(1))]);
    let mut buf = Vec::new();
    let r = m.to_be_bytes(&mut buf);
    assert!(matches!(r, Err(gremlin_client::GremlinError::Cast(_))));
    assert!(buf.is_empty());
}

#[test]
fn non_ascii_string_round_trip() {
    let v = GValue::String("päiväys \u{1F5FA}".to_string());
    let bytes = encode(&v);
    assert_eq!(decode_all(&bytes), v);
}
