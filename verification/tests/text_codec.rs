use gremlin_client::{
    read_graphson, write_graphson, Bytecode, Cardinality, Date, Direction, GKey, GValue, Json,
    Order, Scope, Uuid, T,
};

fn tagged(tag: &str, payload: Json) -> Json {
    Json::Obj(vec![
        ("@type".to_string(), Json::Str(tag.to_string())),
        ("@value".to_string(), payload),
    ])
}

fn round_trip(v: GValue, v3: bool) -> GValue {
    let j = write_graphson(&v, v3).expect("supported");
    read_graphson(&j, v3).expect("decodable")
}

#[test]
fn int32_tagging() {
    let j = write_graphson(&GValue::Int32(1), false).unwrap();
    assert_eq!(j, tagged("g:Int32", Json::Int(1)));
    let j3 = write_graphson(&GValue::Int32(1), true).unwrap();
    assert_eq!(j3, tagged("g:Int32", Json::Int(1)));
}

#[test]
fn list_tagging_differs_between_versions() {
    let v = GValue::List(vec![GValue::Int32(1), GValue::Int32(2)]);
    let j2 = write_graphson(&v, false).unwrap();
    assert_eq!(
        j2,
        Json::Arr(vec![tagged("g:Int32", Json::Int(1)), tagged("g:Int32", Json::Int(2))])
    );
    let j3 = write_graphson(&v, true).unwrap();
    assert_eq!(
        j3,
        tagged(
            "g:List",
            Json::Arr(vec![tagged("g:Int32", Json::Int(1)), tagged("g:Int32", Json::Int(2))])
        )
    );
}

#[test]
fn map_tagging_differs_between_versions() {
    let v = GValue::GMap(vec![(GKey::String("k".to_string()), GValue::Int32(1))]);
    let j2 = write_graphson(&v, false).unwrap();
    assert_eq!(
        j2,
        Json::Obj(vec![("k".to_string(), tagged("g:Int32", Json::Int(1)))])
    );
    let j3 = write_graphson(&v, true).unwrap();
    assert_eq!(
        j3,
        tagged(
            "g:Map",
            Json::Arr(vec![Json::Str("k".to_string()), tagged("g:Int32", Json::Int(1))])
        )
    );
}

#[test]
fn uuid_writes_hyphenated_hex() {
    let u = Uuid { hi: 0x0011223344556677, lo: 0x8899aabbccddeeff };
    let j = write_graphson(&GValue::Uuid(u), true).unwrap();
    assert_eq!(
        j,
        tagged(
            "g:UUID",
            Json::Str("00112233-4455-6677-8899-aabbccddeeff".to_string())
        )
    );
}

#[test]
fn uuid_parses_either_case() {
    let j = tagged(
        "g:UUID",
        Json::Str("00112233-4455-6677-8899-AABBCCDDEEFF".to_string()),
    );
    let v = read_graphson(&j, true).unwrap();
    assert_eq!(
        v,
        GValue::Uuid(Uuid { hi: 0x0011223344556677, lo: 0x8899aabbccddeeff })
    );
}

#[test]
fn scalar_text_round_trips() {
    for v3 in [false, true] {
        let samples = [
            GValue::Null,
            GValue::Bool(true),
            GValue::Bool(false),
            GValue::Int32(-7),
            GValue::Int64(1 << 40),
            GValue::Float(0.25f32.to_bits()),
            GValue::Double(0.1f64.to_bits()),
            GValue::String("héllo".to_string()),
            GValue::Uuid(Uuid { hi: 1, lo: 2 }),
            GValue::Date(Date { millis: -9001 }),
            GValue::Scope(Scope::Local),
            GValue::Order(Order::Shuffle),
            GValue::T(T::Label),
            GValue::Cardinality(Cardinality::Single),
            GValue::Direction(Direction::In),
            GValue::Pop(gremlin_client::Pop::Mixed),
            GValue::Merge(gremlin_client::Merge::OnCreate),
            GValue::Column(gremlin_client::Column::Keys),
        ];
        for v in samples {
            let j = write_graphson(&v, v3).expect("supported");
            let back = read_graphson(&j, v3).expect("decodable");
            assert_eq!(back, v);
        }
    }
}

#[test]
fn composite_text_round_trips() {
    for v3 in [false, true] {
        let v = GValue::List(vec![
            GValue::Int32(1),
            GValue::GMap(vec![(GKey::String("a".to_string()), GValue::String("x".to_string()))]),
        ]);
        assert_eq!(round_trip(v, v3), GValue::List(vec![
            GValue::Int32(1),
            GValue::GMap(vec![(GKey::String("a".to_string()), GValue::String("x".to_string()))]),
        ]));
    }
}

#[test]
fn enum_keys_round_trip_in_v3() {
    let v = GValue::GMap(vec![
        (GKey::Direction(Direction::Out), GValue::Int32(1)),
        (GKey::T(T::Id), GValue::Int32(2)),
    ]);
    let j = write_graphson(&v, true).unwrap();
    let back = read_graphson(&j, true).unwrap();
    assert_eq!(
        back,
        GValue::GMap(vec![
            (GKey::Direction(Direction::Out), GValue::Int32(1)),
            (GKey::T(T::Id), GValue::Int32(2)),
        ])
    );
}

#[test]
fn bytecode_text_shape() {
    let mut code = Bytecode::new();
    code.add_step("V".to_string(), vec![GValue::Int32(1)]);
    let j = write_graphson(&GValue::Bytecode(code), true).unwrap();
    assert_eq!(
        j,
        tagged(
            "g:Bytecode",
            Json::Obj(vec![
                (
                    "step".to_string(),
                    Json::Arr(vec![Json::Arr(vec![
                        Json::Str("V".to_string()),
                        tagged("g:Int32", Json::Int(1)),
                    ])])
                ),
                ("source".to_string(), Json::Arr(vec![])),
            ])
        )
    );
    let back = read_graphson(&j, true).unwrap();
    let mut expected = Bytecode::new();
    expected.add_step("V".to_string(), vec![GValue::Int32(1)]);
    assert_eq!(back, GValue::Bytecode(expected));
}

#[test]
fn non_string_key_in_v2_is_a_generic_error() {
    let v = GValue::GMap(vec![(GKey::Direction(Direction::Out), GValue::Int32(1))]);
    let r = write_graphson(&v, false);
    assert!(matches!(r, Err(gremlin_client::GremlinError::Generic(_))));
}

#[test]
fn set_has_no_text_form() {
    let v = GValue::GSet(vec![GValue::Int32(1)]);
    let r = write_graphson(&v, true);
    assert!(matches!(r, Err(gremlin_client::GremlinError::Cast(_))));
}

#[test]
fn unrecognized_tag_is_a_cast_error() {
    let j = tagged("g:Unknown", Json::Int(1));
    let r = read_graphson(&j, true);
    assert!(matches!(r, Err(gremlin_client::GremlinError::Cast(_))));
}

#[test]
fn out_of_range_int32_payload_is_a_cast_error() {
    let j = tagged("g:Int32", Json::Int(1 << 40));
    let r = read_graphson(&j, true);
    assert!(matches!(r, Err(gremlin_client::GremlinError::Cast(_))));
}

#[test]
fn predicate_round_trip() {
    for v3 in [false, true] {
        let v = GValue::P(gremlin_client::P {
            operator: "eq".to_string(),
            value: Box::new(GValue::Int32(23)),
        });
        let back = round_trip(v, v3);
        assert_eq!(
            back,
            GValue::P(gremlin_client::P {
                operator: "eq".to_string(),
                value: Box::new(GValue::Int32(23)),
            })
        );
    }
}
