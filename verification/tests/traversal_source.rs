use gremlin_client::{
    Bytecode, GValue, GraphTraversalSource, Json, ReponseStatus, Traversal, TraversalStrategies,
    GID, GIDs,
};

#[test]
fn v_traversal() {
    let g = GraphTraversalSource::new(TraversalStrategies::new(vec![]));

    let mut code = Bytecode::new();
    code.add_step(String::from("V"), vec![GValue::Int32(1)]);

    assert_eq!(&code, g.v(GIDs(vec![GID::Int32(1)])).bytecode());
}

#[test]
fn e_traversal() {
    let g = GraphTraversalSource::new(TraversalStrategies::new(vec![]));

    let mut code = Bytecode::new();
    code.add_step(String::from("E"), vec![GValue::Int32(1)]);

    assert_eq!(&code, g.e(GIDs(vec![GID::Int32(1)])).bytecode());
}

#[test]
fn handle_no_response_status_message() {
    let parsed: ReponseStatus = ReponseStatus::from_json(&Json::Obj(vec![(
        "code".to_string(),
        Json::Int(123),
    )]))
    .expect("Failed to parse test message");
    assert_eq!(123, parsed.code);
    assert_eq!("", parsed.message);
}

#[test]
fn handle_null_response_status_message() {
    let parsed: ReponseStatus = ReponseStatus::from_json(&Json::Obj(vec![
        ("code".to_string(), Json::Int(123)),
        ("message".to_string(), Json::Null),
    ]))
    .expect("Failed to parse test message");
    assert_eq!(123, parsed.code);
    assert_eq!("", parsed.message);
}

#[test]
fn handle_response_status_message() {
    let parsed: ReponseStatus = ReponseStatus::from_json(&Json::Obj(vec![
        ("code".to_string(), Json::Int(123)),
        ("message".to_string(), Json::Str("Hello World".to_string())),
    ]))
    .expect("Failed to parse test message");
    assert_eq!(123, parsed.code);
    assert_eq!("Hello World", parsed.message);
}

#[test]
fn remote_iterator_unwraps_traversers() {
    let results = vec![
        GValue::Traverser(gremlin_client::Traverser {
            bulk: 1,
            value: Box::new(GValue::Int32(7)),
        }),
        GValue::Traverser(gremlin_client::Traverser {
            bulk: 2,
            value: Box::new(GValue::String("x".to_string())),
        }),
    ];
    let response = gremlin_client::Response {
        request_id: gremlin_client::Uuid { hi: 0, lo: 0 },
        result: gremlin_client::ResponseResult { data: None },
        status: gremlin_client::ReponseStatus { code: 200, message: String::new() },
    };
    let set = gremlin_client::GResultSet::new(results, response);
    let mut iter = gremlin_client::RemoteTraversalIterator::new(set);
    assert_eq!(iter.next().unwrap().unwrap(), GValue::Int32(7));
    assert_eq!(iter.next().unwrap().unwrap(), GValue::String("x".to_string()));
    assert!(iter.next().is_none());
}

#[test]
fn remote_iterator_rejects_a_bare_value() {
    let response = gremlin_client::Response {
        request_id: gremlin_client::Uuid { hi: 0, lo: 0 },
        result: gremlin_client::ResponseResult { data: None },
        status: gremlin_client::ReponseStatus { code: 200, message: String::new() },
    };
    let set = gremlin_client::GResultSet::new(vec![GValue::Int32(1)], response);
    let mut iter = gremlin_client::RemoteTraversalIterator::new(set);
    match iter.next() {
        Some(Err(gremlin_client::GremlinError::Cast(_))) => {}
        other => panic!("expected a cast error, got {:?}", other),
    }
}

#[test]
fn text_response_envelope_decodes() {
    let proto = gremlin_client::IoProtocol::GraphSONV3;
    let j = Json::Obj(vec![
        (
            "requestId".to_string(),
            Json::Str("00000000-0000-0000-0000-000000000001".to_string()),
        ),
        (
            "status".to_string(),
            Json::Obj(vec![("code".to_string(), Json::Int(200))]),
        ),
        (
            "result".to_string(),
            Json::Obj(vec![(
                "data".to_string(),
                Json::Obj(vec![
                    ("@type".to_string(), Json::Str("g:Int32".to_string())),
                    ("@value".to_string(), Json::Int(5)),
                ]),
            )]),
        ),
    ]);
    let resp = proto.read_response_json(&j).unwrap();
    assert_eq!(resp.request_id, gremlin_client::Uuid { hi: 0, lo: 1 });
    assert_eq!(resp.status.code, 200);
    assert_eq!(resp.status.message, "");
    assert_eq!(resp.result.data, Some(GValue::Int32(5)));
}
