use gremlin_client::{
    drive_cycle, handle_response, probe_after_auth, probe_first, probe_request, Credentials,
    DispatchStep, GValue, GremlinClient, GremlinError, IoProtocol, Json, ProbeStep,
    ReponseStatus, RequestPayload, Response, ResponseResult, Uuid,
};

fn opts(credentials: Option<Credentials>) -> gremlin_client::ConnectionOptions {
    gremlin_client::ConnectionOptions {
        pool_size: 4,
        pool_get_connection_timeout_ms: None,
        credentials,
        protocol: IoProtocol::GraphBinaryV1,
    }
}

fn creds() -> Credentials {
    Credentials { username: "marko".to_string(), password: "rainbow".to_string() }
}

fn response(code: i16, message: &str, data: Option<GValue>) -> Response {
    Response {
        request_id: Uuid { hi: 1, lo: 2 },
        result: ResponseResult { data },
        status: ReponseStatus { code, message: message.to_string() },
    }
}

#[test]
fn challenge_then_success_consumes_exactly_two_responses() {
    let responses = vec![
        response(407, "authentication required", None),
        response(200, "ok", Some(GValue::List(vec![GValue::Int32(9)]))),
    ];
    let (consumed, outcome) = drive_cycle(&Some(creds()), responses);
    assert_eq!(consumed, 2);
    assert_eq!(outcome.unwrap(), vec![GValue::Int32(9)]);
}

#[test]
fn second_challenge_is_refused_with_its_code_and_message() {
    let responses = vec![
        response(407, "authentication required", None),
        response(407, "still required", None),
    ];
    let (consumed, outcome) = drive_cycle(&Some(creds()), responses);
    assert_eq!(consumed, 2);
    match outcome {
        Err(GremlinError::Request(code, message)) => {
            assert_eq!(code, 407);
            assert_eq!(message, "still required");
        }
        other => panic!("expected a request error, got {:?}", other),
    }
}

#[test]
fn challenge_without_credentials_fails_at_once() {
    let responses = vec![response(407, "authentication required", None)];
    let (consumed, outcome) = drive_cycle(&None, responses);
    assert_eq!(consumed, 1);
    assert!(matches!(outcome, Err(GremlinError::Request(407, _))));
}

#[test]
fn no_content_yields_an_empty_sequence() {
    let responses = vec![response(204, "", None)];
    let (consumed, outcome) = drive_cycle(&None, responses);
    assert_eq!(consumed, 1);
    assert_eq!(outcome.unwrap(), Vec::<GValue>::new());
}

#[test]
fn authentication_reply_carries_the_standard_base64() {
    let step = handle_response(&Some(creds()), false, response(407, "", None));
    match step {
        DispatchStep::Authenticate(req) => {
            assert_eq!(req.op, "authentication");
            assert_eq!(req.processor, "traversal");
            assert_eq!(req.args.len(), 1);
            assert_eq!(req.args[0].0, "sasl");
            assert_eq!(
                req.args[0].1,
                GValue::String("AG1hcmtvAHJhaW5ib3c=".to_string())
            );
        }
        other => panic!("expected a challenge reply, got {:?}", other),
    }
}

#[test]
fn session_client_rejects_calls_after_close() {
    let client = GremlinClient::new(opts(None));
    let mut session = client.create_session("sid".to_string());
    let closing = session.close_session().expect("first close sends a request");
    assert_eq!(closing.op, "close");
    assert_eq!(closing.processor, "session");
    assert_eq!(
        closing.args,
        vec![("session".to_string(), GValue::String("sid".to_string()))]
    );

    let r = session.execute("g.V()".to_string(), vec![]);
    assert!(matches!(r, Err(GremlinError::Generic(_))));
    let mut code = gremlin_client::Bytecode::new();
    code.add_step("V".to_string(), vec![]);
    let r = session.submit(code);
    assert!(matches!(r, Err(GremlinError::Generic(_))));
}

#[test]
fn closing_a_session_twice_fails_without_a_second_request() {
    let client = GremlinClient::new(opts(None));
    let mut session = client.create_session("sid".to_string());
    session.close_session().expect("first close sends a request");
    let r = session.close_session();
    assert!(matches!(r, Err(GremlinError::Generic(_))));
}

#[test]
fn closing_without_a_session_fails() {
    let mut client = GremlinClient::new(opts(None));
    let r = client.close_session();
    assert!(matches!(r, Err(GremlinError::Generic(_))));
}

#[test]
fn session_requests_route_through_the_session_processor() {
    let client = GremlinClient::new(opts(None));
    let session = client.create_session("sid".to_string());
    let pr = session.execute("g.V()".to_string(), vec![]).unwrap();
    assert_eq!(pr.op, "eval");
    assert_eq!(pr.processor, "session");
    assert_eq!(
        pr.args.last().unwrap(),
        &("session".to_string(), GValue::String("sid".to_string()))
    );
    let pr = client.execute("g.V()".to_string(), vec![]).unwrap();
    assert_eq!(pr.processor, "");
}

#[test]
fn probe_keeps_a_connection_whose_credentials_are_rejected() {
    let step = probe_first(&Some(creds()), &response(407, "", None));
    assert!(matches!(step, ProbeStep::Authenticate(_)));
    // 401 after the reply: reachable but rejected, deliberately kept.
    assert!(probe_after_auth(&response(401, "nope", None)).is_ok());
    // Any other non-success code after the reply discards the connection.
    let r = probe_after_auth(&response(500, "boom", None));
    assert!(matches!(r, Err(GremlinError::Request(500, _))));
}

#[test]
fn probe_discards_on_other_codes_and_keeps_success() {
    assert!(matches!(probe_first(&None, &response(200, "", None)), ProbeStep::Healthy));
    assert!(matches!(probe_first(&None, &response(204, "", None)), ProbeStep::Healthy));
    assert!(matches!(probe_first(&None, &response(206, "", None)), ProbeStep::Healthy));
    let step = probe_first(&None, &response(500, "boom", None));
    assert!(matches!(step, ProbeStep::Discard(GremlinError::Request(500, _))));
    let step = probe_first(&None, &response(407, "auth", None));
    assert!(matches!(step, ProbeStep::Discard(GremlinError::Request(407, _))));
}

#[test]
fn probe_request_is_the_no_op_eval() {
    let pr = probe_request();
    assert_eq!(pr.op, "eval");
    assert_eq!(pr.processor, "");
    assert_eq!(
        pr.args,
        vec![
            ("gremlin".to_string(), GValue::String("g.inject(0)".to_string())),
            ("language".to_string(), GValue::String("gremlin-groovy".to_string())),
        ]
    );
}

#[test]
fn binary_request_carries_the_content_type_header() {
    let proto = IoProtocol::GraphBinaryV1;
    let id = Uuid { hi: 5, lo: 6 };
    let (got_id, payload) = proto
        .build_message(
            "eval".to_string(),
            "".to_string(),
            vec![("gremlin".to_string(), GValue::String("g.V()".to_string()))],
            Some(id),
        )
        .unwrap();
    assert_eq!(got_id, id);
    match payload {
        RequestPayload::Bytes(bytes) => {
            let header = "application/vnd.graphbinary-v1.0";
            assert_eq!(bytes[0] as usize, header.len());
            assert_eq!(&bytes[1..1 + header.len()], header.as_bytes());
            assert_eq!(bytes[1 + header.len()], 0x81);
        }
        other => panic!("expected bytes, got {:?}", other),
    }
}

#[test]
fn text_request_is_a_tagged_envelope() {
    let proto = IoProtocol::GraphSONV3;
    let id = Uuid { hi: 0, lo: 0 };
    let (_, payload) = proto
        .build_message("eval".to_string(), "".to_string(), vec![], Some(id))
        .unwrap();
    match payload {
        RequestPayload::Text(Json::Obj(entries)) => {
            assert_eq!(entries[0].0, "requestId");
            assert_eq!(
                entries[0].1,
                Json::Str("00000000-0000-0000-0000-000000000000".to_string())
            );
            assert_eq!(entries[1], ("op".to_string(), Json::Str("eval".to_string())));
            assert_eq!(entries[2], ("processor".to_string(), Json::Str("".to_string())));
        }
        other => panic!("expected a JSON envelope, got {:?}", other),
    }
}

#[test]
fn binary_response_envelope_decodes() {
    // version byte, present request id, code 200, message "ok",
    // two empty maps, and a one-element list as data.
    let mut bytes = vec![0x81, 0x00];
    bytes.extend_from_slice(&[0, 0, 0, 0, 0, 0, 0, 1, 0, 0, 0, 0, 0, 0, 0, 2]);
    bytes.extend_from_slice(&[0, 0, 0, 200]);
    bytes.extend_from_slice(&[0x00, 0, 0, 0, 2, b'o', b'k']);
    bytes.extend_from_slice(&[0, 0, 0, 0]);
    bytes.extend_from_slice(&[0, 0, 0, 0]);
    bytes.extend_from_slice(&[0x09, 0x00, 0, 0, 0, 1, 0x01, 0x00, 0, 0, 0, 42]);
    let proto = IoProtocol::GraphBinaryV1;
    let resp = proto.read_response(&bytes).unwrap();
    assert_eq!(resp.request_id, Uuid { hi: 1, lo: 2 });
    assert_eq!(resp.status.code, 200);
    assert_eq!(resp.status.message, "ok");
    assert_eq!(resp.result.data, Some(GValue::List(vec![GValue::Int32(42)])));
}

#[test]
fn binary_response_with_wrong_version_byte_is_a_cast_error() {
    let bytes = vec![0x80, 0x00, 0, 0, 0, 0, 0, 0, 0, 1, 0, 0, 0, 0, 0, 0, 0, 2];
    let proto = IoProtocol::GraphBinaryV1;
    assert!(matches!(proto.read_response(&bytes), Err(GremlinError::Cast(_))));
}

#[test]
fn content_types_match_the_formats() {
    assert_eq!(IoProtocol::GraphSONV2.content_type(), "application/vnd.gremlin-v2.0+json");
    assert_eq!(IoProtocol::GraphSONV3.content_type(), "application/vnd.gremlin-v3.0+json");
    assert_eq!(IoProtocol::GraphBinaryV1.content_type(), "application/vnd.graphbinary-v1.0");
}
