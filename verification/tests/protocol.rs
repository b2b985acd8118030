use serde_json::Value;
use spice2x_cli::connection::{frame_request, make_cipher, nonempty_payload, prepare_request, refresh_session, Receiver, RetryState, MAX_RETRIES};
use spice2x_cli::error::{IoErrorKind, ProtocolError};
use spice2x_cli::json::{Json, Member};
use spice2x_cli::rc4::Rc4;
use spice2x_cli::request::{Request, RequestIds};
use spice2x_cli::response::Response;

fn to_json(v: &Value) -> Json {
    match v {
        Value::Null => Json::Null,
        Value::Bool(b) => Json::Bool(*b),
        Value::Number(n) => Json::Number(n.to_string()),
        Value::String(s) => Json::Str(s.clone()),
        Value::Array(items) => Json::Array(items.iter().map(to_json).collect()),
        Value::Object(map) => Json::Object(
            map.iter()
                .map(|(k, v)| Member { key: k.clone(), value: to_json(v) })
                .collect(),
        ),
    }
}

/// Decodes a response payload the way the client does, or gives the JSON error's message.
fn decode(bytes: &[u8]) -> Result<Response, String> {
    let v: Value = serde_json::from_slice(bytes).map_err(|e| e.to_string())?;
    let id = v["id"].as_u64().ok_or("missing id")?;
    let errors = v["errors"]
        .as_array()
        .ok_or("missing errors")?
        .iter()
        .map(|e| e.as_str().map(|s| s.to_string()).ok_or("bad error"))
        .collect::<Result<Vec<_>, _>>()?;
    let data = v["data"].as_array().ok_or("missing data")?.iter().map(to_json).collect();
    Ok(Response::new(id, errors, data))
}

fn parse(bytes: &[u8], expected_id: u64) -> Result<Response, ProtocolError> {
    Response::parse(decode(bytes), expected_id)
}

#[test]
fn api_error_displays_message() {
    let err = ProtocolError::Api("not found".into());
    assert_eq!(err.message(), "API error: not found");
}

#[test]
fn id_mismatch_displays_ids() {
    let err = ProtocolError::IdMismatch { expected: 1, actual: 2 };
    assert_eq!(err.message(), "response ID mismatch: expected 1, got 2");
}

#[test]
fn retries_exhausted_displays_count() {
    let inner = ProtocolError::MalformedResponse;
    let err = ProtocolError::RetriesExhausted {
        attempts: 3,
        source: Box::new(inner),
    };
    assert!(err.message().contains("3 attempts"));
}

#[test]
fn messages_of_every_error() {
    assert_eq!(ProtocolError::Connection(IoErrorKind::ConnectionReset, "reset".into()).message(), "connection failed: reset");
    assert_eq!(ProtocolError::Json("oops".into()).message(), "JSON error: oops");
    let nested = ProtocolError::RetriesExhausted {
        attempts: 3,
        source: Box::new(ProtocolError::IdMismatch { expected: 18446744073709551615, actual: 0 }),
    };
    assert_eq!(
        nested.message(),
        "request failed after 3 attempts: response ID mismatch: expected 18446744073709551615, got 0"
    );
    assert_eq!(ProtocolError::MalformedResponse.message(), "malformed response: server returned empty payload");
}

#[test]
fn monotonic_ids_increment() {
    let mut ids = RequestIds::new();
    let r1 = Request::new(&mut ids, "a", "b");
    let r2 = Request::new(&mut ids, "a", "b");
    assert!(r2.id() > r1.id());
    assert_eq!(r1.id(), 1);
}

#[test]
fn with_id_and_params() {
    let mut req = Request::with_id(42, "buttons", "read");
    assert_eq!((req.id(), req.module(), req.function()), (42, "buttons", "read"));
    assert!(req.params().is_empty());
    req.add_param(Json::Number("5".to_string()));
    assert!(matches!(req.params().as_slice(), [Json::Number(n)] if n == "5"));
    let mut ids = RequestIds::new();
    let params = vec![Json::Str("x".to_string()), Json::Null];
    let prepared = prepare_request(&mut ids, "coin", "set", &params);
    assert_eq!((prepared.id(), prepared.params().len()), (1, 2));
    assert_eq!(ids.next_id(), 2);
}

#[test]
fn parses_valid_response() {
    let json = br#"{"id":1,"errors":[],"data":["hello",42]}"#;
    let resp = match parse(json, 1) {
        Ok(r) => r,
        Err(e) => panic!("{}", e.message()),
    };
    assert_eq!(resp.data().len(), 2);
    assert!(matches!(&resp.data()[0], Json::Str(s) if s == "hello"));
    assert!(matches!(&resp.data()[1], Json::Number(n) if n == "42"));
}

#[test]
fn returns_api_error_on_nonempty_errors() {
    let json = br#"{"id":1,"errors":["not found","bad input"],"data":[]}"#;
    match parse(json, 1) {
        Err(ProtocolError::Api(msg)) => {
            assert!(msg.contains("not found"));
            assert_eq!(msg, "not found\nbad input");
        }
        Err(other) => panic!("expected Api error, got: {}", other.message()),
        Ok(_) => panic!("expected Api error"),
    }
}

#[test]
fn returns_id_mismatch() {
    let json = br#"{"id":99,"errors":[],"data":[]}"#;
    match parse(json, 1) {
        Err(ProtocolError::IdMismatch { expected, actual }) => {
            assert_eq!(expected, 1);
            assert_eq!(actual, 99);
        }
        Err(other) => panic!("expected IdMismatch, got: {}", other.message()),
        Ok(_) => panic!("expected IdMismatch"),
    }
}

#[test]
fn returns_json_error_on_invalid_json() {
    let err = match parse(b"not json", 1) {
        Err(e) => e,
        Ok(_) => panic!("expected a JSON error"),
    };
    assert!(matches!(err, ProtocolError::Json(_)));
}

#[test]
fn api_errors_take_precedence_over_id_mismatch() {
    let json = br#"{"id":99,"errors":["boom"],"data":[]}"#;
    assert!(matches!(parse(json, 1), Err(ProtocolError::Api(m)) if m == "boom"));
}

#[test]
fn framed_request_is_received_back_in_chunks() {
    let payload = br#"{"id":1,"module":"coin","function":"get","params":[]}"#.to_vec();
    let mut sender = make_cipher("secret");
    let frame = frame_request(payload.clone(), &mut sender);
    assert_eq!(frame.len(), payload.len() + 1);
    assert_ne!(&frame[..payload.len()], &payload[..]);

    let mut receiver_cipher = make_cipher("secret");
    let mut receiver = Receiver::new();
    let mut chunks: Vec<Vec<u8>> = frame.chunks(7).map(|c| c.to_vec()).collect();
    let last = chunks.len() - 1;
    for (k, chunk) in chunks.iter_mut().enumerate() {
        let r = receiver.absorb(chunk, &mut receiver_cipher);
        match r {
            Ok(None) => assert!(k < last),
            Ok(Some(p)) => {
                assert_eq!(k, last);
                assert_eq!(p, payload);
            }
            Err(_) => panic!("unexpected close"),
        }
    }
}

#[test]
fn plaintext_framing_and_closed_connection() {
    let mut none = make_cipher("");
    assert!(none.is_none());
    let frame = frame_request(b"{}".to_vec(), &mut none);
    assert_eq!(frame, b"{}\0");
    let mut receiver = Receiver::new();
    let mut empty: [u8; 0] = [];
    match receiver.absorb(&mut empty, &mut none) {
        Err(e) => {
            assert!(matches!(e, ProtocolError::Connection(IoErrorKind::ConnectionReset, _)));
            assert_eq!(e.message(), "connection failed: connection closed by server");
        }
        _ => panic!("expected a closed connection"),
    }
    assert!(matches!(nonempty_payload(vec![]), Err(ProtocolError::MalformedResponse)));
    assert!(matches!(nonempty_payload(vec![1]), Ok(p) if p == vec![1]));
}

#[test]
fn make_cipher_matches_rc4() {
    let mut c = make_cipher("pw").unwrap();
    let mut a = [0u8; 5];
    c.crypt(&mut a);
    let mut b = [0u8; 5];
    Rc4::new(b"pw").crypt(&mut b);
    assert_eq!(a, b);
}

#[test]
fn retry_policy() {
    // API errors end the request at once.
    let mut state = RetryState::new();
    assert!(matches!(state.record(Err(ProtocolError::Api("x".into()))), Some(Err(ProtocolError::Api(_)))));
    // Transient errors are retried until the attempts run out.
    let mut state = RetryState::new();
    let mut attempts = 0;
    while state.can_attempt() {
        attempts += 1;
        assert!(state.record(Err(ProtocolError::Connection(IoErrorKind::TimedOut, format!("fail {attempts}")))).is_none());
    }
    // One first attempt and MAX_RETRIES retries.
    assert_eq!(attempts, MAX_RETRIES + 1);
    let err = state.exhausted();
    assert!(matches!(&err, ProtocolError::RetriesExhausted { attempts: 4, .. }));
    assert_eq!(err.message(), "request failed after 4 attempts: connection failed: fail 4");
    // Success after a failure.
    let mut state = RetryState::new();
    assert!(state.record(Err(ProtocolError::MalformedResponse)).is_none());
    assert!(state.can_attempt());
    assert!(matches!(state.record(Ok(vec![Json::Null])), Some(Ok(d)) if d.len() == 1));
}

#[test]
fn session_refresh_switches_password() {
    let mut password = "old".to_string();
    let mut cipher = make_cipher("old");
    refresh_session(&mut password, &mut cipher, &vec![Json::Str("new".to_string())]);
    assert_eq!(password, "new");
    let mut a = [0u8; 3];
    cipher.as_mut().unwrap().crypt(&mut a);
    let mut b = [0u8; 3];
    Rc4::new(b"new").crypt(&mut b);
    assert_eq!(a, b);
    refresh_session(&mut password, &mut cipher, &vec![Json::Number("1".to_string())]);
    assert_eq!(password, "new");
    refresh_session(&mut password, &mut cipher, &vec![Json::Str(String::new())]);
    assert!(cipher.is_none());
}
