use base64::Engine;
use serde_json::{Number, Value};
use spice2x_cli::cli::{CardAction, CoinAction, ControlAction, InfoAction, KeypadsAction, LightsAction};
use spice2x_cli::commands::{analogs, buttons, capture, card, coin, control, format_states, info, keypads, lights};
use spice2x_cli::error::{CommandError, IoErrorKind, ProtocolError};
use spice2x_cli::json::{Json, Member};

fn to_json(v: &Value) -> Json {
    match v {
        Value::Null => Json::Null,
        Value::Bool(b) => Json::Bool(*b),
        Value::Number(n) => Json::Number(n.to_string()),
        Value::String(s) => Json::Str(s.clone()),
        Value::Array(items) => Json::Array(items.iter().map(to_json).collect()),
        Value::Object(map) => Json::Object(
            map.iter()
                .map(|(k, v)| Member { key: k.clone(), value: to_json(v) })
                .collect(),
        ),
    }
}

fn to_value(j: &Json) -> Value {
    match j {
        Json::Null => Value::Null,
        Json::Bool(b) => Value::Bool(*b),
        Json::Number(text) => serde_json::from_str(text).unwrap(),
        Json::Str(s) => Value::String(s.clone()),
        Json::Array(items) => Value::Array(items.iter().map(to_value).collect()),
        Json::Object(members) => {
            let mut map = serde_json::Map::new();
            for m in members {
                map.insert(m.key.clone(), to_value(&m.value));
            }
            Value::Object(map)
        }
    }
}

fn s(text: &str) -> Value {
    Value::String(text.to_string())
}

fn float(x: f64) -> Value {
    Value::Number(Number::from_f64(x).unwrap())
}

fn array(items: Vec<Value>) -> Value {
    Value::Array(items)
}

fn object(members: &[(&str, Value)]) -> Value {
    let mut map = serde_json::Map::new();
    for (k, v) in members {
        map.insert(k.to_string(), v.clone());
    }
    Value::Object(map)
}

fn data(items: Vec<Value>) -> Vec<Json> {
    items.iter().map(to_json).collect()
}

fn params(call: &spice2x_cli::commands::Call) -> Vec<Value> {
    call.params.iter().map(to_value).collect()
}

#[test]
fn analogs_format_states_converts_tuples_to_objects() {
    let data = data(vec![
        array(vec![s("TURNTABLE"), float(0.5), Value::Bool(false)]),
        array(vec![s("SLIDER"), float(0.75), Value::Bool(true)]),
    ]);
    let result = to_value(&format_states(&data));
    let arr = result.as_array().unwrap();
    assert_eq!(arr.len(), 2);
    assert_eq!(arr[0]["name"], "TURNTABLE");
    assert_eq!(arr[0]["state"], 0.5);
    assert_eq!(arr[1]["name"], "SLIDER");
    assert_eq!(arr[1]["active"], true);
}

#[test]
fn analogs_write_param_format() {
    let call = analogs::write_call("TURNTABLE".to_string(), to_json(&float(0.5)));
    assert_eq!(call.module, "analogs");
    assert_eq!(call.function, "write");
    let param = &params(&call)[0];
    assert_eq!(param[0], "TURNTABLE");
    assert_eq!(param[1], 0.5);
}

#[test]
fn buttons_format_states_converts_tuples_to_objects() {
    let data = data(vec![
        array(vec![s("BT_A"), float(0.0), Value::Bool(false)]),
        array(vec![s("BT_B"), float(1.0), Value::Bool(true)]),
    ]);
    let result = to_value(&format_states(&data));
    let arr = result.as_array().unwrap();
    assert_eq!(arr.len(), 2);
    assert_eq!(arr[0]["name"], "BT_A");
    assert_eq!(arr[0]["state"], 0.0);
    assert_eq!(arr[0]["active"], false);
    assert_eq!(arr[1]["name"], "BT_B");
    assert_eq!(arr[1]["state"], 1.0);
    assert_eq!(arr[1]["active"], true);
}

#[test]
fn format_states_skips_malformed_entries() {
    let data = data(vec![s("not an array"), array(vec![s("BT_A"), float(0.0), Value::Bool(false)])]);
    let result = to_value(&format_states(&data));
    assert_eq!(result.as_array().unwrap().len(), 1);
}

#[test]
fn format_states_skips_short_tuples_and_keeps_extra_items_out() {
    let data = data(vec![
        array(vec![s("A"), Value::from(1)]),
        array(vec![s("B"), Value::from(2), Value::Bool(true), s("extra")]),
    ]);
    let result = to_value(&format_states(&data));
    assert_eq!(result, Value::Array(vec![object(&[("active", Value::Bool(true)), ("name", s("B")), ("state", Value::from(2))])]));
}

#[test]
fn buttons_write_param_format() {
    // Server expects params: [["name", state]]
    let call = buttons::write_call("BT_A".to_string(), to_json(&float(1.0)));
    let param = &params(&call)[0];
    assert_eq!(param[0], "BT_A");
    assert_eq!(param[1], 1.0);
}

#[test]
fn write_reset_param_format() {
    // Server expects params: [["name1"], ["name2"]] or [] for all
    let names = vec!["BT_A".to_string(), "BT_B".to_string()];
    let params = params(&buttons::write_reset_call(&names));
    assert_eq!(params.len(), 2);
    assert_eq!(params[0][0], "BT_A");
    assert_eq!(params[1][0], "BT_B");
}

#[test]
fn write_reset_no_names_sends_empty_params() {
    let names: Vec<String> = vec![];
    let params = params(&buttons::write_reset_call(&names));
    assert!(params.is_empty());
}

#[test]
fn buttons_read_call_has_no_params() {
    let call = buttons::read_call();
    assert_eq!((call.module.as_str(), call.function.as_str()), ("buttons", "read"));
    assert!(call.params.is_empty());
}

#[test]
fn base64_decode_roundtrip() {
    let original = b"fake jpeg data";
    let encoded = base64::engine::general_purpose::STANDARD.encode(original);
    let decoded = match capture::decode_image(&encoded) {
        Ok(bytes) => bytes,
        Err(_) => panic!("expected valid base64"),
    };
    assert_eq!(decoded, original);
}

#[test]
fn response_data_shape() {
    // Server returns [timestamp, width, height, base64_string]
    let data = vec![
        Value::from(1234567890_u64),
        Value::from(1920),
        Value::from(1080),
        s("dGVzdA=="),
    ];
    assert!(data[3].as_str().is_some());
    let decoded = match capture::decode_image(data[3].as_str().unwrap()) {
        Ok(bytes) => bytes,
        Err(_) => panic!("expected valid base64"),
    };
    assert_eq!(decoded, b"test");
}

fn jpg_reply() -> Vec<Json> {
    data(vec![Value::from(1234567890_u64), Value::from(1920), Value::from(1080), s("dGVzdA==")])
}

#[test]
fn get_jpg_saves_into_default_folder() {
    match capture::finish_jpg(Ok(jpg_reply()), None, None, false, "capture_20240101_120000.jpg".to_string()) {
        Ok(capture::JpgOutcome::Save { folder, path, jpeg, report }) => {
            assert_eq!(folder.as_deref(), Some("capture"));
            assert_eq!(path, "capture/capture_20240101_120000.jpg");
            assert_eq!(jpeg, b"test");
            assert_eq!(
                to_value(&report),
                object(&[("file", s("capture/capture_20240101_120000.jpg")), ("width", Value::from(1920)), ("height", Value::from(1080))])
            );
        }
        _ => panic!("expected a file to save"),
    }
}

#[test]
fn get_jpg_trims_folder_slashes_and_honours_path() {
    match capture::finish_jpg(Ok(jpg_reply()), None, Some("/tmp/caps//".to_string()), false, "x.jpg".to_string()) {
        Ok(capture::JpgOutcome::Save { folder, path, .. }) => {
            assert_eq!(folder.as_deref(), Some("/tmp/caps//"));
            assert_eq!(path, "/tmp/caps/x.jpg");
        }
        _ => panic!("expected a file to save"),
    }
    match capture::finish_jpg(Ok(jpg_reply()), Some("shot.jpg".to_string()), None, false, "x.jpg".to_string()) {
        Ok(capture::JpgOutcome::Save { folder, path, .. }) => {
            assert!(folder.is_none());
            assert_eq!(path, "shot.jpg");
        }
        _ => panic!("expected a file to save"),
    }
}

#[test]
fn get_jpg_base64_mode_and_errors() {
    match capture::finish_jpg(Ok(jpg_reply()), None, None, true, "x.jpg".to_string()) {
        Ok(capture::JpgOutcome::Print(j)) => assert_eq!(to_value(&j), s("dGVzdA==")),
        _ => panic!("expected the base64 text"),
    }
    let short = data(vec![Value::from(1), Value::from(2), Value::from(3)]);
    match capture::finish_jpg(Ok(short), None, None, true, "x.jpg".to_string()) {
        Err(e) => assert_eq!(e.message(), "missing base64 data in capture response"),
        _ => panic!("expected missing data"),
    }
    let bad = data(vec![Value::from(1), Value::from(2), Value::from(3), s("***")]);
    let expected = base64::engine::general_purpose::STANDARD.decode("***").unwrap_err().to_string();
    match capture::finish_jpg(Ok(bad), None, None, false, "x.jpg".to_string()) {
        Err(CommandError::InvalidImageData(m)) => assert_eq!(m, expected),
        _ => panic!("expected invalid base64"),
    }
}

#[test]
fn insert_param_format() {
    let unit = 0u32;
    let card_id = "E004123456789ABC";
    let params = params(&card::call(&CardAction::Insert { unit, card_id: card_id.to_string() }));
    assert_eq!(params[0], 0);
    assert_eq!(params[1], "E004123456789ABC");
}

#[test]
fn insert_default_sends_no_params() {
    let params = params(&coin::call(&CoinAction::Insert { amount: 1 }));
    assert!(params.is_empty());
}

#[test]
fn insert_custom_sends_amount() {
    let amount = 5u32;
    let params = params(&coin::call(&CoinAction::Insert { amount }));
    assert_eq!(params.len(), 1);
    assert_eq!(params[0], 5);
}

#[test]
fn coin_get_takes_first_datum_or_fails_on_empty() {
    let r = coin::finish(&CoinAction::Get, Ok(data(vec![Value::from(7), Value::from(8)])));
    match r {
        Ok(j) => assert_eq!(to_value(&j), Value::from(7)),
        Err(_) => panic!("expected the coin count"),
    }
    match coin::finish(&CoinAction::Get, Ok(vec![])) {
        Err(e) => assert_eq!(e.message(), "empty response from coin get"),
        Ok(_) => panic!("expected an error"),
    }
    let set = params(&coin::call(&CoinAction::SetAmount { amount: 4294967295 }));
    assert_eq!(set, vec![Value::from(4294967295u64)]);
}

#[test]
fn connection_error_is_expected_for_destructive_commands() {
    // Destructive control commands (exit, restart, shutdown, reboot) expect
    // the server to close the connection. Connection errors should be suppressed.
    let err = ProtocolError::Connection(IoErrorKind::ConnectionReset, "connection closed".to_string());
    assert!(matches!(err, ProtocolError::Connection(..)));
    for action in [ControlAction::Exit { code: 0 }, ControlAction::Restart, ControlAction::Shutdown, ControlAction::Reboot] {
        let err = ProtocolError::Connection(IoErrorKind::ConnectionReset, "connection closed".to_string());
        assert!(matches!(control::finish(&action, Err(err)), Ok(Json::Null)));
    }
}

#[test]
fn api_error_should_not_be_suppressed() {
    // API-level errors (e.g., unknown signal) should propagate, not be suppressed.
    let err = ProtocolError::Api("unknown signal".into());
    assert!(matches!(err, ProtocolError::Api(_)));
    assert!(!matches!(err, ProtocolError::Connection(..)));
    let r = control::finish(&ControlAction::Shutdown, Err(err));
    assert!(matches!(r, Err(CommandError::Protocol(ProtocolError::Api(_)))));
    let r = control::finish(&ControlAction::Raise { signal: "SIGINT".to_string() }, Err(ProtocolError::Connection(IoErrorKind::ConnectionReset, "reset".to_string())));
    assert!(matches!(r, Err(CommandError::Protocol(ProtocolError::Connection(..)))));
}

#[test]
fn exit_code_params() {
    assert!(params(&control::call(&ControlAction::Exit { code: 0 })).is_empty());
    assert_eq!(params(&control::call(&ControlAction::Exit { code: -3 })), vec![Value::from(-3)]);
    assert_eq!(params(&control::call(&ControlAction::Raise { signal: "SIGTERM".to_string() })), vec![s("SIGTERM")]);
}

#[test]
fn avs_response_shape() {
    // Server returns data[0] as object with these fields
    let data = data(vec![object(&[
        ("model", s("LDJ")),
        ("dest", s("J")),
        ("spec", s("A")),
        ("rev", s("L")),
        ("ext", s("2024090200")),
        ("services", s("http://example.com")),
    ])]);
    let result = match info::finish(&InfoAction::Avs, Ok(data)) {
        Ok(j) => to_value(&j),
        Err(_) => panic!("expected data"),
    };
    assert_eq!(result["model"], "LDJ");
    assert_eq!(result["dest"], "J");
}

#[test]
fn launcher_response_shape() {
    let data = data(vec![object(&[
        ("version", s("2.4.0")),
        ("compile_date", s("Jan 01 2024")),
        ("compile_time", s("12:00:00")),
        ("system_time", s("2024-09-02T10:30:00Z")),
        ("args", array(vec![s("-ea"), s("-io")])),
    ])]);
    let result = match info::finish(&InfoAction::Launcher, Ok(data)) {
        Ok(j) => to_value(&j),
        Err(_) => panic!("expected data"),
    };
    assert_eq!(result["version"], "2.4.0");
    assert!(result["args"].is_array());
}

#[test]
fn memory_response_shape() {
    let data = data(vec![object(&[
        ("mem_total", Value::from(16000000000_u64)),
        ("mem_total_used", Value::from(8000000000_u64)),
        ("mem_used", Value::from(500000000_u64)),
        ("vmem_total", Value::from(32000000000_u64)),
        ("vmem_total_used", Value::from(4000000000_u64)),
        ("vmem_used", Value::from(200000000_u64)),
    ])]);
    let result = match info::finish(&InfoAction::Memory, Ok(data)) {
        Ok(j) => to_value(&j),
        Err(_) => panic!("expected data"),
    };
    assert!(result["mem_total"].is_number());
    assert!(result["vmem_used"].is_number());
}

#[test]
fn info_empty_response_names_function() {
    match info::finish(&InfoAction::Memory, Ok(vec![])) {
        Err(e) => assert_eq!(e.message(), "empty response from info memory"),
        Ok(_) => panic!("expected an error"),
    }
    let call = info::call(&InfoAction::Launcher);
    assert_eq!((call.module.as_str(), call.function.as_str()), ("info", "launcher"));
}

#[test]
fn get_response_is_array_of_pressed_keys() {
    // Server returns one data element per pressed key (single-char strings)
    let data = data(vec![s("1"), s("3"), s("A")]);
    let result = match keypads::finish(&KeypadsAction::Get { keypad: 0 }, Ok(data)) {
        Ok(j) => to_value(&j),
        Err(_) => panic!("expected data"),
    };
    let keys = result.as_array().unwrap();
    assert_eq!(keys.len(), 3);
    assert_eq!(keys[0], "1");
}

#[test]
fn set_param_format() {
    let keypad = 0u32;
    let keys = vec!["1".to_string(), "2".to_string(), "A".to_string()];
    let params = params(&keypads::call(&KeypadsAction::SetKeys { keypad, keys }));
    assert_eq!(params, vec![Value::from(0), s("1"), s("2"), s("A")]);
}

#[test]
fn format_states_converts_tuples() {
    let data = data(vec![
        array(vec![s("TOP_LED"), float(1.0), Value::Bool(true)]),
        array(vec![s("SIDE_LED"), float(0.0), Value::Bool(false)]),
    ]);
    let result = match lights::finish(&LightsAction::Read { names: vec![] }, Ok(data)) {
        Ok(j) => to_value(&j),
        Err(_) => panic!("expected data"),
    };
    let arr = result.as_array().unwrap();
    assert_eq!(arr.len(), 2);
    assert_eq!(arr[0]["name"], "TOP_LED");
    assert_eq!(arr[0]["state"], 1.0);
    assert_eq!(arr[1]["active"], false);
}

#[test]
fn name_filter_param_format() {
    let names = vec!["TOP".to_string(), "SIDE".to_string()];
    let params = params(&lights::call(&LightsAction::Read { names }));
    assert_eq!(params, vec![s("TOP"), s("SIDE")]);
}
