//! The JSON-RPC calls to the printer's web server.

use plrd::json::{Json, Kind, Member, Number, Text};
use plrd::moonraker::{
    gcode_script_params, query_objects_params, query_status, Frame, MoonrakerClient, MoonrakerError,
};
use plrd::number::{Num, Reading, Span};
use serde_json::Value;

fn value(text: &str) -> Value {
    serde_json::from_str(text).unwrap()
}

fn canonical(number: f64) -> Option<String> {
    if !number.is_finite() {
        None
    } else if number.abs() < 1e15 && number.fract() == 0.0 {
        Some(format!("{}", number as i64))
    } else {
        Some(format!("{number}"))
    }
}

fn json(v: &Value) -> Json {
    let kind = match v {
        Value::Null => Kind::Null,
        Value::Bool(b) => Kind::Bool(*b),
        Value::Number(n) => {
            let number = n.as_f64().unwrap();
            Kind::Number(Number {
                reading: Reading {
                    num: Num { bits: number.to_bits() },
                    spelling: format!("{number}"),
                },
                integer: n.as_i64().map(i128::from).or(n.as_u64().map(i128::from)),
                canonical: canonical(number),
            })
        }
        Value::String(s) => {
            let collapsed = s.split_whitespace().collect::<Vec<_>>().join(" ");
            Kind::Text(Text {
                value: s.clone(),
                canonical: collapsed.parse::<f64>().ok().and_then(canonical),
            })
        }
        Value::Array(items) => Kind::Array(items.iter().map(json).collect()),
        Value::Object(map) => Kind::Object(members(map)),
    };
    Json { kind, spelling: v.to_string() }
}

fn members(map: &serde_json::Map<String, Value>) -> Vec<Member> {
    map.iter().map(|(key, v)| Member { key: key.clone(), value: json(v) }).collect()
}

const T: u64 = 5;

fn client() -> MoonrakerClient {
    MoonrakerClient::connected(Span::from_secs(T))
}

fn frame(text: &str) -> Frame {
    Frame::Text(Ok(json(&value(text))))
}

/// The reply of the server, after a notification that is passed over.
fn reply(client: &MoonrakerClient, id: u64, method: &str, text: &str) -> Result<Json, MoonrakerError> {
    let noise = frame("{\"jsonrpc\":\"2.0\",\"method\":\"notify_gcode_response\",\"params\":[]}");
    assert!(client.on_frame(id, method, noise).is_none());
    client.on_frame(id, method, frame(text)).unwrap()
}

#[test]
fn call_round_trips_and_skips_notifications() {
    let mut client = client();
    for expected in 1..=2 {
        let (id, request) = client.begin_call("printer.info", None);
        assert_eq!(id, expected);
        let request = value(&request);
        assert_eq!(request["jsonrpc"], "2.0");
        assert_eq!(request["method"], "printer.info");
        assert_eq!(request["id"], id);
        assert!(request.get("params").is_none());
        let text = format!("{{\"jsonrpc\":\"2.0\",\"id\":{id},\"result\":{{\"state\":\"ready\"}}}}");
        let info = reply(&client, id, "printer.info", &text).unwrap();
        assert_eq!(info.spelling, "{\"state\":\"ready\"}");
        let other = frame(&format!("{{\"id\":{},\"result\":1}}", id + 1));
        assert!(client.on_frame(id, "printer.info", other).is_none());
    }
}

#[test]
fn rpc_errors_map_to_typed_errors() {
    let mut client = client();
    let (id, _) =
        client.begin_call("printer.gcode.script", Some(&gcode_script_params("G28 X Y")));
    let text = format!(
        "{{\"id\":{id},\"error\":{{\"code\":400,\"message\":\"Klippy is shutdown\"}}}}"
    );
    match reply(&client, id, "printer.gcode.script", &text).unwrap_err() {
        MoonrakerError::Rpc { method, code, message } => {
            assert_eq!(method, "printer.gcode.script");
            assert_eq!(code, 400);
            assert!(message.contains("shutdown"));
        }
        other => panic!("expected Rpc error, got {other:?}"),
    }
}

#[test]
fn query_objects_extracts_status() {
    let mut client = client();
    let params = query_objects_params(vec!["webhooks".to_owned()]);
    let (id, request) = client.begin_call("printer.objects.query", Some(&params));
    let request = value(&request);
    assert_eq!(request["params"]["objects"]["webhooks"], Value::Null);
    let text = format!(
        "{{\"id\":{id},\"result\":{{\"eventtime\":1.0,\"status\":{{\"webhooks\":
         {{\"state\":\"ready\"}}}}}}}}"
    );
    let result = reply(&client, id, "printer.objects.query", &text).unwrap();
    let status = query_status(result).unwrap();
    assert_eq!(status.spelling, "{\"webhooks\":{\"state\":\"ready\"}}");
    match query_status(json(&value("{\"eventtime\":1.0}"))).unwrap_err() {
        MoonrakerError::Protocol(why) => assert_eq!(why, "query result without status"),
        other => panic!("{other:?}"),
    }
}

#[test]
fn queried_objects_stand_once_and_in_order() {
    let params = query_objects_params(vec![
        "webhooks".to_owned(),
        "print_stats".to_owned(),
        "webhooks".to_owned(),
    ]);
    assert_eq!(params, "{\"objects\":{\"print_stats\":null,\"webhooks\":null}}");
}

#[test]
fn gcode_script_sends_the_exact_script() {
    let mut client = client();
    let params = gcode_script_params("SET_IDLE_TIMEOUT TIMEOUT=86400");
    let (_, request) = client.begin_call("printer.gcode.script", Some(&params));
    let request = value(&request);
    assert_eq!(request["method"], "printer.gcode.script");
    assert_eq!(request["params"]["script"], "SET_IDLE_TIMEOUT TIMEOUT=86400");
    let quoted = value(&gcode_script_params("M117 \"hi\"\nM118 \\"));
    assert_eq!(quoted["script"], "M117 \"hi\"\nM118 \\");
    assert_eq!(
        gcode_script_params("\u{1}\u{1f}\u{8}\u{c}\t\r\u{7f}\u{e9}/"),
        "{\"script\":\"\\u0001\\u001f\\b\\f\\t\\r\u{7f}\u{e9}/\"}"
    );
}

#[test]
fn a_broken_connection_ends_the_call() {
    let client = client();
    let error = |f: Frame| client.on_frame(1, "m", f).unwrap().unwrap_err().message();
    assert_eq!(error(Frame::Ended), "moonraker closed the connection");
    assert_eq!(error(Frame::Close), "moonraker closed the connection");
    assert_eq!(error(Frame::Failed("reset".to_owned())), "moonraker connection: reset");
    assert!(error(Frame::Text(Err("expected value".to_owned()))).contains("non-JSON frame"));
    assert!(client.on_frame(1, "m", Frame::Other).is_none());
    let timeout = client.timed_out("printer.info").message();
    assert!(timeout.contains("printer.info"), "{timeout}");
    assert!(timeout.contains("timed out"), "{timeout}");
    assert!(timeout.contains('5'), "{timeout}");
}

#[test]
fn the_call_timeout_can_be_set() {
    let mut client = client();
    client.set_call_timeout(Span::from_millis(300));
    assert_eq!(client.call_timeout, Span::from_millis(300));
    assert_eq!(client.next_id, 1);
}
