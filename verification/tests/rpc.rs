use wind_portable::rpc::{
    call, ctrl_endpoint, ctrl_socket, frame_len, is_running, read_frame, request_frame,
    request_payload, try_shutdown, write_frame, Exchange, FrameError, Input, MAX_FRAME,
    STATUS_METHOD,
};
use wind_portable::variant::Variant;

#[test]
fn frame_roundtrip() {
    let mut buf: Vec<u8> = Vec::new();
    write_frame(&mut buf, b"hello");
    assert_eq!(&buf[..4], &5u32.to_be_bytes());
    let mut cur = Input::new(buf);
    let got = read_frame(&mut cur).unwrap();
    assert_eq!(got, b"hello");
}

#[test]
fn read_frame_rejects_oversize() {
    let mut buf: Vec<u8> = Vec::new();
    buf.extend_from_slice(&(MAX_FRAME + 1).to_be_bytes());
    let mut cur = Input::new(buf);
    assert!(read_frame(&mut cur).is_err());
}

/// Sends a request to a service that answers with the given value, and returns what was sent and
/// what came of it.
fn exchange(resp: &serde_json::Value) -> (Vec<u8>, Result<String, String>) {
    let written = request_frame("system.status", "{}");
    let payload = serde_json::to_vec(resp).unwrap();
    let mut framed = Vec::new();
    write_frame(&mut framed, &payload);
    let mut input = Input::new(framed);
    let body = read_frame(&mut input).unwrap();
    let parsed: serde_json::Value = serde_json::from_slice(&body).unwrap();
    let x = Exchange::Answered {
        result: parsed.get("result").map(|v| v.to_string()),
        error: parsed.get("error").and_then(|v| v.as_str()).map(|s| s.to_string()),
    };
    (written, call("", x))
}

fn object(pairs: Vec<(&str, serde_json::Value)>) -> serde_json::Value {
    let mut m = serde_json::Map::new();
    for (k, v) in pairs {
        m.insert(k.to_string(), v);
    }
    serde_json::Value::Object(m)
}

#[test]
fn call_on_stream_parses_result() {
    let result = object(vec![("chinese", serde_json::Value::Bool(true))]);
    let resp = object(vec![
        ("id", serde_json::Value::from(1)),
        ("result", result.clone()),
    ]);
    let (sent, outcome) = exchange(&resp);
    let got: serde_json::Value = serde_json::from_str(&outcome.unwrap()).unwrap();
    assert_eq!(got, result);
    let written = String::from_utf8_lossy(&sent).to_string();
    assert!(written.contains("system.status"));
    assert!(written.contains("\"version\":1"));
}

#[test]
fn call_on_stream_surfaces_error() {
    let resp = object(vec![
        ("id", serde_json::Value::from(1)),
        ("error", serde_json::Value::from("boom")),
    ]);
    let (_, outcome) = exchange(&resp);
    let err = outcome.unwrap_err();
    assert_eq!(err, "boom");
}

#[test]
fn request_on_the_wire() {
    let payload = request_payload(STATUS_METHOD, "{}");
    assert_eq!(
        String::from_utf8(payload.clone()).unwrap(),
        "{\"version\":1,\"id\":1,\"method\":\"system.status\",\"params\":{}}"
    );
    let frame = request_frame(STATUS_METHOD, "{}");
    assert_eq!(&frame[..4], &(payload.len() as u32).to_be_bytes());
    assert_eq!(&frame[4..], &payload[..]);
}

#[test]
fn method_names_are_escaped() {
    let odd = "a\"b\\c\n\u{1}\u{1f}é\u{7f}";
    let payload = request_payload(odd, "null");
    assert_eq!(
        String::from_utf8(payload.clone()).unwrap(),
        "{\"version\":1,\"id\":1,\"method\":\"a\\\"b\\\\c\\n\\u0001\\u001fé\u{7f}\",\"params\":null}"
    );
    let parsed: serde_json::Value = serde_json::from_slice(&payload).unwrap();
    assert_eq!(parsed.get("method").unwrap(), odd);
    let rest = request_payload("\u{8}\t\u{c}\r", "0");
    assert_eq!(
        String::from_utf8(rest).unwrap(),
        "{\"version\":1,\"id\":1,\"method\":\"\\b\\t\\f\\r\",\"params\":0}"
    );
}

#[test]
fn frames_among_other_bytes() {
    let mut buf = Vec::new();
    write_frame(&mut buf, b"one");
    write_frame(&mut buf, b"");
    buf.extend_from_slice(&[0, 0, 0]);
    let mut input = Input::new(buf);
    assert_eq!(read_frame(&mut input).unwrap(), b"one");
    assert_eq!(read_frame(&mut input).unwrap(), b"");
    assert_eq!(input.pos, 11);
    assert_eq!(read_frame(&mut input).unwrap_err(), FrameError::Short);
    assert_eq!(input.pos, 11);
}

#[test]
fn short_payload() {
    let mut input = Input::new(vec![0, 0, 0, 2, 9]);
    assert_eq!(read_frame(&mut input).unwrap_err(), FrameError::Short);
    assert_eq!(input.pos, 4);
}

#[test]
fn frame_lengths() {
    assert_eq!(frame_len(&[0, 0, 1, 2]), Ok(258));
    assert_eq!(frame_len(&[1, 0, 0, 0]), Ok(16 * 1024 * 1024));
    assert_eq!(frame_len(&[1, 0, 0, 1]), Err(FrameError::TooLarge(16777217)));
    assert_eq!(
        frame_len(&[255, 255, 255, 255]).unwrap_err().message(),
        "帧过大: 4294967295 字节"
    );
    assert_eq!(FrameError::Short.message(), "failed to fill whole buffer");
}

#[test]
fn endpoints() {
    assert_eq!(ctrl_endpoint(&Variant::new(false)), r"\\.\pipe\wind_input_ctrl");
    assert_eq!(ctrl_endpoint(&Variant::new(true)), r"\\.\pipe\wind_input_dev_ctrl");
    assert_eq!(
        ctrl_socket(&Variant::new(true), Some("/run/user/1000")),
        "/run/user/1000/wind_input_dev_ctrl.sock"
    );
    assert_eq!(ctrl_socket(&Variant::new(false), None), "/tmp/wind_input_ctrl.sock");
}

fn answered(result: Option<&str>, error: Option<&str>) -> Exchange {
    Exchange::Answered {
        result: result.map(|s| s.to_string()),
        error: error.map(|s| s.to_string()),
    }
}

#[test]
fn outcomes_of_an_exchange() {
    let e = || "x".to_string();
    assert_eq!(
        call("ep", Exchange::NotConnected(e())).unwrap_err(),
        "连接 core 失败 (ep): x"
    );
    assert_eq!(call("ep", Exchange::NotSent(e())).unwrap_err(), "发送失败: x");
    assert_eq!(call("ep", Exchange::NotReceived(e())).unwrap_err(), "读取失败: x");
    assert_eq!(call("ep", Exchange::NotParsed(e())).unwrap_err(), "解析响应失败: x");
    assert_eq!(call("ep", answered(None, None)).unwrap(), "null");
    assert_eq!(call("ep", answered(Some("{}"), None)).unwrap(), "{}");
    assert_eq!(call("ep", answered(Some("{}"), Some("no"))).unwrap_err(), "no");
}

#[test]
fn success_means_running() {
    let v = Variant::new(false);
    assert!(is_running(&v, answered(None, None)));
    assert!(!is_running(&v, answered(None, Some("no"))));
    assert!(!is_running(&v, Exchange::NotConnected("gone".to_string())));
    assert!(try_shutdown(&v, answered(Some("1"), None)));
    assert!(!try_shutdown(&v, Exchange::NotReceived("gone".to_string())));
}
