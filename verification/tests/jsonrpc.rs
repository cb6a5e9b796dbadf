use codex_mic::error::RpcError;
use codex_mic::json::Json;
use codex_mic::jsonrpc::{
    end_reason, parse_incoming, Client, Incoming, LineAction, Notification, Request,
};

fn read(text: &str) -> Json {
    Json::read(text).unwrap()
}

#[test]
fn request_omits_jsonrpc_field() {
    let req = Request {
        method: "thread/realtime/listVoices".into(),
        id: 3,
        params: Json::object().with("threadId", Json::text("thr_1")),
    };
    let s = req.line();
    assert!(!s.contains("jsonrpc"));
    assert_eq!(
        s,
        r#"{"method":"thread/realtime/listVoices","id":3,"params":{"threadId":"thr_1"}}"#
    );
}

#[test]
fn notification_has_no_id() {
    let n = Notification {
        method: "initialized".into(),
        params: Json::object(),
    };
    let s = n.line();
    assert!(!s.contains("id"));
    assert_eq!(s, r#"{"method":"initialized","params":{}}"#);
}

#[test]
fn parse_response_with_result() {
    let v = read(r#"{ "id": 5, "result": { "voices": { "v1": [], "v2": [] } } }"#);
    match parse_incoming(&v).unwrap() {
        Incoming::Response { id, result, error } => {
            assert_eq!(id, 5);
            assert!(error.is_none());
            assert!(result.unwrap().get("voices").is_some());
        }
        _ => panic!("expected Response"),
    }
}

#[test]
fn parse_response_with_error() {
    let v = read(r#"{ "id": 4, "error": { "code": -32600, "message": "nope" } }"#);
    match parse_incoming(&v).unwrap() {
        Incoming::Response { id, result, error } => {
            assert_eq!(id, 4);
            assert!(result.is_none());
            let e = error.unwrap();
            assert_eq!(e.code, -32600);
            assert_eq!(e.message, "nope");
        }
        _ => panic!("expected Response"),
    }
}

#[test]
fn parse_notification() {
    let v = read(r#"{ "method": "thread/realtime/sdp", "params": { "sdp": "v=0" } }"#);
    match parse_incoming(&v).unwrap() {
        Incoming::Notification { method, params } => {
            assert_eq!(method, "thread/realtime/sdp");
            assert_eq!(params.get_str("sdp"), Some("v=0"));
        }
        _ => panic!("expected Notification"),
    }
}

#[test]
fn parse_server_request_has_id_and_method() {
    let v = read(r#"{ "id": 9, "method": "tool/requestUserInput", "params": {} }"#);
    match parse_incoming(&v).unwrap() {
        Incoming::ServerRequest { id, method, .. } => {
            assert_eq!(id, 9);
            assert_eq!(method, "tool/requestUserInput");
        }
        _ => panic!("expected ServerRequest"),
    }
}

#[test]
fn parse_empty_object_is_none() {
    assert!(parse_incoming(&read("{}")).is_none());
}

#[test]
fn messages_at_the_edges() {
    // Without a number a result is no answer.
    assert!(parse_incoming(&read(r#"{"result":{}}"#)).is_none());
    // A number that is no integer is none.
    assert!(matches!(
        parse_incoming(&read(r#"{"id":"x","method":"m"}"#)),
        Some(Incoming::Notification { params: Json::Null, .. })
    ));
    assert!(matches!(
        parse_incoming(&read(r#"{"id":-3,"method":"m","result":null}"#)),
        Some(Incoming::Response { id: -3, result: Some(Json::Null), error: None })
    ));
    match parse_incoming(&read(r#"{"id":1,"error":{"data":[1]}}"#)) {
        Some(Incoming::Response { error: Some(e), .. }) => {
            assert_eq!(e.code, 0);
            assert_eq!(e.message, "");
            assert_eq!(e.data.unwrap().write(), "[1]");
        }
        other => panic!("{other:?}"),
    }
    assert!(parse_incoming(&read(r#"{"id":18446744073709551615}"#)).is_none());
}

#[test]
fn every_line_is_one_line() {
    let mut c = Client::new();
    let (id, line) = c.request("a\nb", Json::text("x\ny"));
    assert_eq!(id, 1);
    assert_eq!(line, r#"{"method":"a\nb","id":1,"params":"x\ny"}"#);
    assert_eq!(c.notify("n", Json::Null), r#"{"method":"n","params":null}"#);
    let line = Request { method: String::new(), id: i64::MIN, params: Json::Null }.line();
    assert_eq!(line, r#"{"method":"","id":-9223372036854775808,"params":null}"#);
}

#[test]
fn request_is_answered_once() {
    let mut c = Client::new();
    let (a, _) = c.request("a", Json::Null);
    let (b, _) = c.request("b", Json::Null);
    assert_eq!((a, b), (1, 2));
    match c.read_line("  {\"id\":2,\"result\":{\"ok\":true}}\r\n") {
        LineAction::Answer { id, result } => {
            assert_eq!(id, 2);
            assert_eq!(result.unwrap().write(), r#"{"ok":true}"#);
        }
        other => panic!("{other:?}"),
    }
    assert!(matches!(c.read_line(r#"{"id":2,"result":1}"#), LineAction::Nothing));
    match c.read_line(r#"{"id":1,"error":{"code":7,"message":"no","data":1}}"#) {
        LineAction::Answer { result: Err(e), .. } => {
            assert_eq!(e.message(), "server error 7: no");
            assert!(matches!(e, RpcError::Server { code: 7, data: Some(_), .. }));
        }
        other => panic!("{other:?}"),
    }
    assert!(c.fail_all().is_empty());
}

#[test]
fn server_requests_get_an_empty_answer() {
    let mut c = Client::new();
    match c.read_line(r#"{"id":9,"method":"m","params":{"p":1}}"#) {
        LineAction::Reply { line, notification } => {
            assert_eq!(line, r#"{"id":9,"result":{}}"#);
            assert_eq!(notification.method, "m");
            assert_eq!(notification.params.write(), r#"{"p":1}"#);
        }
        other => panic!("{other:?}"),
    }
    match c.read_line(r#"{"id":-9,"method":"m"}"#) {
        LineAction::Reply { line, .. } => assert_eq!(line, r#"{"id":-9,"result":{}}"#),
        other => panic!("{other:?}"),
    }
    assert!(matches!(
        c.read_line(r#"{"method":"m"}"#),
        LineAction::Notify(Notification { params: Json::Null, .. })
    ));
}

#[test]
fn lines_that_are_no_messages_are_passed_over() {
    let mut c = Client::new();
    c.request("a", Json::Null);
    for line in ["", "  \n", "warning: x", "{}", "[1]", r#"{"id":5,"result":1}"#] {
        assert!(matches!(c.read_line(line), LineAction::Nothing), "{line}");
    }
    assert_eq!(c.fail_all(), [1]);
}

#[test]
fn requests_that_cannot_be_answered() {
    let mut c = Client::new();
    for m in ["a", "b", "c", "d"] {
        c.request(m, Json::Null);
    }
    assert_eq!(c.request_dropped(2, "b").message(), "disconnected: request b dropped");
    assert_eq!(c.request_timed_out(1).message(), "request timed out after 90s");
    assert!(!c.remove(1));
    assert!(c.remove(3));
    assert_eq!(c.fail_all(), [4]);
    assert!(c.fail_all().is_empty());
    assert_eq!(end_reason(None), "stdout closed");
    assert_eq!(end_reason(Some("eof")), "read error: eof");
    let (id, _) = c.request("e", Json::Null);
    assert_eq!(id, 5);
}
