use codex_mic::codex::{
    forward, home_candidate, map_event, profile_candidate, resolve_codex_bin, CodexSession,
    Handshake, APP_SERVER_ARGS,
};
use codex_mic::json::Json;
use codex_mic::jsonrpc::Notification;

#[test]
fn program_is_looked_for_in_order() {
    assert_eq!(resolve_codex_bin(Some("x"), Some("P"), true, Some("H"), true), "x");
    assert_eq!(
        resolve_codex_bin(None, Some("P"), true, Some("H"), true),
        "P\\.codex\\packages\\standalone\\current\\bin\\codex.exe"
    );
    assert_eq!(
        resolve_codex_bin(None, Some("P"), false, Some("H"), true),
        "H/.codex/packages/standalone/current/bin/codex"
    );
    assert_eq!(resolve_codex_bin(None, Some("P"), false, Some("H"), false), "codex");
    assert_eq!(resolve_codex_bin(None, None, true, None, true), "codex");
    assert!(profile_candidate("P").ends_with("codex.exe"));
    assert!(home_candidate("H").starts_with("H/.codex/"));
    assert_eq!(APP_SERVER_ARGS[0], "app-server");
    assert_eq!(
        APP_SERVER_ARGS[8],
        r#"experimental_realtime_webrtc_call_base_url="https://api.openai.com/v1""#
    );
}

#[test]
fn handshake_opens_a_thread() {
    let (mut h, call) = Handshake::begin("0.1.0");
    assert_eq!(call.method, "initialize");
    assert_eq!(
        call.params.write(),
        r#"{"capabilities":{"experimentalApi":true},"clientInfo":{"name":"codex_mic","title":"Codex Mic","version":"0.1.0"}}"#
    );
    let (note, call) = h.on_initialized(&Json::read(r#"{"userAgent":"ua"}"#).unwrap());
    assert_eq!(note.method, "initialized");
    assert_eq!(note.params.write(), "{}");
    assert_eq!(call.method, "thread/start");
    assert_eq!(call.params.write(), r#"{"ephemeral":true}"#);
    let (session, info) = h.on_thread(&Json::read(r#"{"thread":{"id":"t1"}}"#).unwrap()).unwrap();
    assert_eq!(session.thread_id(), "t1");
    assert_eq!(info.thread_id, "t1");
    assert_eq!(info.user_agent, "ua");
    assert_eq!(info.auth_mode, "chatgpt");
}

#[test]
fn handshake_without_a_thread_fails() {
    let (mut h, _) = Handshake::begin("0");
    h.on_initialized(&Json::Null);
    assert_eq!(h.user_agent, "");
    assert_eq!(
        h.on_thread(&Json::object()).unwrap_err().message(),
        "failed to spawn codex: thread/start returned no thread.id"
    );
}

#[test]
fn transport_is_started_and_stopped() {
    let s = CodexSession { thread_id: "t".into() };
    let call = s.realtime_start("v=0");
    assert_eq!(call.method, "thread/realtime/start");
    assert_eq!(
        call.params.write(),
        r#"{"clientManagedHandoffs":true,"outputModality":"text","threadId":"t","transport":{"sdp":"v=0","type":"webrtc"}}"#
    );
    let call = s.realtime_stop();
    assert_eq!(call.method, "thread/realtime/stop");
    assert_eq!(call.params.write(), r#"{"threadId":"t"}"#);
}

#[test]
fn notifications_become_events() {
    for (method, event) in [
        ("thread/realtime/started", Some("realtime://started")),
        ("thread/realtime/transcript/delta", Some("realtime://transcript-delta")),
        ("thread/realtime/transcript/done", Some("realtime://transcript-done")),
        ("thread/realtime/error", Some("realtime://error")),
        ("thread/realtime/closed", Some("realtime://closed")),
        ("warning", Some("codex://warning")),
        ("thread/realtime/sdp", None),
    ] {
        assert_eq!(map_event(method), event);
        let n = Notification { method: method.into(), params: Json::Unsigned(1) };
        let (mapped, whole) = forward(&n);
        assert_eq!(mapped.map(|(name, p)| (name, p.write())), event.map(|e| (e, "1".to_string())));
        assert_eq!(whole.0, "codex://notification");
        assert_eq!(whole.1.write(), format!(r#"{{"method":"{method}","params":1}}"#));
    }
}
