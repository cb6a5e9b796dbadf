use codex_mic::error::{write_duration, RpcError};
use codex_mic::json::Json;
use std::time::Duration;

#[test]
fn durations_read_as_std_writes_them() {
    for ms in [0, 1, 10, 999, 1_000, 1_001, 1_010, 1_500, 15_000, 90_000, 123_456, u64::MAX] {
        assert_eq!(write_duration(ms), format!("{:?}", Duration::from_millis(ms)));
    }
}

#[test]
fn each_error_says_what_it_is() {
    for (e, text) in [
        (RpcError::Io("x".into()), "io: x"),
        (RpcError::Json("x".into()), "json: x"),
        (RpcError::Disconnected("x".into()), "disconnected: x"),
        (RpcError::Timeout(15_000), "request timed out after 15s"),
        (RpcError::Spawn("x".into()), "failed to spawn codex: x"),
        (
            RpcError::Server { code: -1, message: "x".into(), data: Some(Json::Null) },
            "server error -1: x",
        ),
    ] {
        assert_eq!(e.message(), text);
    }
}
