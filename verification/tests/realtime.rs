use codex_mic::auth::OAuthTokens;
use codex_mic::config::Language;
use codex_mic::dictate;
use codex_mic::error::RpcError;
use codex_mic::json::Json;
use codex_mic::realtime::{
    append_pcm, append_silence, closing_notification, debug_transcript,
    default_realtime_model, default_transcription_model, dictation_instructions, flush_tail,
    handle_event, instructions, io_step, is_usable, list_realtime_models,
    list_transcribe_models, manual_turns, model_transcription, react, realtime_model,
    realtime_ws_url, refine_text, respond, silence_pcm, stale_after, supports_prompt,
    transcribe_committed_audio, transcription_language, transcription_model,
    transcription_prompt, Collector, ConnectAction, ConnectEvent, Connecting, IoAction, IoEvent,
    Notification, Reaction, SessionConfig, REALTIME_MODELS, TRANSCRIPTION_MODEL,
    TRANSCRIPTION_MODELS,
};

fn config() -> SessionConfig {
    SessionConfig::choose_from(None, "", None, None, Language::Auto, None)
}

fn handle(payload: &str) -> Reaction {
    handle_event(payload, &config(), false)
}

fn map_event(payload: &str) -> Vec<(String, Json)> {
    handle(payload)
        .notify
        .into_iter()
        .map(|n| (n.method, n.params))
        .collect()
}

#[test]
fn transcription_delta_maps_to_user_delta() {
    let out = map_event(
        r#"{"type":"conversation.item.input_audio_transcription.delta","delta":"안녕"}"#,
    );
    let (method, params) = out.first().expect("a mapped event");
    assert_eq!(method, "thread/realtime/transcript/delta");
    assert_eq!(params.get_str("delta"), Some("안녕"));
    assert_eq!(params.get_str("role"), Some("user"));
}

#[test]
fn transcription_completed_maps_to_done() {
    let out = map_event(
        r#"{"type":"conversation.item.input_audio_transcription.completed","transcript":"hello world"}"#,
    );
    let (method, params) = out.first().expect("a mapped event");
    assert_eq!(method, "thread/realtime/transcript/done");
    assert_eq!(params.get_str("text"), Some("hello world"));
}

#[test]
fn error_maps_to_realtime_error() {
    let out = map_event(r#"{"type":"error","error":{"message":"boom"}}"#);
    let (method, params) = out.first().expect("a mapped event");
    assert_eq!(method, "thread/realtime/error");
    assert_eq!(params.get_str("message"), Some("boom"));
}

#[test]
fn prompt_is_withheld_from_the_model_that_rejects_it() {
    assert!(!supports_prompt("gpt-realtime-whisper"));
    for m in [
        "gpt-4o-transcribe",
        "gpt-4o-mini-transcribe",
        "gpt-4o-mini-transcribe-2025-12-15",
        "whisper-1",
    ] {
        assert!(supports_prompt(m), "{m} accepts prompt");
    }
}

#[test]
fn transcription_model_precedence() {
    assert_eq!(transcription_model(None, ""), TRANSCRIPTION_MODEL);
    assert_eq!(transcription_model(Some("   "), ""), TRANSCRIPTION_MODEL, "blank env is unset");
    assert_eq!(transcription_model(Some(" whisper-1 "), ""), "whisper-1", "env wins and is trimmed");
    assert_eq!(transcription_model(None, "  "), TRANSCRIPTION_MODEL);
    assert_eq!(transcription_model(None, " gpt-4o-transcribe "), "gpt-4o-transcribe");
    assert_eq!(transcription_model(Some("whisper-1"), "gpt-4o-transcribe"), "whisper-1");
}

#[test]
fn the_generative_model_is_not_the_default_transcriber() {
    assert!(
        !model_transcription(None),
        "a generative model must never be the default source of dictated text"
    );
    assert!(!model_transcription(Some("0")));
    assert!(!model_transcription(Some("true")));
    assert!(model_transcription(Some("1")));
}

#[test]
fn default_transcription_model_is_a_supported_one() {
    const SUPPORTED: &[&str] = &[
        "whisper-1",
        "gpt-realtime-whisper",
        "gpt-4o-transcribe",
        "gpt-4o-mini-transcribe",
        "gpt-4o-mini-transcribe-2025-03-20",
        "gpt-4o-mini-transcribe-2025-12-15",
    ];
    assert!(
        SUPPORTED.contains(&TRANSCRIPTION_MODEL),
        "{TRANSCRIPTION_MODEL} is not in the endpoint's supported set"
    );
}

#[test]
fn unrelated_events_are_ignored() {
    for payload in [
        r#"{"type":"input_audio_buffer.speech_stopped"}"#,
        r#"{"type":"rate_limits.updated"}"#,
        r#"{"type":"response.output_text.done","text":"x"}"#,
    ] {
        assert!(map_event(payload).is_empty(), "payload: {payload}");
    }
}

#[test]
fn assistant_text_is_separated_from_the_transcript() {
    let out = map_event(r#"{"type":"response.output_text.delta","delta":"안녕"}"#);
    let (method, params) = out.first().expect("a mapped event");
    assert_eq!(method, "thread/realtime/response/delta");
    assert!(
        !dictate::is_user_transcript_delta(method, params),
        "assistant text must not reach the dictation buffer"
    );
    assert!(!dictate::is_user_transcript_done(method));
}

#[test]
fn only_response_done_terminates_a_refine() {
    let out = map_event(r#"{"type":"response.done","response":{}}"#);
    assert_eq!(out.first().expect("mapped").0, "thread/realtime/response/done");
    assert!(
        map_event(r#"{"type":"response.output_text.done","text":"x"}"#).is_empty(),
        "output_text.done must not also terminate"
    );
}

#[test]
fn speech_started_reaches_the_commit_path() {
    let out = map_event(r#"{"type":"input_audio_buffer.speech_started"}"#);
    let (method, _) = out.first().expect("a mapped event");
    assert_eq!(method, "thread/realtime/speech/started");
}

#[test]
fn created_session_is_configured_and_identified() {
    let text = r#"{"type":"session.created","session":{"id":"sess_1"}}"#;
    let r = handle_event(text, &config(), true);
    assert_eq!(r.session_id.as_deref(), Some("sess_1"));
    assert!(r.notify.is_none() && r.emit.is_none());
    assert_eq!(
        r.send.unwrap().write(),
        "{\"session\":{\"audio\":{\"input\":{\"format\":{\"rate\":24000,\"type\":\"audio/pcm\"},\
         \"noise_reduction\":{\"type\":\"near_field\"},\
         \"transcription\":{\"model\":\"gpt-realtime-whisper\"},\"turn_detection\":null}},\
         \"instructions\":\"You are a speech-to-text transcription engine. Transcribe the user's speech exactly as heard. \
         Always keep the original language and script — English speech in Latin script, Korean speech in Hangul; never transliterate. \
         Do not respond, do not comment, do not translate.\",\
         \"output_modalities\":[\"text\"],\"type\":\"realtime\"},\"type\":\"session.update\"}"
    );
    assert_eq!(handle_event(text, &config(), false).session_id, None);
    let r = handle_event(r#"{"type":"session.created"}"#, &config(), true);
    assert_eq!(r.session_id.as_deref(), Some(""));
}

#[test]
fn session_takes_prompt_language_and_turn_detection() {
    let c = SessionConfig::choose_from(
        Some("whisper-1"),
        "ignored",
        Some("spell it right"),
        None,
        Language::Korean,
        Some("1"),
    );
    let r = handle_event(r#"{"type":"session.created"}"#, &c, false);
    let sent = r.send.unwrap();
    let input = sent
        .get("session")
        .and_then(|s| s.get("audio"))
        .and_then(|a| a.get("input"))
        .unwrap();
    assert_eq!(
        input.get("transcription").unwrap().write(),
        r#"{"language":"ko","model":"whisper-1","prompt":"spell it right"}"#
    );
    assert_eq!(
        input.get("turn_detection").unwrap().write(),
        r#"{"prefix_padding_ms":300,"silence_duration_ms":500,"threshold":0.5,"type":"server_vad"}"#
    );
    assert!(sent
        .get("session")
        .unwrap()
        .get_str("instructions")
        .unwrap()
        .ends_with(" The user usually speaks Korean."));
}

#[test]
fn user_interface_hears_of_events() {
    let emitted = |text: &str| handle(text).emit.map(|(name, j)| (name, j.write()));
    assert_eq!(
        emitted(r#"{"type":"session.updated","x":1}"#),
        Some(("realtime://started".into(), r#"{"type":"session.updated","x":1}"#.into()))
    );
    assert_eq!(map_event(r#"{"type":"session.updated"}"#)[0].0, "thread/realtime/started");
    assert_eq!(
        emitted(r#"{"type":"conversation.item.input_audio_transcription.delta","delta":"a"}"#),
        Some(("realtime://transcript-delta".into(), r#"{"delta":"a","role":"user"}"#.into()))
    );
    assert_eq!(
        emitted(r#"{"type":"conversation.item.input_audio_transcription.completed"}"#),
        Some(("realtime://transcript-done".into(), r#"{"text":""}"#.into()))
    );
    assert_eq!(
        emitted(r#"{"type":"input_audio_buffer.speech_stopped"}"#),
        Some((
            "realtime://speech-stopped".into(),
            r#"{"type":"input_audio_buffer.speech_stopped"}"#.into()
        ))
    );
    assert_eq!(
        emitted(r#"{"type":"input_audio_buffer.speech_started"}"#).unwrap().0,
        "realtime://speech-started"
    );
    assert_eq!(
        emitted(r#"{"type":"error"}"#),
        Some((
            "realtime://error".into(),
            r#"{"message":"unknown realtime error"}"#.into()
        ))
    );
    assert_eq!(emitted(r#"{"type":"response.text.delta","delta":"a"}"#), None);
    assert_eq!(
        map_event(r#"{"type":"response.text.delta","delta":"a"}"#)[0].0,
        "thread/realtime/response/delta"
    );
}

#[test]
fn harmless_and_malformed_events_do_nothing() {
    for text in [
        r#"{"type":"error","error":{"message":"buffer too small. Expected 100ms"}}"#,
        r#"{"type":"error","error":{"message":"the buffer is empty"}}"#,
        r#"{"type":"conversation.item.input_audio_transcription.delta"}"#,
        r#"{"type":"response.output_text.delta","delta":5}"#,
        r#"{"type":7}"#,
        r#"[]"#,
        "not json",
        "",
    ] {
        let r = handle(text);
        assert!(
            r.session_id.is_none() && r.send.is_none() && r.notify.is_none() && r.emit.is_none(),
            "{text}"
        );
    }
}

#[test]
fn reaction_to_an_event_built_by_hand() {
    let event = Json::object().with("type", Json::text("response.done"));
    let n = react(&event, &config(), Json::Null, false).notify.unwrap();
    assert_eq!(n.method, "thread/realtime/response/done");
    assert_eq!(n.params, event);
}

#[test]
fn choices() {
    assert_eq!(default_realtime_model(), "gpt-realtime-2.1");
    assert_eq!(default_transcription_model(), "gpt-realtime-whisper");
    assert_eq!(realtime_model(None, " gpt-realtime "), "gpt-realtime");
    assert_eq!(
        realtime_ws_url(None, ""),
        "wss://api.openai.com/v1/realtime?model=gpt-realtime-2.1"
    );
    assert_eq!(
        realtime_ws_url(Some("m"), "x"),
        "wss://api.openai.com/v1/realtime?model=m"
    );
    assert_eq!(stale_after(None), 90);
    assert_eq!(stale_after(Some("5")), 5);
    assert_eq!(stale_after(Some("+7")), 7);
    assert_eq!(stale_after(Some("5s")), 90);
    assert_eq!(stale_after(Some("")), 90);
    assert_eq!(stale_after(Some("18446744073709551616")), 90);
    assert!(is_usable(true, 89_999, 90));
    assert!(!is_usable(true, 90_000, 90));
    assert!(!is_usable(false, 0, 90));
    assert!(is_usable(true, u64::MAX, u64::MAX));
    assert!(manual_turns(None));
    assert!(manual_turns(Some("0")));
    assert!(!manual_turns(Some("1")));
    assert!(!debug_transcript(None));
    assert!(!debug_transcript(Some("0")));
    assert!(debug_transcript(Some("")));
    assert_eq!(transcription_prompt(Some(" x ")), " x ");
    assert!(transcription_prompt(Some("  ")).starts_with("The user dictates"));
    assert!(transcription_prompt(None).ends_with("Do not transliterate."));
    assert!(dictation_instructions(None).starts_with("Write down exactly"));
    assert_eq!(dictation_instructions(Some("y")), "y");
    assert_eq!(transcription_language(None, Language::Auto), None);
    assert_eq!(transcription_language(None, Language::Korean), Some("ko"));
    assert_eq!(transcription_language(Some("en"), Language::Korean), Some("en"));
    assert_eq!(transcription_language(Some("ko"), Language::Auto), Some("ko"));
    assert_eq!(transcription_language(Some("fr"), Language::English), Some("en"));
    assert!(instructions(Language::English).ends_with(" The user usually speaks English."));
    assert!(!instructions(Language::Auto).contains("usually"));
}

#[test]
fn models_to_pick_from() {
    let models = list_transcribe_models();
    assert_eq!(models.len(), TRANSCRIPTION_MODELS.len());
    assert_eq!(
        models[5].write(),
        r#"{"id":"whisper-1","is_default":false,"note":"한국어에서 문장 붕괴"}"#
    );
    assert_eq!(models[0].get_str("id"), Some("gpt-realtime-whisper"));
    let defaults = |list: Vec<Json>| {
        list.iter()
            .filter(|m| m.get("is_default") == Some(&Json::Bool(true)))
            .count()
    };
    assert_eq!(defaults(models), 1);
    let models = list_realtime_models();
    assert_eq!(models.len(), REALTIME_MODELS.len());
    assert_eq!(models[2].write(), r#"{"id":"gpt-realtime-2","is_default":false,"note":""}"#);
    assert_eq!(defaults(models), 1);
}

#[test]
fn audio_goes_out_in_base64() {
    let m = append_pcm(true, &[0, 1, 2, 255]).unwrap();
    assert_eq!(m.write(), r#"{"audio":"AAEC/w==","type":"input_audio_buffer.append"}"#);
    match append_pcm(false, &[0, 1]) {
        Err(e) => assert_eq!(e.message(), "disconnected: session closed"),
        Ok(_) => panic!("the session is closed"),
    }
    assert_eq!(silence_pcm(2_000), vec![0u8; 96_000]);
    assert_eq!(append_silence(true, 0).unwrap().get_str("audio"), Some(""));
    assert_eq!(append_silence(true, 1).unwrap().get_str("audio"), Some("A".repeat(64).as_str()));
    let (pad, commit) = flush_tail(true, 1).unwrap();
    assert_eq!(pad.get_str("audio").map(str::len), Some(64));
    assert_eq!(commit.write(), r#"{"type":"input_audio_buffer.commit"}"#);
    assert!(flush_tail(false, 1).is_err());
}

#[test]
fn session_model_is_asked() {
    let (item, create) = refine_text(true, "some text", "Fix it.").unwrap();
    assert_eq!(
        item.write(),
        "{\"item\":{\"content\":[{\"text\":\"Fix it.\\n\\n---\\nsome text\",\"type\":\"input_text\"}],\
         \"role\":\"user\",\"type\":\"message\"},\"type\":\"conversation.item.create\"}"
    );
    assert_eq!(
        create.write(),
        r#"{"response":{"instructions":"Fix it.","output_modalities":["text"]},"type":"response.create"}"#
    );
    assert_eq!(respond(true, "Fix it.").unwrap(), create);
    assert!(refine_text(false, "a", "b").is_err());
    assert!(respond(false, "b").is_err());
    let asked = transcribe_committed_audio(true, Some("Do.")).unwrap();
    assert_eq!(asked.get("response").unwrap().get_str("instructions"), Some("Do."));
    assert!(transcribe_committed_audio(false, None).is_err());
}

fn note(method: &str, params: &str) -> Notification {
    Notification { method: method.into(), params: Json::read(params).unwrap() }
}

#[test]
fn reply_is_collected_from_its_pieces() {
    let mut c = Collector::new(1_000, 500);
    assert_eq!(c.remaining(1_200).ok(), Some(300));
    assert!(c.collect_response(&note("thread/realtime/response/delta", r#"{"delta":"Hel"}"#)).is_none());
    assert!(c.collect_response(&note("thread/realtime/started", "{}")).is_none());
    assert!(c.collect_response(&note("thread/realtime/response/delta", r#"{"delta":"lo"}"#)).is_none());
    let done = r#"{"response":{"output":[{"content":[{"text":"other"}]}]}}"#;
    match c.collect_response(&note("thread/realtime/response/done", done)) {
        Some(Ok(text)) => assert_eq!(text, "Hello"),
        other => panic!("{other:?}"),
    }
    match c.remaining(1_500) {
        Err(RpcError::Timeout(ms)) => assert_eq!(ms, 500),
        other => panic!("{other:?}"),
    }
    assert_eq!(c.ended().message(), "disconnected: event stream ended");
}

#[test]
fn reply_without_pieces_is_taken_whole() {
    for (done, text) in [
        (r#"{"response":{"output":[{"content":[{"text":"whole"}]}]}}"#, "whole"),
        (r#"{"response":{"output":{"0":{"content":{"0":{"text":"odd"}}}}}}"#, "odd"),
        (r#"{"response":{"output":[]}}"#, ""),
        (r#"{"response":{"output":[{"content":[{"text":5}]}]}}"#, ""),
        (r#"{}"#, ""),
    ] {
        let mut c = Collector::new(0, 1);
        match c.collect_response(&note("thread/realtime/response/done", done)) {
            Some(Ok(t)) => assert_eq!(t, text),
            other => panic!("{other:?}"),
        }
    }
}

#[test]
fn failed_reply_says_why() {
    for (params, text) in [
        (r#"{"message":"quota"}"#, "disconnected: quota"),
        ("{}", "disconnected: response failed"),
    ] {
        let mut c = Collector::new(0, 1);
        match c.collect_response(&note("thread/realtime/error", params)) {
            Some(Err(e)) => assert_eq!(e.message(), text),
            other => panic!("{other:?}"),
        }
    }
}

fn tokens() -> OAuthTokens {
    OAuthTokens { access_token: "tok".into(), account_id: "acc".into() }
}

#[test]
fn connection_goes_through_its_steps() {
    let (mut c, first) = Connecting::begin();
    assert!(matches!(first, ConnectAction::FetchTokens));
    match c.connect_once(ConnectEvent::Tokens(tokens()), "wss://x") {
        ConnectAction::Open(r) => {
            assert_eq!(r.url, "wss://x");
            assert_eq!(r.authorization, "Bearer tok");
            assert_eq!(r.account_id, "acc");
            assert_eq!(r.originator, "codex_chatgpt_desktop");
        }
        other => panic!("{other:?}"),
    }
    assert!(matches!(
        c.connect_once(ConnectEvent::Opened, "wss://x"),
        ConnectAction::AwaitSessionId
    ));
    match c.connect_once(ConnectEvent::SessionId("sess".into()), "wss://x") {
        ConnectAction::Connected(info) => {
            assert_eq!(info.call_id, "sess");
            assert_eq!(info.account_id, "acc");
            assert_eq!(info.auth_mode, "chatgpt-oauth-ws");
        }
        other => panic!("{other:?}"),
    }
}

#[test]
fn each_failure_of_a_connection() {
    for (event, text) in [
        (ConnectEvent::TokensFailed("no login".into()), "disconnected: no login"),
        (ConnectEvent::BadRequest("bad auth header: x".into()), "failed to spawn codex: bad auth header: x"),
        (ConnectEvent::OpenTimedOut, "request timed out after 15s"),
        (ConnectEvent::OpenFailed("dns".into()), "disconnected: ws connect: dns"),
        (ConnectEvent::IdTimedOut, "request timed out after 15s"),
        (ConnectEvent::ClosedBeforeId, "disconnected: ws closed before session.created"),
    ] {
        let (mut c, _) = Connecting::begin();
        match c.connect_once(event, "wss://x") {
            ConnectAction::GiveUp(e) => assert_eq!(e.message(), text),
            other => panic!("{other:?}"),
        }
    }
}

#[test]
fn refused_token_is_refreshed_once() {
    let refusal = Json::object().with("message", Json::text("Your authentication token was revoked"));
    let other = Json::object().with("message", Json::text("later"));
    let (mut c, _) = Connecting::begin();
    assert!(c.on_emit("realtime://started", &Json::Null));
    assert!(!c.on_emit("realtime://error", &refusal), "a first failure is kept to ourselves");
    assert!(!c.on_emit("realtime://error", &other));
    assert_eq!(c.first_error.as_deref(), Some("Your authentication token was revoked"));
    assert!(matches!(
        c.connect_once(ConnectEvent::ClosedBeforeId, ""),
        ConnectAction::ForceRefresh
    ));
    assert!(c.forced);
    assert!(c.on_emit("realtime://error", &refusal), "a second failure is shown");
    assert!(matches!(
        c.connect_once(ConnectEvent::ClosedBeforeId, ""),
        ConnectAction::GiveUp(_)
    ));
}

#[test]
fn other_errors_do_not_refresh_the_token() {
    let (mut c, _) = Connecting::begin();
    c.on_emit("realtime://error", &Json::object().with("message", Json::text("model not found")));
    assert!(matches!(
        c.connect_once(ConnectEvent::ClosedBeforeId, ""),
        ConnectAction::GiveUp(_)
    ));
}

#[test]
fn socket_events() {
    assert_eq!(io_step(IoEvent::Outgoing("a".into())), IoAction::Send("a".into()));
    assert_eq!(io_step(IoEvent::QueueClosed), IoAction::CloseAndStop);
    assert_eq!(io_step(IoEvent::Text("b".into())), IoAction::Handle("b".into()));
    assert_eq!(io_step(IoEvent::Other), IoAction::Ignore);
    assert_eq!(io_step(IoEvent::SendFailed), IoAction::Stop);
    assert_eq!(io_step(IoEvent::Closed), IoAction::Stop);
    assert_eq!(io_step(IoEvent::ReadFailed), IoAction::Stop);
    assert!(closing_notification(false).is_none());
    let n = closing_notification(true).unwrap();
    assert_eq!(n.method, "thread/realtime/error");
    assert_eq!(n.params.write(), r#"{"message":"realtime session closed unexpectedly"}"#);
}
