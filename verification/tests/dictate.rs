use codex_mic::config::InjectionMode;
use codex_mic::dictate::{
    append_segment, classify, inject_text, is_hallucination, is_speech_started,
    is_user_transcript_delta, is_user_transcript_done, matches_hallucination,
    sanitize_for_injection, test_inject, Committed, DictateState, Incoming, Injection, Settled,
    Timings, SHORT_TRANSCRIPT_CHARS,
};
use codex_mic::json::Json;
use codex_mic::realtime::Notification;

fn object(members: &[(&str, &str)]) -> Json {
    let mut j = Json::object();
    for (k, v) in members {
        j = j.with(k, Json::text(v));
    }
    j
}

#[test]
fn user_delta_passes_filter() {
    assert!(is_user_transcript_delta(
        "thread/realtime/transcript/delta",
        &object(&[("role", "user"), ("delta", "안녕")])
    ));
}

#[test]
fn assistant_delta_blocked() {
    assert!(!is_user_transcript_delta(
        "thread/realtime/transcript/delta",
        &object(&[("role", "assistant"), ("delta", "hi")])
    ));
}

#[test]
fn non_transcript_method_blocked() {
    assert!(!is_user_transcript_delta(
        "thread/realtime/started",
        &object(&[("role", "user")])
    ));
}

/// Short timings, in milliseconds of a clock of our own.
fn fast() -> Timings {
    Timings {
        deadline: 900,
        quiet: 120,
        open_turn: 300,
        settle: 50,
        no_event: 200,
        poll: 10,
    }
}

fn delta(text: &str) -> Notification {
    Notification {
        method: "thread/realtime/transcript/delta".into(),
        params: object(&[("role", "user"), ("delta", text)]),
    }
}

fn done(text: &str) -> Notification {
    Notification {
        method: "thread/realtime/transcript/done".into(),
        params: object(&[("text", text)]),
    }
}

fn speech_started() -> Notification {
    Notification {
        method: "thread/realtime/speech/started".into(),
        params: object(&[]),
    }
}

/// Waits for the transcript on a clock of its own, with notifications coming from a source at
/// the given times, and commits. The result is the verdict and how long the wait was.
fn finish(
    state: &mut DictateState,
    t: Timings,
    late: &[(u64, u64, Notification)],
) -> (Committed, u64) {
    let start = 1_000;
    let mut now = start;
    let mut delivered = 0;
    if state.begin_finish() {
        loop {
            while delivered < late.len() && start + late[delivered].0 <= now {
                let (_, source, n) = &late[delivered];
                state.accumulate(*source, n, now);
                delivered += 1;
            }
            if state.await_transcript(t, start, now).is_some() {
                break;
            }
            now += t.poll;
        }
    }
    (state.finish(true), now - start)
}

#[test]
fn empty_and_whitespace_transcripts_commit_as_empty() {
    for input in ["", "   ", "\n\t "] {
        let mut state = DictateState::new();
        state.incoming.pending = input.to_string();
        assert_eq!(
            state.stop_listening(true),
            Committed::Empty,
            "input {input:?}"
        );
    }
}

#[test]
fn commit_waits_for_deltas_that_arrive_after_the_key_is_released() {
    let mut state = DictateState::new();
    let tx = state.start_listening();
    state.accumulate(tx, &delta("배포"), 1_000);

    let lag = 60;
    let (out, elapsed) = finish(&mut state, fast(), &[(lag, tx, delta(" 해줘"))]);
    assert_eq!(out, Committed::Typed("배포 해줘".into()));
    assert!(elapsed >= lag, "committed before the tail could arrive");
}

#[test]
fn turn_done_overrides_that_turns_deltas() {
    let mut state = DictateState::new();
    let tx = state.start_listening();
    state.accumulate(tx, &delta("안녕"), 1_000);
    state.accumulate(tx, &done("안녕하세요"), 1_000);

    let t = fast();
    let (out, elapsed) = finish(&mut state, t, &[]);
    assert_eq!(out, Committed::Typed("안녕하세요".into()));
    assert!(
        elapsed < t.quiet,
        "a settled turn must not wait out the full quiet window, took {elapsed}"
    );
}

#[test]
fn every_turn_of_one_hold_is_kept() {
    let mut state = DictateState::new();
    let tx = state.start_listening();

    state.accumulate(tx, &delta("안녕"), 1_000);
    state.accumulate(tx, &done("안녕하세요."), 1_000);
    state.accumulate(tx, &delta("지금 마이크"), 1_000);
    state.accumulate(tx, &done("지금 마이크 테스트를 하고 있습니다."), 1_000);
    state.accumulate(tx, &delta("오후에는 코드 리뷰를 해야 합니다."), 1_000);

    assert_eq!(
        finish(&mut state, fast(), &[]).0,
        Committed::Typed(
            "안녕하세요. 지금 마이크 테스트를 하고 있습니다. 오후에는 코드 리뷰를 해야 합니다."
                .into()
        )
    );
}

#[test]
fn an_open_turn_is_waited_for_even_with_no_deltas_yet() {
    let mut state = DictateState::new();
    let tx = state.start_listening();
    state.accumulate(tx, &done("첫 문장입니다."), 1_000);
    state.accumulate(tx, &speech_started(), 1_000);

    let t = fast();
    let lag = (t.quiet + t.open_turn) / 2;
    assert!(lag > t.quiet && lag < t.open_turn, "lag must isolate open_turn");

    let (out, elapsed) = finish(&mut state, t, &[(lag, tx, done("이어서 말합니다."))]);
    assert_eq!(out, Committed::Typed("첫 문장입니다. 이어서 말합니다.".into()));
    assert!(elapsed >= lag, "committed before the open turn landed");
}

#[test]
fn a_committed_turn_outranks_the_no_event_grace() {
    let mut state = DictateState::new();
    let tx = state.start_listening();
    state.expect_turn();

    let t = fast();
    let lag = (t.no_event + t.open_turn) / 2;
    assert!(lag > t.no_event && lag < t.open_turn, "lag must isolate the bug");

    assert_eq!(
        finish(&mut state, t, &[(lag, tx, done("늦게 도착한 전사"))]).0,
        Committed::Typed("늦게 도착한 전사".into()),
        "gave up on a turn we had committed audio for"
    );
}

#[test]
fn a_committed_turn_that_never_transcribes_is_bounded() {
    let mut state = DictateState::new();
    state.start_listening();
    state.expect_turn();

    let t = fast();
    let (out, elapsed) = finish(&mut state, t, &[]);
    assert_eq!(out, Committed::Empty);
    assert!(elapsed >= t.open_turn, "gave up too early: {elapsed:?}");
    assert!(elapsed < t.deadline, "waited the full deadline: {elapsed:?}");
}

#[test]
fn default_timings_are_consistently_ordered() {
    let t = Timings::default();
    assert!(t.settle < t.quiet, "settle must be the quickest exit");
    assert!(
        t.open_turn > t.no_event,
        "a committed turn must outlast the no-event grace"
    );
    assert!(
        t.deadline > t.open_turn,
        "the deadline must not pre-empt the open-turn window"
    );
}

#[test]
fn an_open_turn_that_never_transcribes_still_commits() {
    let mut state = DictateState::new();
    let tx = state.start_listening();
    state.accumulate(tx, &done("말한 것"), 1_000);
    state.accumulate(tx, &speech_started(), 1_000);

    let t = fast();
    let (out, elapsed) = finish(&mut state, t, &[]);
    assert_eq!(out, Committed::Typed("말한 것".into()));
    assert!(elapsed >= t.open_turn, "gave up too early: {elapsed:?}");
    assert!(elapsed < t.deadline, "waited the full deadline: {elapsed:?}");
}

#[test]
fn segments_join_with_exactly_one_space() {
    let mut out = String::new();
    append_segment(&mut out, "안녕하세요.");
    append_segment(&mut out, "  반갑습니다.  ");
    append_segment(&mut out, "   ");
    append_segment(&mut out, "");
    append_segment(&mut out, "끝.");
    assert_eq!(out, "안녕하세요. 반갑습니다. 끝.");

    let mut first = String::new();
    append_segment(&mut first, "  leading  ");
    assert_eq!(first, "leading", "no space before the first segment");
}

#[test]
fn silent_session_gives_up_at_the_no_event_grace() {
    let mut state = DictateState::new();
    state.start_listening();

    let t = fast();
    let (out, elapsed) = finish(&mut state, t, &[]);
    assert_eq!(out, Committed::Empty);
    assert!(elapsed >= t.no_event, "returned too early: {elapsed:?}");
    assert!(elapsed < t.deadline, "waited the full deadline: {elapsed:?}");
}

#[test]
fn endless_deltas_are_cut_off_at_the_deadline() {
    let mut state = DictateState::new();
    let tx = state.start_listening();
    let chatty: Vec<(u64, u64, Notification)> =
        (0..500).map(|i| (i * 20, tx, delta("x"))).collect();

    let t = fast();
    let (out, elapsed) = finish(&mut state, t, &chatty);
    assert!(matches!(out, Committed::Typed(_)), "got {out:?}");
    assert!(elapsed < t.deadline + 300, "overran the deadline: {elapsed:?}");
}

#[test]
fn quiet_transcript_commits_without_waiting_for_the_deadline() {
    let mut state = DictateState::new();
    let tx = state.start_listening();
    state.accumulate(tx, &delta("hello"), 1_000);

    let t = fast();
    let (out, elapsed) = finish(&mut state, t, &[]);
    assert_eq!(out, Committed::Typed("hello".into()));
    assert!(elapsed >= t.quiet, "committed before the quiet window: {elapsed:?}");
    assert!(elapsed < t.deadline, "waited for the deadline: {elapsed:?}");
}

#[test]
fn unrelated_events_do_not_feed_the_transcript() {
    let mut state = DictateState::new();
    let tx = state.start_listening();
    state.accumulate(
        tx,
        &Notification {
            method: "thread/realtime/transcript/delta".into(),
            params: object(&[("role", "assistant"), ("delta", "나는 어시스턴트")]),
        },
        1_000,
    );
    state.accumulate(
        tx,
        &Notification {
            method: "thread/realtime/started".into(),
            params: object(&[]),
        },
        1_000,
    );

    assert_eq!(finish(&mut state, fast(), &[]).0, Committed::Empty);
}

#[test]
fn abort_discards_the_transcript() {
    let mut state = DictateState::new();
    let tx = state.start_listening();
    assert!(state.is_listening());
    state.accumulate(tx, &delta("secret"), 1_000);
    assert_eq!(state.current_buffer(), "secret");

    state.abort();
    assert!(!state.is_listening());
    assert_eq!(state.current_buffer(), "");
    assert_eq!(finish(&mut state, fast(), &[]).0, Committed::Empty);
}

#[test]
fn restart_clears_previous_transcript_and_retires_the_accumulator() {
    let mut state = DictateState::new();
    let first = state.start_listening();
    state.accumulate(first, &delta("old"), 1_000);

    let second = state.start_listening();
    assert_eq!(state.current_buffer(), "");
    state.accumulate(first, &delta("stale"), 1_000);
    state.accumulate(second, &delta("new"), 1_000);
    assert_eq!(finish(&mut state, fast(), &[]).0, Committed::Typed("new".into()));
}

#[test]
fn hallucination_filtered() {
    assert!(is_hallucination("thank you for watching"));
    assert!(is_hallucination("[music]"));
    assert!(is_hallucination("Please subscribe"));
}

#[test]
fn normal_korean_not_filtered() {
    assert!(!is_hallucination("안녕하세요"));
    assert!(!is_hallucination("이거 API endpoint를 deploy해줘"));
}

#[test]
fn normal_english_not_filtered() {
    assert!(!is_hallucination("hello world"));
    assert!(!is_hallucination("add a function that calculates factorial"));
}

#[test]
fn long_korean_transcript_still_checked_by_length() {
    let short_korean_long_in_bytes = format!("{} please subscribe", "가".repeat(25));
    assert!(short_korean_long_in_bytes.chars().count() < SHORT_TRANSCRIPT_CHARS);
    assert!(short_korean_long_in_bytes.len() > SHORT_TRANSCRIPT_CHARS);
    assert!(
        is_hallucination(&short_korean_long_in_bytes),
        "char-count threshold must still catch this"
    );

    let long = format!("{} please subscribe", "word ".repeat(30));
    assert!(long.chars().count() > SHORT_TRANSCRIPT_CHARS);
    assert!(!is_hallucination(&long));
}

#[test]
fn newline_never_survives_injection() {
    assert_eq!(sanitize_for_injection("send it\nnow"), "send it now");
    assert_eq!(sanitize_for_injection("a\r\nb"), "a b");
    assert_eq!(sanitize_for_injection("line1\n\n\nline2"), "line1 line2");
    assert_eq!(sanitize_for_injection("\ndeploy\n"), "deploy");
}

#[test]
fn tabs_and_control_chars_stripped() {
    assert_eq!(sanitize_for_injection("a\tb"), "a b");
    assert_eq!(sanitize_for_injection("a\u{0007}b"), "ab");
    assert_eq!(sanitize_for_injection("a\u{2028}b"), "a b");
}

#[test]
fn sanitize_preserves_normal_text() {
    assert_eq!(sanitize_for_injection("안녕하세요"), "안녕하세요");
    assert_eq!(
        sanitize_for_injection("deploy the API endpoint 해줘"),
        "deploy the API endpoint 해줘"
    );
    assert_eq!(sanitize_for_injection("emoji 🎤 ok"), "emoji 🎤 ok");
}

#[test]
fn sanitize_of_only_control_chars_is_empty() {
    assert_eq!(sanitize_for_injection("\n\r\t"), "");
}

#[test]
fn stop_without_start_is_empty_not_error() {
    let mut state = DictateState::new();
    assert_eq!(state.stop_listening(true), Committed::Empty);
}

#[test]
fn hallucinated_buffer_reports_filtered_not_silently_dropped() {
    let mut state = DictateState::new();
    state.incoming.pending = "thank you for watching".to_string();
    assert_eq!(
        state.stop_listening(true),
        Committed::Filtered("thank you for watching".into())
    );
}

#[test]
fn every_made_up_phrase_is_known() {
    for phrase in [
        "thank you for watching",
        "thanks for watching",
        "please subscribe",
        "don't forget to like",
        "see you in the next video",
        "[music]",
        "[applause]",
    ] {
        assert!(matches_hallucination(phrase, false));
        assert!(matches_hallucination(&format!("well {phrase}!"), true));
        assert!(!matches_hallucination(&format!("well {phrase}!"), false));
        assert!(is_hallucination(&format!("  {}  ", phrase.to_uppercase())));
    }
    assert!(!is_hallucination(""));
    assert!(!is_hallucination("   "));
}

#[test]
fn filter_can_be_switched_off() {
    assert_eq!(
        classify(" [Music]\n", false),
        Committed::Typed("[Music]".to_string())
    );
    assert_eq!(
        classify(" [Music]\n", true),
        Committed::Filtered("[Music]".to_string())
    );
    assert_eq!(classify("\u{7}", true), Committed::Empty);
}

#[test]
fn sanitizing_twice_is_sanitizing_once() {
    for text in ["  a \t\t b\u{85}c ", "\u{2029}x\u{1}\u{1}y  z\u{a0}", "", "한 글"] {
        let once = sanitize_for_injection(text);
        assert_eq!(sanitize_for_injection(&once), once);
        assert!(!once.contains("  "));
        let visible = |s: &str| -> String {
            s.chars().filter(|c| !c.is_whitespace() && !c.is_control()).collect()
        };
        assert_eq!(visible(&once), visible(text));
    }
}

#[test]
fn a_preferred_transcript_wins_unless_it_is_blank() {
    let heard = || {
        let mut state = DictateState::default();
        let tx = state.start_listening();
        state.accumulate(tx, &done("side channel"), 0);
        state
    };
    assert_eq!(
        heard().stop_listening_with(Some("from the model\n"), true),
        Committed::Typed("from the model".to_string())
    );
    assert_eq!(
        heard().stop_listening_with(Some(" \n"), true),
        Committed::Typed("side channel".to_string())
    );
    assert_eq!(
        heard().stop_listening_with(None, true),
        Committed::Typed("side channel".to_string())
    );
    assert_eq!(
        heard().stop_listening_with(Some("[music]"), true),
        Committed::Filtered("[music]".to_string())
    );
}

#[test]
fn each_reason_to_stop_waiting() {
    let t = Timings::default();
    let mut state = DictateState::new();
    let tx = state.start_listening();
    assert_eq!(state.await_transcript(t, 0, 1_499), None);
    assert_eq!(state.await_transcript(t, 0, 1_500), Some(Settled::NoEvent));
    assert_eq!(state.await_transcript(t, 0, 10_000), Some(Settled::Deadline));

    state.accumulate(tx, &delta("a"), 2_000);
    assert_eq!(state.await_transcript(t, 0, 2_899), None);
    assert_eq!(state.await_transcript(t, 0, 2_900), Some(Settled::Quiet));

    state.accumulate(tx, &done("a"), 3_000);
    assert_eq!(state.await_transcript(t, 0, 3_299), None);
    assert_eq!(state.await_transcript(t, 0, 3_300), Some(Settled::AllTurns));

    state.accumulate(tx, &speech_started(), 3_100);
    assert_eq!(state.await_transcript(t, 0, 7_999), None);
    assert_eq!(state.await_transcript(t, 0, 8_000), Some(Settled::OpenTurn));
    // A clock that runs backwards is no time at all.
    assert_eq!(state.await_transcript(t, 9_000, 0), None);
}

#[test]
fn malformed_notifications_change_nothing() {
    let mut inc = Incoming::new();
    inc.observe(
        &Notification {
            method: "thread/realtime/transcript/delta".into(),
            params: object(&[("role", "user")]),
        },
        5,
    );
    inc.observe(
        &Notification {
            method: "thread/realtime/transcript/done".into(),
            params: Json::Null,
        },
        5,
    );
    assert!(!inc.seen);
    assert_eq!(inc.last, None);
    assert_eq!(inc.turns, 0);
    inc.mark(7);
    assert_eq!(inc.last, Some(7));
    inc.finish_turn("x", 8);
    assert_eq!(inc.turns, 1);
    assert_eq!(inc.resolve(), "x");
}

#[test]
fn method_names() {
    assert!(is_user_transcript_done("thread/realtime/transcript/done"));
    assert!(!is_user_transcript_done("thread/realtime/transcript/delta"));
    assert!(is_speech_started("thread/realtime/speech/started"));
    assert!(!is_speech_started("thread/realtime/started"));
}

#[test]
fn injection_follows_the_settings() {
    assert_eq!(
        inject_text("hi", InjectionMode::Type, false, true),
        Injection::Type("hi".to_string())
    );
    assert_eq!(
        inject_text("hi", InjectionMode::Type, true, false),
        Injection::Type("hi ".to_string())
    );
    assert_eq!(inject_text("", InjectionMode::Type, false, true), Injection::Nothing);
    assert_eq!(
        inject_text("hi", InjectionMode::Clipboard, true, true),
        Injection::Paste { text: "hi ".to_string(), restore: true }
    );
    assert_eq!(
        inject_text("", InjectionMode::Clipboard, false, false),
        Injection::Paste { text: String::new(), restore: false }
    );
}

#[test]
fn injection_test_refuses_nothing_but_nothing() {
    assert_eq!(test_inject("a\nb"), Ok("a b".to_string()));
    assert_eq!(
        test_inject("\n\t"),
        Err("injection text is empty after sanitize".to_string())
    );
}

#[test]
fn a_line_break_between_two_texts_becomes_one_space() {
    for c in ['\n', '\r', '\t', '\u{0b}', '\u{0c}', '\u{85}', '\u{2028}', '\u{2029}'] {
        assert_eq!(sanitize_for_injection(&format!("one{c}two")), "one two");
    }
}
