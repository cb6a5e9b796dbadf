use codex_mic::config::ActivationMode::{PushToTalk, Toggle};
use codex_mic::dictate::Committed;
use codex_mic::error::RpcError;
use codex_mic::keystate::{Code, Machine, Phase};
use codex_mic::lifecycle::{
    abort_dictation, apply_hotkeys, caps_baseline, commit_event, configured_hotkeys,
    ensure_connected, halt_dictation, on_hotkey, pump_exit, restored_position, save_position, spoken,
    start_dictation, stop_dictation, watchdog, HotkeyAction, HotkeyEvent, Pump, PumpExit,
    SessionPlan, SettingsPanel, Shortcut, StartAction, StartEvent, StopAction, WatchGeneration,
    WatchStep, WatchdogAction, WindowAction, NO_SIGNAL,
};

const DICTATION: Shortcut = Shortcut { mods: 1, key: Code::KeyE };
const SETTINGS: Shortcut = Shortcut { mods: 3, key: Code::KeyE };

fn event(fired: Shortcut, pressed: bool) -> HotkeyEvent {
    HotkeyEvent {
        fired,
        pressed,
        suppressed: false,
        physical: None,
        mode: PushToTalk,
        settings_open: false,
    }
}

fn press() -> HotkeyEvent {
    event(DICTATION, true)
}

fn fire(m: &mut Machine, e: HotkeyEvent) -> HotkeyAction {
    on_hotkey(m, Some(DICTATION), Some(SETTINGS), e)
}

#[test]
fn hotkeys_must_be_two() {
    assert_eq!(configured_hotkeys(Some(DICTATION), Some(SETTINGS)), Some((DICTATION, SETTINGS)));
    assert_eq!(configured_hotkeys(Some(DICTATION), Some(DICTATION)), None);
    assert_eq!(configured_hotkeys(None, Some(SETTINGS)), None);
    assert_eq!(configured_hotkeys(Some(DICTATION), None), None);
    assert_eq!(apply_hotkeys(Some(DICTATION), Some(SETTINGS)), Ok((DICTATION, SETTINGS)));
    assert_eq!(
        apply_hotkeys(None, None),
        Err("hotkeys are invalid or identical".to_string())
    );
}

#[test]
fn hold_starts_and_release_stops() {
    let mut m = Machine::new();
    assert_eq!(
        fire(&mut m, event(DICTATION, true)),
        HotkeyAction::Start { watch: Some(0x45) }
    );
    assert_eq!(start_dictation(&mut m, StartEvent::Streaming), StartAction::Recording);
    assert_eq!(fire(&mut m, event(DICTATION, true)), HotkeyAction::Nothing);
    assert_eq!(fire(&mut m, event(DICTATION, false)), HotkeyAction::Stop);
    assert_eq!(m.phase(), Phase::Stopping);
}

#[test]
fn toggle_needs_no_watcher() {
    let mut m = Machine::new();
    let press = HotkeyEvent { mode: Toggle, ..event(DICTATION, true) };
    assert_eq!(fire(&mut m, press), HotkeyAction::Start { watch: None });
}

#[test]
fn phantom_release_is_refused_and_a_real_one_is_not() {
    let mut m = Machine::new();
    fire(&mut m, event(DICTATION, true));
    m.started();
    let before = m;
    let phantom = HotkeyEvent { physical: Some(true), ..event(DICTATION, false) };
    assert_eq!(fire(&mut m, phantom), HotkeyAction::Nothing);
    assert_eq!(m, before);
    let real = HotkeyEvent { physical: Some(false), ..event(DICTATION, false) };
    assert_eq!(fire(&mut m, real), HotkeyAction::Stop);
}

#[test]
fn other_hotkey_events_leave_the_dictation_alone() {
    let mut m = Machine::new();
    let other = Shortcut { mods: 0, key: Code::F9 };
    assert_eq!(fire(&mut m, event(other, true)), HotkeyAction::Nothing);
    let ours = HotkeyEvent { suppressed: true, ..event(DICTATION, true) };
    assert_eq!(fire(&mut m, ours), HotkeyAction::Nothing);
    assert_eq!(fire(&mut m, event(SETTINGS, true)), HotkeyAction::SetSettings(true));
    let open = HotkeyEvent { settings_open: true, ..event(SETTINGS, true) };
    assert_eq!(fire(&mut m, open), HotkeyAction::SetSettings(false));
    assert_eq!(fire(&mut m, event(SETTINGS, false)), HotkeyAction::Nothing);
    assert_eq!(
        on_hotkey(&mut m, None, Some(SETTINGS), event(SETTINGS, true)),
        HotkeyAction::Nothing
    );
    assert_eq!(m, Machine::new());
}

#[test]
fn keys_without_a_name_are_told_apart() {
    let key = |n| Shortcut { mods: 1, key: Code::Other(n) };
    assert_eq!(configured_hotkeys(Some(key(1)), Some(key(2))), Some((key(1), key(2))));
    assert_eq!(configured_hotkeys(Some(key(1)), Some(key(1))), None);
    let mut m = Machine::new();
    let mut fired = |n| on_hotkey(&mut m, Some(key(1)), Some(key(2)), event(key(n), true));
    assert_eq!(fired(3), HotkeyAction::Nothing);
    assert_eq!(fired(2), HotkeyAction::SetSettings(true));
    assert_eq!(fired(1), HotkeyAction::Start { watch: None });
}

#[test]
fn settings_panel_opens_and_closes() {
    let mut p = SettingsPanel::new();
    assert!(!p.settings_is_open());
    assert_eq!(
        p.toggle_settings(true),
        [
            WindowAction::Focusable(true),
            WindowAction::Size { width: 420, height: 620 },
            WindowAction::Focus,
            WindowAction::Emit("settings://open"),
        ]
    );
    assert!(p.settings_is_open());
    assert!(p.toggle_settings(false).is_empty());
    assert!(p.settings_is_open());
    assert_eq!(
        p.set_settings_open(false, true),
        [
            WindowAction::Emit("settings://close"),
            WindowAction::Size { width: 300, height: 34 },
            WindowAction::Focusable(false),
        ]
    );
    assert!(!p.settings_is_open());
}

#[test]
fn window_is_put_back_and_its_place_saved_now_and_then() {
    assert_eq!(restored_position(Some(1), Some(-2)), Some((1, -2)));
    assert_eq!(restored_position(Some(1), None), None);
    assert!(save_position(1_000, 1_500));
    assert!(!save_position(1_000, 1_499));
    assert!(!save_position(1_000, 0));
}

#[test]
fn session_is_reused_while_it_can_be() {
    assert_eq!(ensure_connected(Some(true)), SessionPlan::Ready);
    assert_eq!(ensure_connected(Some(false)), SessionPlan::Connect { drop_old: true });
    assert_eq!(ensure_connected(None), SessionPlan::Connect { drop_old: false });
}

#[test]
fn failed_session_ends_the_recording() {
    let error = "thread/realtime/error";
    let mut m = Machine::new();
    assert_eq!(watchdog(&mut m, error), WatchdogAction::Nothing);
    m.press(PushToTalk);
    assert_eq!(watchdog(&mut m, "thread/realtime/started"), WatchdogAction::Nothing);
    assert_eq!(watchdog(&mut m, error), WatchdogAction::StopQueued);
    assert_eq!(start_dictation(&mut m, StartEvent::Streaming), StartAction::Commit);
    m.stopped();
    m.press(PushToTalk);
    m.started();
    assert_eq!(watchdog(&mut m, error), WatchdogAction::Abort);
    assert_eq!(watchdog(&mut m, error), WatchdogAction::Nothing);
}

#[test]
fn caps_lock_matters_only_as_the_hotkey() {
    assert_eq!(caps_baseline("CapsLock", Some(true)), Some(true));
    assert_eq!(caps_baseline("CapsLock", None), None);
    assert_eq!(caps_baseline("Ctrl+E", Some(true)), None);
}

#[test]
fn release_is_reported_only_after_the_key_was_seen_down() {
    let mut g = WatchGeneration::new();
    let mut w = g.arm(1_000);
    assert_eq!(w.look(g.current, Some(false), 1_000), WatchStep::Again);
    assert_eq!(w.look(g.current, Some(false), 2_499), WatchStep::Again);
    assert_eq!(w.look(g.current, Some(true), 2_499), WatchStep::Again);
    assert_eq!(w.look(g.current, Some(true), 9_000), WatchStep::Again);
    assert_eq!(w.look(g.current, Some(false), 9_015), WatchStep::Released);

    let mut w = g.arm(0);
    assert_eq!(w.look(g.current, Some(false), 1_500), WatchStep::StandDown);
    assert_eq!(w.look(g.current, None, 0), WatchStep::StandDown);
}

#[test]
fn watcher_of_an_earlier_recording_is_retired() {
    let mut g = WatchGeneration::new();
    let mut old = g.arm(0);
    old.look(g.current, Some(true), 0);
    let new = g.arm(0);
    assert_ne!(old.generation, new.generation);
    assert_eq!(old.look(g.current, Some(false), 1), WatchStep::StandDown);
    let mut w = g.arm(0);
    w.look(g.current, Some(true), 0);
    g.cancel_release_watcher();
    assert_eq!(w.look(g.current, Some(false), 1), WatchStep::StandDown);
}

#[test]
fn start_fails_cleanly_at_each_step() {
    let begun = || {
        let mut m = Machine::new();
        m.press(PushToTalk);
        m.release();
        m
    };
    for (event, release_capture, message) in [
        (StartEvent::CaptureFailed("no mic".into()), false, "no mic"),
        (StartEvent::ConnectFailed("no net".into()), true, "no net"),
        (StartEvent::NoSession, true, "not connected"),
    ] {
        let mut m = begun();
        let message = message.to_string();
        assert_eq!(
            start_dictation(&mut m, event),
            StartAction::CleanUp { release_capture, message: message.clone() }
        );
        assert_eq!(m, begun());
        assert_eq!(fire(&mut m, press()), HotkeyAction::Nothing, "not cleaned up yet");
        assert_eq!(
            start_dictation(&mut m, StartEvent::CleanedUp(message.clone())),
            StartAction::Fail { message }
        );
        assert_eq!(m.phase(), Phase::Idle);
        m.press(PushToTalk);
        assert_eq!(start_dictation(&mut m, StartEvent::Streaming), StartAction::Recording);
    }
    let mut m = begun();
    assert_eq!(start_dictation(&mut m, StartEvent::CaptureOpened), StartAction::ShowAndConnect);
    assert_eq!(
        start_dictation(&mut m, StartEvent::Connected),
        StartAction::Listen { lead: 2_000 }
    );
    assert_eq!(start_dictation(&mut m, StartEvent::Streaming), StartAction::Commit);
}

fn level(samples: i16) -> Vec<u8> {
    (0..8).flat_map(|_| samples.to_le_bytes()).collect()
}

#[test]
fn silence_ends_a_recording_once_something_was_said() {
    let mut p = Pump::new(1_000, 500);
    assert!(!p.on_chunk(&level(10), 0).silence);
    assert!(!p.on_chunk(&level(10), 60_000).silence, "nothing was said yet");
    let step = p.on_chunk(&level(500), 60_050);
    assert_eq!(step.rms, 500);
    assert!(!step.silence);
    assert!(!p.on_chunk(&level(499), 61_049).silence);
    assert!(p.on_chunk(&level(499), 61_050).silence);
    assert_eq!(p.peak, 500);
}

#[test]
fn silence_never_ends_a_recording_where_that_is_off() {
    let mut p = Pump::new(0, 500);
    assert!(!p.on_level(9_000, 0).silence);
    assert!(!p.on_level(0, u64::MAX).silence);
    assert_eq!(p.peak, 9_000);
    assert_eq!(p.on_chunk(&[], 1).rms, 0);
}

#[test]
fn file_in_place_of_the_microphone_begins_again() {
    let pcm: Vec<u8> = (0..5_000u32).map(|i| i as u8).collect();
    let mut p = Pump::new(0, 0);
    assert_eq!(p.debug_chunk(&pcm), pcm[0..2_400]);
    assert_eq!(p.debug_chunk(&pcm), pcm[2_400..4_800]);
    assert_eq!(p.debug_chunk(&pcm), pcm[4_800..5_000]);
    assert_eq!(p.debug_chunk(&pcm), pcm[0..2_400]);
    let mut p = Pump::new(0, 0);
    assert!(p.debug_chunk(&[]).is_empty());
}

#[test]
fn pump_leaves_commits_or_aborts() {
    let recording = || {
        let mut m = Machine::new();
        m.press(PushToTalk);
        m.started();
        m
    };
    let mut m = recording();
    assert_eq!(pump_exit(&mut m, true, true), PumpExit::Leave);
    assert_eq!(m, recording());
    assert_eq!(pump_exit(&mut recording(), false, false), PumpExit::Commit);
    let mut m = recording();
    assert_eq!(pump_exit(&mut m, false, true), PumpExit::Abort);
    assert_eq!(pump_exit(&mut m, false, false), PumpExit::Nothing);
}

#[test]
fn steps_of_the_end() {
    assert_eq!(
        halt_dictation(),
        [
            StopAction::CancelWatcher,
            StopAction::ShowProcessing,
            StopAction::RestoreCaps,
            StopAction::HaltPump,
        ]
    );
    assert_eq!(
        stop_dictation(true, true, true, true),
        [
            StopAction::SendRest,
            StopAction::StopCapture,
            StopAction::SendRest,
            StopAction::FlushTail(2_000),
            StopAction::ExpectTurn,
            StopAction::Transcribe(6_000),
            StopAction::Commit,
            StopAction::Rest,
        ]
    );
    assert_eq!(
        stop_dictation(true, false, true, true),
        [
            StopAction::StopCapture,
            StopAction::Commit,
            StopAction::Rest,
        ]
    );
    assert_eq!(stop_dictation(false, true, false, false)[0], StopAction::FlushTail(2_000));
    assert_eq!(
        abort_dictation(),
        [
            StopAction::CancelWatcher,
            StopAction::RestoreCaps,
            StopAction::HaltPump,
            StopAction::StopCapture,
            StopAction::Discard,
            StopAction::Rest,
        ]
    );
}

#[test]
fn reading_of_the_session_model() {
    assert_eq!(spoken(Ok("said".into())), Some("said".to_string()));
    assert_eq!(spoken(Ok(" \n".into())), None);
    assert_eq!(spoken(Err(RpcError::Timeout(1))), None);
}

#[test]
fn user_is_told_what_a_commit_came_to() {
    let told = |outcome: Result<Committed, String>, peak: i32| {
        let (name, payload) = commit_event(&outcome, peak);
        (name, payload.write())
    };
    assert_eq!(
        told(Ok(Committed::Typed("hi".into())), 0),
        ("dictate://stopped", r#"{"text":"hi"}"#.to_string())
    );
    assert_eq!(
        told(Ok(Committed::Empty), 300),
        ("dictate://stopped", r#"{"text":""}"#.to_string())
    );
    assert_eq!(
        told(Ok(Committed::Empty), 299),
        ("dictate://error", format!(r#"{{"message":"{NO_SIGNAL}"}}"#))
    );
    assert_eq!(
        told(Ok(Committed::Filtered("[music]".into())), 0),
        ("dictate://filtered", r#"{"text":"[music]"}"#.to_string())
    );
    assert_eq!(
        told(Err("x".into()), 0),
        ("dictate://error", r#"{"message":"x"}"#.to_string())
    );
}
