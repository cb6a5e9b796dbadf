use codex_mic::config::ActivationMode::{PushToTalk, Toggle};
use codex_mic::keystate::{
    caps_restore_needed, code_to_vk, hotkey_is_capslock, is_suppressed, Action, Code, Machine,
    Phase, Suppression, SYNTHETIC_SUPPRESS,
};

#[test]
fn ptt_hold_and_release_is_one_start_and_one_stop() {
    let mut m = Machine::new();
    assert_eq!(m.press(PushToTalk), Action::Start);
    assert_eq!(m.started(), Action::Ignore);
    assert_eq!(m.phase(), Phase::Recording);
    assert_eq!(m.release(), Action::Stop);
    m.stopped();
    assert_eq!(m.phase(), Phase::Idle);
}

#[test]
fn ptt_tap_during_startup_stops_exactly_once() {
    let mut m = Machine::new();
    assert_eq!(m.press(PushToTalk), Action::Start);
    assert_eq!(m.release(), Action::Ignore, "nothing to stop yet");
    assert_eq!(m.phase(), Phase::Starting);
    assert_eq!(m.started(), Action::Stop, "the release must be honored");
    assert_eq!(m.phase(), Phase::Stopping);
}

#[test]
fn ptt_second_press_during_startup_is_ignored() {
    let mut m = Machine::new();
    assert_eq!(m.press(PushToTalk), Action::Start);
    assert_eq!(m.press(PushToTalk), Action::Ignore);
    assert_eq!(m.press(PushToTalk), Action::Ignore);
    assert_eq!(m.started(), Action::Ignore);
    assert_eq!(m.phase(), Phase::Recording);
}

#[test]
fn ptt_press_while_recording_is_ignored() {
    let mut m = Machine::new();
    m.press(PushToTalk);
    m.started();
    assert_eq!(m.press(PushToTalk), Action::Ignore);
    assert_eq!(m.phase(), Phase::Recording);
}

#[test]
fn presses_while_stopping_are_ignored_until_idle() {
    let mut m = Machine::new();
    m.press(PushToTalk);
    m.started();
    assert_eq!(m.release(), Action::Stop);
    assert_eq!(m.press(PushToTalk), Action::Ignore);
    assert_eq!(m.release(), Action::Ignore);
    m.stopped();
    assert_eq!(m.press(PushToTalk), Action::Start);
}

#[test]
fn toggle_press_starts_then_stops() {
    let mut m = Machine::new();
    assert_eq!(m.press(Toggle), Action::Start);
    m.started();
    assert_eq!(m.press(Toggle), Action::Stop);
    m.stopped();
    assert_eq!(m.press(Toggle), Action::Start);
}

#[test]
fn toggle_fast_double_tap_stops_immediately() {
    let mut m = Machine::new();
    assert_eq!(m.press(Toggle), Action::Start);
    assert_eq!(m.press(Toggle), Action::Ignore, "still starting");
    assert_eq!(m.started(), Action::Stop);
}

#[test]
fn toggle_release_never_stops() {
    let mut m = Machine::new();
    m.press(Toggle);
    m.started();
    assert_eq!(m.release(), Action::Ignore);
    assert_eq!(m.phase(), Phase::Recording);
}

#[test]
fn release_uses_the_mode_captured_at_press() {
    let mut m = Machine::new();
    m.press(Toggle);
    m.started();
    assert_eq!(m.release(), Action::Ignore);
}

#[test]
fn release_without_press_is_inert() {
    let mut m = Machine::new();
    assert_eq!(m.release(), Action::Ignore);
    assert_eq!(m.phase(), Phase::Idle);
}

#[test]
fn silence_autostop_stops_once() {
    let mut m = Machine::new();
    m.press(PushToTalk);
    m.started();
    assert_eq!(m.stop_requested(), Action::Stop);
    // The hotkey release lands right after: it must not stop a second time.
    assert_eq!(m.release(), Action::Ignore);
}

#[test]
fn watchdog_during_startup_defers_to_started() {
    let mut m = Machine::new();
    m.press(PushToTalk);
    assert_eq!(m.stop_requested(), Action::Ignore);
    assert_eq!(m.started(), Action::Stop);
}

#[test]
fn failed_start_returns_to_idle() {
    let mut m = Machine::new();
    m.press(PushToTalk);
    m.release(); // queued stop
    m.start_failed();
    assert_eq!(m.phase(), Phase::Idle);
    // The queued stop must not leak into the next recording.
    assert_eq!(m.press(PushToTalk), Action::Start);
    assert_eq!(m.started(), Action::Ignore);
    assert_eq!(m.phase(), Phase::Recording);
}

#[test]
fn a_release_during_startup_always_commits() {
    let mut m = Machine::new();
    m.press(PushToTalk);
    assert_eq!(m.release(), Action::Ignore);
    assert_eq!(m.started(), Action::Stop, "an empty commit, by design");
}

#[test]
fn hotkey_keys_map_to_their_virtual_key_codes() {
    assert_eq!(code_to_vk(&Code::KeyE), Some(0x45)); // the default hotkey
    assert_eq!(code_to_vk(&Code::KeyA), Some(0x41));
    assert_eq!(code_to_vk(&Code::KeyZ), Some(0x5A));
    assert_eq!(code_to_vk(&Code::Digit0), Some(0x30));
    assert_eq!(code_to_vk(&Code::CapsLock), Some(0x14));
    assert_eq!(code_to_vk(&Code::Space), Some(0x20));
    assert_eq!(code_to_vk(&Code::F9), Some(0x78));
    assert_eq!(code_to_vk(&Code::F24), Some(0x87));
    // Unpollable: the physical check stays off rather than guessing.
    assert_eq!(code_to_vk(&Code::Fn), None);
}

#[test]
fn every_letter_digit_and_function_key_is_pollable() {
    for c in [
        Code::KeyB, Code::KeyC, Code::KeyD, Code::KeyF, Code::KeyG, Code::KeyH,
        Code::KeyI, Code::KeyJ, Code::KeyK, Code::KeyL, Code::KeyM, Code::KeyN,
        Code::KeyO, Code::KeyP, Code::KeyQ, Code::KeyR, Code::KeyS, Code::KeyT,
        Code::KeyU, Code::KeyV, Code::KeyW, Code::KeyX, Code::KeyY,
        Code::Digit1, Code::Digit5, Code::Digit9,
        Code::F1, Code::F5, Code::F12,
        Code::Enter, Code::Tab, Code::Escape, Code::Backspace,
        Code::ArrowUp, Code::ArrowDown, Code::Home, Code::End,
        Code::Numpad0, Code::Numpad9, Code::ScrollLock, Code::NumLock,
    ] {
        assert!(code_to_vk(&c).is_some(), "{c:?} is not pollable");
    }
}

#[test]
fn suppression_window_expires() {
    let now = 10_000u64;
    assert!(!is_suppressed(None, now));
    assert!(is_suppressed(Some(now + 50), now));
    assert!(!is_suppressed(Some(now - 1), now));
}

#[test]
fn capslock_hotkey_detected_by_name() {
    assert!(hotkey_is_capslock("CapsLock"));
    assert!(hotkey_is_capslock(" capslock "));
    assert!(hotkey_is_capslock("CAPSLOCK"));
    assert!(!hotkey_is_capslock("Ctrl+CapsLock"));
    assert!(!hotkey_is_capslock("F9"));
    assert!(!hotkey_is_capslock(""));
    // The default hotkey: the caps machinery must stay completely inert.
    assert!(!hotkey_is_capslock("Ctrl+E"));
}

#[test]
fn caps_restore_only_when_state_actually_changed() {
    assert!(caps_restore_needed(Some(false), Some(true)));
    assert!(caps_restore_needed(Some(true), Some(false)));
    assert!(!caps_restore_needed(Some(true), Some(true)));
    assert!(!caps_restore_needed(Some(false), Some(false)));
    assert!(!caps_restore_needed(None, Some(true)));
    assert!(!caps_restore_needed(Some(true), None));
}

#[test]
fn suppression_covers_its_window_and_nothing_else() {
    let mut s = Suppression::new();
    assert!(!s.suppressed(0));
    s.suppress_for(SYNTHETIC_SUPPRESS, 1_000);
    assert!(s.suppressed(1_000));
    assert!(s.suppressed(1_199));
    assert!(!s.suppressed(1_200));
    s.suppress_for(10, u64::MAX);
    assert!(s.suppressed(u64::MAX - 1));
}

#[test]
fn machine_at_rest_by_default() {
    assert_eq!(Machine::default(), Machine::new());
    assert_eq!(Machine::default().phase(), Phase::Idle);
}

/// Every run of six inputs: never more stops than starts, and a press at rest always starts.
#[test]
fn no_run_of_inputs_stops_a_recording_twice() {
    for code in 0..7u32.pow(6) {
        let mut m = Machine::new();
        let (mut starts, mut stops) = (0, 0);
        let mut rest = code;
        for _ in 0..6 {
            let idle = m.phase() == Phase::Idle;
            let action = match rest % 7 {
                0 => m.press(Toggle),
                1 => m.press(PushToTalk),
                2 => m.release(),
                3 => m.stop_requested(),
                4 => m.started(),
                5 => {
                    m.start_failed();
                    Action::Ignore
                }
                _ => {
                    m.stopped();
                    Action::Ignore
                }
            };
            assert_eq!(action == Action::Start, idle && rest % 7 < 2);
            starts += u32::from(action == Action::Start);
            stops += u32::from(action == Action::Stop);
            assert!(stops <= starts);
            rest /= 7;
        }
    }
}

#[test]
fn keys_share_a_number_only_as_aliases() {
    assert_eq!(code_to_vk(&Code::Enter), code_to_vk(&Code::NumpadEnter));
    assert_eq!(code_to_vk(&Code::Pause), code_to_vk(&Code::MediaPause));
    assert_eq!(code_to_vk(&Code::KeyE), code_to_vk(&Code::NumpadEqual));
    assert_ne!(code_to_vk(&Code::KeyE), code_to_vk(&Code::KeyF));
    assert_eq!(code_to_vk(&Code::MediaTrackPrevious), Some(0xB1));
    assert_eq!(code_to_vk(&Code::Other(0)), None);
}

#[test]
fn caps_lock_is_put_back_however_often_it_was_pressed() {
    for on in [false, true] {
        for presses in 0..5 {
            let now = on ^ (presses % 2 == 1);
            let tapped = now ^ caps_restore_needed(Some(on), Some(now));
            assert_eq!(tapped, on);
        }
    }
}
