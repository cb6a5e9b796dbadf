use codex_mic::winkeys::{
    caps_on, key_is_down, modifiers_held, tap_capslock, wait_for_modifiers_release,
    Keystroke, MODIFIER_POLL, VK_CAPITAL,
};

/// Waits on a clock of its own, with the modifiers held until a given time.
fn wait(held_until: u64, max: u64) -> (bool, u64) {
    let mut now = 0;
    loop {
        match wait_for_modifiers_release(now < held_until, max, now) {
            Some(clean) => return (clean, now),
            None => now += MODIFIER_POLL,
        }
    }
}

#[test]
fn modifier_wait_is_bounded() {
    let (clean, elapsed) = wait(0, 120);
    assert!(clean);
    assert!(elapsed < 400);

    let (clean, elapsed) = wait(60, 120);
    assert!(clean);
    assert_eq!(elapsed, 60);

    let (clean, elapsed) = wait(u64::MAX, 120);
    assert!(!clean);
    assert!(elapsed >= 120);
    assert!(elapsed < 400, "waited {elapsed} for a 120ms budget");
}

#[test]
fn caps_query_is_consistent() {
    assert_eq!(caps_on(None), caps_on(None));
    assert_eq!(caps_on(None), None);
    assert_eq!(caps_on(Some(1)), Some(true));
    assert_eq!(caps_on(Some(0)), Some(false));
    assert_eq!(caps_on(Some(-128)), Some(false));
    assert_eq!(caps_on(Some(-127)), Some(true));
}

#[test]
fn key_state_is_the_highest_bit() {
    assert_eq!(key_is_down(None), None);
    assert_eq!(key_is_down(Some(i16::MIN)), Some(true));
    assert_eq!(key_is_down(Some(1)), Some(false));
    assert!(!modifiers_held(&[]));
    assert!(!modifiers_held(&[0, 1, 0, 0, 0]));
    assert!(modifiers_held(&[0, 0, 0, 0, -32_767]));
}

#[test]
fn a_tap_is_down_and_up() {
    assert_eq!(
        tap_capslock(),
        [Keystroke { vk: VK_CAPITAL, up: false }, Keystroke { vk: VK_CAPITAL, up: true }]
    );
}
