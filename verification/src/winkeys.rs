//! What the keyboard state of Windows means. Elsewhere nothing is known of it.

use vstd::prelude::*;

verus! {

/// The time between two looks at the modifiers, in milliseconds.
pub const MODIFIER_POLL: u64 = 10;

/// CapsLock.
pub const VK_CAPITAL: u16 = 0x14;

/// The keys that change what a keystroke means: Ctrl, Shift, Alt and the two Windows keys.
pub const MODIFIERS: [u16; 5] = [0x11, 0x10, 0x12, 0x5B, 0x5C];

/// Whether CapsLock is on, from the state that `GetKeyState` gave for it: the lowest bit is the
/// toggle. Where there is no such state, nothing is known.
pub fn caps_on(state: Option<i16>) -> (r: Option<bool>)
    ensures
        r == (match state {
            Some(s) => Some(s % 2 != 0),
            None => None,
        }),
{
    match state {
        Some(s) => {
            assert((s & 1 != 0) == (s % 2 != 0)) by (bit_vector);
            Some(s & 1 != 0)
        },
        None => None,
    }
}

/// Whether a key is down, from the state that `GetAsyncKeyState` gave for it: the highest bit,
/// which is the sign. Where there is no such state, nothing is known.
pub fn key_is_down(state: Option<i16>) -> (r: Option<bool>)
    ensures
        r == (match state {
            Some(s) => Some(s < 0),
            None => None,
        }),
{
    match state {
        Some(s) => Some(s < 0),
        None => None,
    }
}

/// A key is down, from the states of some.
pub open spec fn any_down(states: Seq<i16>) -> bool {
    exists|i: int| 0 <= i < states.len() && #[trigger] states[i] < 0
}

/// Whether any modifier is down, from their states. Where there are none, none is.
pub fn modifiers_held(states: &[i16]) -> (r: bool)
    ensures
        r == (exists|i: int| 0 <= i < states@.len() && #[trigger] states@[i] < 0),
        r == any_down(states@),
{
    for i in 0..states.len()
        invariant
            forall|j: int| 0 <= j < i ==> #[trigger] states@[j] >= 0,
    {
        if states[i] < 0 {
            return true;
        }
    }
    false
}

/// A keystroke of our own.
#[derive(Debug, Clone, Copy, PartialEq, Eq, Structural)]
pub struct Keystroke {
    pub vk: u16,
    pub up: bool,
}

/// The keystrokes that press CapsLock once: down and up, in one batch.
pub fn tap_capslock() -> (r: [Keystroke; 2])
    ensures
        r@ == seq![
            (Keystroke { vk: VK_CAPITAL, up: false }),
            (Keystroke { vk: VK_CAPITAL, up: true }),
        ],
{
    [Keystroke { vk: VK_CAPITAL, up: false }, Keystroke { vk: VK_CAPITAL, up: true }]
}

/// Whether the wait for the modifiers to come up is over, and if so whether they did.
pub open spec fn modifier_wait(held: bool, deadline: u64, now: u64) -> Option<bool> {
    if !held {
        Some(true)
    } else if now >= deadline {
        Some(false)
    } else {
        None
    }
}

/// Whether the wait for the modifiers to come up is over, and if so whether they did. Where it is
/// not, look again after [`MODIFIER_POLL`].
pub fn wait_for_modifiers_release(held: bool, deadline: u64, now: u64) -> (r: Option<bool>)
    ensures
        r == modifier_wait(held, deadline, now),
{
    if !held {
        return Some(true);
    }
    if now >= deadline {
        return Some(false);
    }
    None
}

/// The wait ends at the deadline, and before it only with a clean keyboard.
pub proof fn lemma_modifier_wait_is_bounded(held: bool, deadline: u64, now: u64)
    ensures
        now >= deadline ==> modifier_wait(held, deadline, now) is Some,
        modifier_wait(held, deadline, now) == Some(false) ==> now >= deadline && held,
{
}

/// What a key's state says: of CapsLock whether it is on, in the lowest bit, and of any key whether
/// it is down, in the highest. Of no state nothing is said.
pub proof fn lemma_what_a_state_says(
    bits: u16,
    state: i16,
    on: Option<bool>,
    down: Option<bool>,
    no_on: Option<bool>,
    no_down: Option<bool>,
)
    requires
        state == (if bits >= 0x8000 {
            bits - 0x1_0000
        } else {
            bits as int
        }),
        call_ensures(caps_on, (Some(state),), on),
        call_ensures(key_is_down, (Some(state),), down),
        call_ensures(caps_on, (None::<i16>,), no_on),
        call_ensures(key_is_down, (None::<i16>,), no_down),
    ensures
        on == Some(bits % 2 == 1),
        down == Some(bits >= 0x8000),
        no_on is None && no_down is None,
{
}

/// A modifier is held where any one of them is down.
pub proof fn lemma_any_modifier_counts(states: &[i16], i: int, r: bool)
    requires
        call_ensures(modifiers_held, (states,), r),
    ensures
        0 <= i < states@.len() && states@[i] < 0 ==> r,
        (forall|j: int| 0 <= j < states@.len() ==> #[trigger] states@[j] >= 0) ==> !r,
{
    if 0 <= i < states@.len() && states@[i] < 0 {
        assert(any_down(states@));
    }
}

/// A tap of CapsLock is CapsLock down and then up, and nothing else.
pub proof fn lemma_a_tap_is_down_and_up(r: [Keystroke; 2])
    requires
        call_ensures(tap_capslock, (), r),
    ensures
        r@[0] == (Keystroke { vk: 0x14, up: false }),
        r@[1] == (Keystroke { vk: 0x14, up: true }),
{
}

/// The modifiers are waited for until they are up, and no longer than the deadline; whether they
/// came up is said as it is.
pub proof fn lemma_how_modifiers_are_waited_for(
    held: bool,
    deadline: u64,
    now: u64,
    r: Option<bool>,
)
    requires
        call_ensures(wait_for_modifiers_release, (held, deadline, now), r),
    ensures
        r is None <==> held && now < deadline,
        r matches Some(up) ==> up == !held,
{
}

} // verus!
