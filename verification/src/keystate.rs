//! The life of a dictation: whatever can start or stop a recording goes through one machine.

use vstd::prelude::*;

use crate::config::ActivationMode;
use crate::text;
use crate::text::trimmed;

verus! {

#[derive(Debug, Clone, Copy, PartialEq, Eq, Structural)]
pub enum Phase {
    Idle,
    /// The microphone is being opened and the session connected, which can take seconds.
    Starting,
    Recording,
    /// The audio is drained, the transcript awaited and put at the cursor.
    Stopping,
}

#[derive(Debug, Clone, Copy, PartialEq, Eq, Structural)]
pub enum Action {
    Start,
    Stop,
    Ignore,
}

/// How long hotkey events are passed over after a keystroke of our own, in milliseconds.
pub const SYNTHETIC_SUPPRESS: u64 = 200;

#[derive(Debug, Clone, Copy, PartialEq, Eq, Structural)]
pub struct Machine {
    pub phase: Phase,
    /// A stop was asked for while the recording was starting.
    pub stop_pending: bool,
    /// The activation mode in force when the key went down.
    pub active_mode: Option<ActivationMode>,
}

/// What can happen to the machine.
pub enum Input {
    Press(ActivationMode),
    Release,
    StopRequested,
    Started,
    StartFailed,
    Stopped,
}

/// No recording, and nothing asked for.
pub open spec fn at_rest() -> Machine {
    Machine { phase: Phase::Idle, stop_pending: false, active_mode: None }
}

/// After a stop was asked for: a recording stops, one that is starting stops as soon as it runs.
pub open spec fn stop_asked(m: Machine) -> (Machine, Action) {
    match m.phase {
        Phase::Recording => (Machine { phase: Phase::Stopping, ..m }, Action::Stop),
        Phase::Starting => (Machine { stop_pending: true, ..m }, Action::Ignore),
        _ => (m, Action::Ignore),
    }
}

/// The machine after an input, and what it asks for.
pub open spec fn next(m: Machine, input: Input) -> (Machine, Action) {
    match input {
        Input::Press(mode) => {
            let pressed = Machine { active_mode: Some(mode), ..m };
            if m.phase == Phase::Idle {
                (
                    Machine { phase: Phase::Starting, stop_pending: false, ..pressed },
                    Action::Start,
                )
            } else if mode == ActivationMode::Toggle {
                stop_asked(pressed)
            } else {
                (pressed, Action::Ignore)
            }
        },
        Input::Release => if m.active_mode == Some(ActivationMode::PushToTalk) {
            stop_asked(m)
        } else {
            (m, Action::Ignore)
        },
        Input::StopRequested => stop_asked(m),
        Input::Started => if m.phase != Phase::Starting {
            (m, Action::Ignore)
        } else if m.stop_pending {
            (Machine { phase: Phase::Stopping, stop_pending: false, ..m }, Action::Stop)
        } else {
            (Machine { phase: Phase::Recording, ..m }, Action::Ignore)
        },
        Input::StartFailed | Input::Stopped => (
            Machine { phase: Phase::Idle, stop_pending: false, ..m },
            Action::Ignore,
        ),
    }
}

impl Machine {
    /// A stop waits only while a recording is starting.
    pub open spec fn wf(self) -> bool {
        self.stop_pending ==> self.phase == Phase::Starting
    }

    pub fn new() -> (r: Machine)
        ensures
            r == at_rest(),
    {
        Machine { phase: Phase::Idle, stop_pending: false, active_mode: None }
    }

    pub fn phase(&self) -> (r: Phase)
        ensures
            r == self.phase,
    {
        self.phase
    }

    /// The hotkey went down.
    pub fn press(&mut self, mode: ActivationMode) -> (r: Action)
        ensures
            (*final(self), r) == next(*old(self), Input::Press(mode)),
    {
        self.active_mode = Some(mode);
        match (mode, self.phase) {
            (_, Phase::Idle) => {
                self.stop_pending = false;
                self.phase = Phase::Starting;
                Action::Start
            },
            (ActivationMode::Toggle, Phase::Recording) => {
                self.phase = Phase::Stopping;
                Action::Stop
            },
            (ActivationMode::Toggle, Phase::Starting) => {
                self.stop_pending = true;
                Action::Ignore
            },
            _ => Action::Ignore,
        }
    }

    /// The hotkey came up. It counts by the mode in which it went down.
    pub fn release(&mut self) -> (r: Action)
        ensures
            (*final(self), r) == next(*old(self), Input::Release),
    {
        match self.active_mode {
            Some(ActivationMode::PushToTalk) => self.stop_requested(),
            _ => Action::Ignore,
        }
    }

    /// A stop was asked for by something other than the hotkey.
    pub fn stop_requested(&mut self) -> (r: Action)
        ensures
            (*final(self), r) == next(*old(self), Input::StopRequested),
    {
        match self.phase {
            Phase::Recording => {
                self.phase = Phase::Stopping;
                Action::Stop
            },
            Phase::Starting => {
                self.stop_pending = true;
                Action::Ignore
            },
            _ => Action::Ignore,
        }
    }

    /// The recording runs. It is to stop at once where a stop came before.
    pub fn started(&mut self) -> (r: Action)
        ensures
            (*final(self), r) == next(*old(self), Input::Started),
    {
        if self.phase != Phase::Starting {
            return Action::Ignore;
        }
        if self.stop_pending {
            self.stop_pending = false;
            self.phase = Phase::Stopping;
            Action::Stop
        } else {
            self.phase = Phase::Recording;
            Action::Ignore
        }
    }

    /// The recording could not be started.
    pub fn start_failed(&mut self)
        ensures
            *final(self) == next(*old(self), Input::StartFailed).0,
    {
        self.phase = Phase::Idle;
        self.stop_pending = false;
    }

    /// The recording has stopped.
    pub fn stopped(&mut self)
        ensures
            *final(self) == next(*old(self), Input::Stopped).0,
    {
        self.phase = Phase::Idle;
        self.stop_pending = false;
    }
}

impl Default for Machine {
    fn default() -> (r: Machine)
        ensures
            r == at_rest(),
    {
        Machine::new()
    }
}

/// A machine with what it has asked for so far.
pub struct Run {
    pub machine: Machine,
    pub starts: nat,
    pub stops: nat,
}

/// The machine after a run of inputs, with what it asked for.
pub open spec fn run(inputs: Seq<Input>) -> Run
    decreases inputs.len(),
{
    if inputs.len() == 0 {
        Run { machine: at_rest(), starts: 0, stops: 0 }
    } else {
        let before = run(inputs.drop_last());
        let (machine, action) = next(before.machine, inputs.last());
        Run {
            machine,
            starts: if action == Action::Start {
                before.starts + 1
            } else {
                before.starts
            },
            stops: if action == Action::Stop {
                before.stops + 1
            } else {
                before.stops
            },
        }
    }
}

/// After any inputs whatever, no recording has been stopped twice: there were no more stops than
/// starts, and one fewer where a recording is starting or runs. And a stop waits only while a
/// recording is starting.
pub proof fn lemma_no_recording_stops_twice(inputs: Seq<Input>)
    ensures
        run(inputs).machine.wf(),
        run(inputs).stops <= run(inputs).starts,
        run(inputs).machine.phase == Phase::Starting || run(inputs).machine.phase
            == Phase::Recording ==> run(inputs).stops < run(inputs).starts,
    decreases inputs.len(),
{
    if inputs.len() > 0 {
        lemma_no_recording_stops_twice(inputs.drop_last());
    }
}

/// A recording is started only by a press at rest, and every press at rest starts one: two
/// recordings never run at once.
pub proof fn lemma_starts_only_at_rest(m: Machine, input: Input)
    ensures
        next(m, input).1 == Action::Start <==> m.phase == Phase::Idle && input is Press,
        next(m, input).1 == Action::Start ==> next(m, input).0.phase == Phase::Starting && !next(
            m,
            input,
        ).0.stop_pending,
{
}

/// A recording is ended only from a recording that is starting or runs, and its end is entered
/// once: until it is over, nothing starts and nothing stops.
pub proof fn lemma_an_end_is_entered_once(m: Machine, input: Input)
    ensures
        next(m, input).1 == Action::Stop ==> (m.phase == Phase::Starting || m.phase
            == Phase::Recording) && next(m, input).0.phase == Phase::Stopping,
        m.phase == Phase::Stopping ==> next(m, input).1 == Action::Ignore,
        m.phase == Phase::Stopping && !(input is Stopped) && !(input is StartFailed) ==> next(
            m,
            input,
        ).0.phase == Phase::Stopping,
{
}

/// A stop that comes while a recording is starting is kept until it runs, and then obeyed.
pub proof fn lemma_early_stop_is_obeyed(m: Machine)
    requires
        m.phase == Phase::Starting,
    ensures
        next(m, Input::StopRequested).1 == Action::Ignore,
        next(next(m, Input::StopRequested).0, Input::Started).1 == Action::Stop,
{
}

/// A stop never reaches over into the next recording: whatever came before, a recording begun at
/// rest runs when it has started.
pub proof fn lemma_stop_does_not_leak(m: Machine, mode: ActivationMode)
    requires
        m.phase == Phase::Idle,
    ensures
        ({
            let begun = next(m, Input::Press(mode)).0;
            next(begun, Input::Started).1 == Action::Ignore && next(begun, Input::Started).0.phase
                == Phase::Recording
        }),
{
}

/// The key coming up ends nothing where it went down as a toggle.
pub proof fn lemma_toggle_release_is_inert(m: Machine)
    ensures
        ({
            let pressed = next(m, Input::Press(ActivationMode::Toggle)).0;
            next(pressed, Input::Release) == (pressed, Action::Ignore)
        }),
{
}

/// A press at rest starts a recording, in either mode. A press in toggle mode ends one that runs,
/// and one that is starting as soon as it runs. Every other press, such as a key held down repeats,
/// leaves the recording as it is. From then on the key counts by the mode of the press.
pub proof fn lemma_what_a_press_does(m: &mut Machine, mode: ActivationMode, r: Action)
    requires
        call_ensures(Machine::press, (m, mode), r),
    ensures
        r == Action::Start <==> old(m).phase == Phase::Idle,
        r == Action::Stop <==> old(m).phase == Phase::Recording && mode == ActivationMode::Toggle,
        r == Action::Start ==> final(m).phase == Phase::Starting && !final(m).stop_pending,
        r == Action::Stop ==> final(m).phase == Phase::Stopping,
        r == Action::Ignore ==> final(m).phase == old(m).phase,
        r != Action::Start ==> final(m).stop_pending == (old(m).stop_pending || (old(m).phase
            == Phase::Starting && mode == ActivationMode::Toggle)),
        final(m).active_mode == Some(mode),
{
}

/// The key coming up ends a recording that runs, and one that is starting as soon as it runs,
/// exactly where the key went down to be held. Otherwise it changes nothing.
pub proof fn lemma_what_a_release_does(m: &mut Machine, r: Action)
    requires
        call_ensures(Machine::release, (m,), r),
    ensures
        r == Action::Stop <==> old(m).phase == Phase::Recording && old(m).active_mode == Some(
            ActivationMode::PushToTalk,
        ),
        r == Action::Stop || r == Action::Ignore,
        final(m).phase == (if r == Action::Stop {
            Phase::Stopping
        } else {
            old(m).phase
        }),
        final(m).stop_pending == (old(m).stop_pending || (old(m).phase == Phase::Starting
            && old(m).active_mode == Some(ActivationMode::PushToTalk))),
        final(m).active_mode == old(m).active_mode,
{
}

/// A stop asked for by anything else ends a recording that runs, whatever the mode, is kept for one
/// that is starting, and is nothing otherwise.
pub proof fn lemma_what_a_stop_does(m: &mut Machine, r: Action)
    requires
        call_ensures(Machine::stop_requested, (m,), r),
    ensures
        r == Action::Stop <==> old(m).phase == Phase::Recording,
        r == Action::Stop || r == Action::Ignore,
        final(m).phase == (if r == Action::Stop {
            Phase::Stopping
        } else {
            old(m).phase
        }),
        final(m).stop_pending == (old(m).stop_pending || old(m).phase == Phase::Starting),
        final(m).active_mode == old(m).active_mode,
{
}

/// A start that has succeeded leads to a recording that runs, or, where a stop is kept, to its end.
/// It is asked to stop in that case only, and the stop is used up.
pub proof fn lemma_what_a_start_leads_to(m: &mut Machine, r: Action)
    requires
        call_ensures(Machine::started, (m,), r),
    ensures
        r == Action::Stop <==> old(m).phase == Phase::Starting && old(m).stop_pending,
        r == Action::Stop || r == Action::Ignore,
        old(m).phase == Phase::Starting && !old(m).stop_pending ==> final(m).phase
            == Phase::Recording,
        old(m).phase == Phase::Starting && old(m).stop_pending ==> final(m).phase
            == Phase::Stopping,
        old(m).phase == Phase::Starting ==> !final(m).stop_pending,
        old(m).phase != Phase::Starting ==> *final(m) == *old(m),
        final(m).active_mode == old(m).active_mode,
{
}

/// A recording that has stopped and a start that has failed both leave the machine at rest, from
/// wherever it was, with no stop kept.
pub proof fn lemma_what_an_end_leaves(stopped: &mut Machine, failed: &mut Machine)
    requires
        call_ensures(Machine::stopped, (stopped,), ()),
        call_ensures(Machine::start_failed, (failed,), ()),
    ensures
        final(stopped).phase == Phase::Idle,
        !final(stopped).stop_pending,
        final(stopped).active_mode == old(stopped).active_mode,
        final(failed).phase == Phase::Idle,
        !final(failed).stop_pending,
        final(failed).active_mode == old(failed).active_mode,
{
}

/// Hold to talk: the press starts a recording, the key held down repeats without effect, and its
/// release ends the recording, which is then over.
pub proof fn lemma_hold_to_talk(m: Machine)
    requires
        m.phase == Phase::Idle,
    ensures
        ({
            let hold = Input::Press(ActivationMode::PushToTalk);
            let begun = next(m, hold);
            let running = next(begun.0, Input::Started);
            let repeated = next(running.0, hold);
            let ended = next(repeated.0, Input::Release);
            let over = next(ended.0, Input::Stopped);
            &&& begun.1 == Action::Start
            &&& running.1 == Action::Ignore && running.0.phase == Phase::Recording
            &&& repeated == (running.0, Action::Ignore)
            &&& ended.1 == Action::Stop && ended.0.phase == Phase::Stopping
            &&& over.0.phase == Phase::Idle
        }),
{
}

/// Press to talk, press to stop: in toggle mode the recording goes on when the key comes up, and
/// the second press ends it.
pub proof fn lemma_press_to_talk_press_to_stop(m: Machine)
    requires
        m.phase == Phase::Idle,
    ensures
        ({
            let press = Input::Press(ActivationMode::Toggle);
            let begun = next(m, press);
            let running = next(next(begun.0, Input::Started).0, Input::Release);
            let ended = next(running.0, press);
            &&& begun.1 == Action::Start
            &&& running.1 == Action::Ignore && running.0.phase == Phase::Recording
            &&& ended.1 == Action::Stop && ended.0.phase == Phase::Stopping
        }),
{
}

/// A tap that is over before the recording runs still ends it: it is asked to stop as soon as it
/// runs, and once.
pub proof fn lemma_tap_before_the_start(m: Machine)
    requires
        m.phase == Phase::Idle,
    ensures
        ({
            let begun = next(m, Input::Press(ActivationMode::PushToTalk)).0;
            let tapped = next(begun, Input::Release);
            let running = next(tapped.0, Input::Started);
            &&& tapped.1 == Action::Ignore && tapped.0.phase == Phase::Starting
            &&& running.1 == Action::Stop && running.0.phase == Phase::Stopping
            &&& next(running.0, Input::Started).1 == Action::Ignore
        }),
{
}

// ---------------------------------------------------------------------------------------------
// Keystrokes of our own
// ---------------------------------------------------------------------------------------------

/// Until when hotkey events are passed over.
#[derive(Debug, Clone, Copy, PartialEq, Eq, Structural)]
pub struct Suppression {
    pub until: Option<u64>,
}

impl Suppression {
    pub fn new() -> (r: Suppression)
        ensures
            r.until is None,
    {
        Suppression { until: None }
    }

    /// Passes hotkey events over for a time.
    pub fn suppress_for(&mut self, window: u64, now: u64)
        ensures
            final(self).until == Some(
                if now + window <= u64::MAX {
                    (now + window) as u64
                } else {
                    u64::MAX
                },
            ),
    {
        self.until = Some(now.saturating_add(window));
    }

    /// Whether hotkey events are passed over.
    pub fn suppressed(&self, now: u64) -> (r: bool)
        ensures
            r == (self.until matches Some(t) && now < t),
    {
        is_suppressed(self.until, now)
    }
}

pub fn is_suppressed(until: Option<u64>, now: u64) -> (r: bool)
    ensures
        r == (until matches Some(t) && now < t),
{
    match until {
        Some(t) => now < t,
        None => false,
    }
}

/// Hotkey events are passed over for exactly as long as was asked, from then on: not a moment less,
/// and none longer.
pub proof fn lemma_suppressed_for_the_window(
    before: &mut Suppression,
    after: Suppression,
    window: u64,
    now: u64,
    later: u64,
    r: bool,
)
    requires
        call_ensures(Suppression::suppress_for, (before, window, now), ()),
        after == *final(before),
        call_ensures(Suppression::suppressed, (&after, later), r),
        now + window <= u64::MAX,
    ensures
        r <==> later < now + window,
{
}

/// Before anything was ever suppressed, nothing is.
pub proof fn lemma_nothing_suppressed_at_first(s: Suppression, now: u64, r: bool)
    requires
        call_ensures(Suppression::new, (), s),
        call_ensures(Suppression::suppressed, (&s, now), r),
    ensures
        !r,
{
}

/// Whether the hotkey is CapsLock alone.
pub fn hotkey_is_capslock(hotkey: &str) -> (r: bool)
    ensures
        r == text::same_ignoring_ascii_case(trimmed(hotkey@), "capslock"@),
{
    text::eq_ignore_ascii_case(text::trim(hotkey), "capslock")
}

/// The hotkey is CapsLock however it is written in upper and lower case and padded, and nothing
/// that differs from it in another letter or in length is.
pub proof fn lemma_capslock_by_name(hotkey: &str, r: bool)
    requires
        call_ensures(hotkey_is_capslock, (hotkey,), r),
    ensures
        r ==> trimmed(hotkey@).len() == 8,
        trimmed(hotkey@) == "capslock"@ || trimmed(hotkey@) == "CapsLock"@ || trimmed(hotkey@)
            == "CAPSLOCK"@ ==> r,
        r ==> forall|i: int|
            0 <= i < 8 ==> #[trigger] text::ascii_lower(trimmed(hotkey@)[i]) == "capslock"@[i],
{
    reveal_strlit("capslock");
    reveal_strlit("CapsLock");
    reveal_strlit("CAPSLOCK");
    assert("capslock"@.len() == 8 && "CapsLock"@.len() == 8 && "CAPSLOCK"@.len() == 8);
    let t = trimmed(hotkey@);
    assert forall|i: int| 0 <= i < 8 implies text::ascii_lower("capslock"@[i])
        == "capslock"@[i] by {}
    if r {
        assert forall|i: int| 0 <= i < 8 implies #[trigger] text::ascii_lower(t[i])
            == "capslock"@[i] by {
            assert(text::ascii_lower(t[i]) == text::ascii_lower("capslock"@[i]));
        }
    }
    if t == "CapsLock"@ || t == "CAPSLOCK"@ {
        assert forall|i: int| 0 <= i < t.len() implies text::ascii_lower(#[trigger] t[i])
            == text::ascii_lower("capslock"@[i]) by {}
    }
}

/// CapsLock is known to have changed.
pub open spec fn caps_changed(before: Option<bool>, after: Option<bool>) -> bool {
    before is Some && after is Some && before != after
}

/// CapsLock after a number of presses.
pub open spec fn caps_after(on: bool, presses: nat) -> bool {
    on == (presses % 2 == 0)
}

/// However often CapsLock was pressed over a dictation, one press more where it changed, and none
/// where it did not, puts it back.
pub proof fn lemma_caps_is_put_back(on: bool, presses: nat)
    ensures
        ({
            let now = caps_after(on, presses);
            let taps: nat = if caps_changed(Some(on), Some(now)) {
                1
            } else {
                0
            };
            caps_after(now, taps) == on
        }),
{
}

/// Whether CapsLock changed over a dictation, so that it is to be put back. What is not known
/// has not changed.
pub fn caps_restore_needed(before: Option<bool>, after: Option<bool>) -> (r: bool)
    ensures
        r == caps_changed(before, after),
{
    match (before, after) {
        (Some(a), Some(b)) => a != b,
        _ => false,
    }
}

/// CapsLock is put back exactly where both states are known and differ: never on a guess.
pub proof fn lemma_caps_is_restored_on_knowledge(before: Option<bool>, after: Option<bool>, r: bool)
    requires
        call_ensures(caps_restore_needed, (before, after), r),
    ensures
        before is None || after is None ==> !r,
        before is Some && after == before ==> !r,
        before == Some(true) && after == Some(false) ==> r,
        before == Some(false) && after == Some(true) ==> r,
{
}

// ---------------------------------------------------------------------------------------------
// Keys
// ---------------------------------------------------------------------------------------------

/// The main key of a shortcut.
#[derive(Debug, Clone, Copy, PartialEq, Eq, Structural)]
pub enum Code {
    KeyA,
    KeyB,
    KeyC,
    KeyD,
    KeyE,
    KeyF,
    KeyG,
    KeyH,
    KeyI,
    KeyJ,
    KeyK,
    KeyL,
    KeyM,
    KeyN,
    KeyO,
    KeyP,
    KeyQ,
    KeyR,
    KeyS,
    KeyT,
    KeyU,
    KeyV,
    KeyW,
    KeyX,
    KeyY,
    KeyZ,
    Digit0,
    Digit1,
    Digit2,
    Digit3,
    Digit4,
    Digit5,
    Digit6,
    Digit7,
    Digit8,
    Digit9,
    Equal,
    Comma,
    Minus,
    Period,
    Semicolon,
    Slash,
    Backquote,
    BracketLeft,
    Backslash,
    BracketRight,
    Quote,
    Backspace,
    Tab,
    Space,
    Enter,
    NumpadEnter,
    CapsLock,
    Escape,
    PageUp,
    PageDown,
    End,
    Home,
    ArrowLeft,
    ArrowUp,
    ArrowRight,
    ArrowDown,
    PrintScreen,
    Insert,
    Delete,
    F1,
    F2,
    F3,
    F4,
    F5,
    F6,
    F7,
    F8,
    F9,
    F10,
    F11,
    F12,
    F13,
    F14,
    F15,
    F16,
    F17,
    F18,
    F19,
    F20,
    F21,
    F22,
    F23,
    F24,
    NumLock,
    Numpad0,
    Numpad1,
    Numpad2,
    Numpad3,
    Numpad4,
    Numpad5,
    Numpad6,
    Numpad7,
    Numpad8,
    Numpad9,
    NumpadAdd,
    NumpadDecimal,
    NumpadDivide,
    NumpadEqual,
    NumpadMultiply,
    NumpadSubtract,
    ScrollLock,
    AudioVolumeDown,
    AudioVolumeUp,
    AudioVolumeMute,
    MediaPlay,
    MediaPause,
    Pause,
    MediaPlayPause,
    MediaStop,
    MediaTrackNext,
    MediaTrackPrevious,
    Fn,
    /// A key that has no number below. What it holds tells such keys apart.
    Other(u32),
}

/// The number that Windows gives a key, where it can be asked whether the key is down.
pub open spec fn virtual_key(code: Code) -> Option<u16> {
    match code {
        Code::KeyA => Some(0x41),
        Code::KeyB => Some(0x42),
        Code::KeyC => Some(0x43),
        Code::KeyD => Some(0x44),
        Code::KeyE => Some(0x45),
        Code::KeyF => Some(0x46),
        Code::KeyG => Some(0x47),
        Code::KeyH => Some(0x48),
        Code::KeyI => Some(0x49),
        Code::KeyJ => Some(0x4A),
        Code::KeyK => Some(0x4B),
        Code::KeyL => Some(0x4C),
        Code::KeyM => Some(0x4D),
        Code::KeyN => Some(0x4E),
        Code::KeyO => Some(0x4F),
        Code::KeyP => Some(0x50),
        Code::KeyQ => Some(0x51),
        Code::KeyR => Some(0x52),
        Code::KeyS => Some(0x53),
        Code::KeyT => Some(0x54),
        Code::KeyU => Some(0x55),
        Code::KeyV => Some(0x56),
        Code::KeyW => Some(0x57),
        Code::KeyX => Some(0x58),
        Code::KeyY => Some(0x59),
        Code::KeyZ => Some(0x5A),
        Code::Digit0 => Some(0x30),
        Code::Digit1 => Some(0x31),
        Code::Digit2 => Some(0x32),
        Code::Digit3 => Some(0x33),
        Code::Digit4 => Some(0x34),
        Code::Digit5 => Some(0x35),
        Code::Digit6 => Some(0x36),
        Code::Digit7 => Some(0x37),
        Code::Digit8 => Some(0x38),
        Code::Digit9 => Some(0x39),
        Code::Equal => Some(0xBB),
        Code::Comma => Some(0xBC),
        Code::Minus => Some(0xBD),
        Code::Period => Some(0xBE),
        Code::Semicolon => Some(0xBA),
        Code::Slash => Some(0xBF),
        Code::Backquote => Some(0xC0),
        Code::BracketLeft => Some(0xDB),
        Code::Backslash => Some(0xDC),
        Code::BracketRight => Some(0xDD),
        Code::Quote => Some(0xDE),
        Code::Backspace => Some(0x08),
        Code::Tab => Some(0x09),
        Code::Space => Some(0x20),
        Code::Enter => Some(0x0D),
        Code::NumpadEnter => Some(0x0D),
        Code::CapsLock => Some(0x14),
        Code::Escape => Some(0x1B),
        Code::PageUp => Some(0x21),
        Code::PageDown => Some(0x22),
        Code::End => Some(0x23),
        Code::Home => Some(0x24),
        Code::ArrowLeft => Some(0x25),
        Code::ArrowUp => Some(0x26),
        Code::ArrowRight => Some(0x27),
        Code::ArrowDown => Some(0x28),
        Code::PrintScreen => Some(0x2C),
        Code::Insert => Some(0x2D),
        Code::Delete => Some(0x2E),
        Code::F1 => Some(0x70),
        Code::F2 => Some(0x71),
        Code::F3 => Some(0x72),
        Code::F4 => Some(0x73),
        Code::F5 => Some(0x74),
        Code::F6 => Some(0x75),
        Code::F7 => Some(0x76),
        Code::F8 => Some(0x77),
        Code::F9 => Some(0x78),
        Code::F10 => Some(0x79),
        Code::F11 => Some(0x7A),
        Code::F12 => Some(0x7B),
        Code::F13 => Some(0x7C),
        Code::F14 => Some(0x7D),
        Code::F15 => Some(0x7E),
        Code::F16 => Some(0x7F),
        Code::F17 => Some(0x80),
        Code::F18 => Some(0x81),
        Code::F19 => Some(0x82),
        Code::F20 => Some(0x83),
        Code::F21 => Some(0x84),
        Code::F22 => Some(0x85),
        Code::F23 => Some(0x86),
        Code::F24 => Some(0x87),
        Code::NumLock => Some(0x90),
        Code::Numpad0 => Some(0x60),
        Code::Numpad1 => Some(0x61),
        Code::Numpad2 => Some(0x62),
        Code::Numpad3 => Some(0x63),
        Code::Numpad4 => Some(0x64),
        Code::Numpad5 => Some(0x65),
        Code::Numpad6 => Some(0x66),
        Code::Numpad7 => Some(0x67),
        Code::Numpad8 => Some(0x68),
        Code::Numpad9 => Some(0x69),
        Code::NumpadAdd => Some(0x6B),
        Code::NumpadDecimal => Some(0x6E),
        Code::NumpadDivide => Some(0x6F),
        Code::NumpadEqual => Some(0x45),
        Code::NumpadMultiply => Some(0x6A),
        Code::NumpadSubtract => Some(0x6D),
        Code::ScrollLock => Some(0x91),
        Code::AudioVolumeDown => Some(0xAE),
        Code::AudioVolumeUp => Some(0xAF),
        Code::AudioVolumeMute => Some(0xAD),
        Code::MediaPlay => Some(0xFA),
        Code::MediaPause => Some(0x13),
        Code::Pause => Some(0x13),
        Code::MediaPlayPause => Some(0xB3),
        Code::MediaStop => Some(0xB2),
        Code::MediaTrackNext => Some(0xB0),
        Code::MediaTrackPrevious => Some(0xB1),
        Code::Fn | Code::Other(_) => None,
    }
}

/// The number that Windows gives a key. None where it cannot be asked whether the key is down.
pub fn code_to_vk(code: &Code) -> (r: Option<u16>)
    ensures
        r == virtual_key(*code),
{
    let vk: u16 = match code {
        Code::KeyA => 0x41,
        Code::KeyB => 0x42,
        Code::KeyC => 0x43,
        Code::KeyD => 0x44,
        Code::KeyE => 0x45,
        Code::KeyF => 0x46,
        Code::KeyG => 0x47,
        Code::KeyH => 0x48,
        Code::KeyI => 0x49,
        Code::KeyJ => 0x4A,
        Code::KeyK => 0x4B,
        Code::KeyL => 0x4C,
        Code::KeyM => 0x4D,
        Code::KeyN => 0x4E,
        Code::KeyO => 0x4F,
        Code::KeyP => 0x50,
        Code::KeyQ => 0x51,
        Code::KeyR => 0x52,
        Code::KeyS => 0x53,
        Code::KeyT => 0x54,
        Code::KeyU => 0x55,
        Code::KeyV => 0x56,
        Code::KeyW => 0x57,
        Code::KeyX => 0x58,
        Code::KeyY => 0x59,
        Code::KeyZ => 0x5A,
        Code::Digit0 => 0x30,
        Code::Digit1 => 0x31,
        Code::Digit2 => 0x32,
        Code::Digit3 => 0x33,
        Code::Digit4 => 0x34,
        Code::Digit5 => 0x35,
        Code::Digit6 => 0x36,
        Code::Digit7 => 0x37,
        Code::Digit8 => 0x38,
        Code::Digit9 => 0x39,
        Code::Equal => 0xBB,
        Code::Comma => 0xBC,
        Code::Minus => 0xBD,
        Code::Period => 0xBE,
        Code::Semicolon => 0xBA,
        Code::Slash => 0xBF,
        Code::Backquote => 0xC0,
        Code::BracketLeft => 0xDB,
        Code::Backslash => 0xDC,
        Code::BracketRight => 0xDD,
        Code::Quote => 0xDE,
        Code::Backspace => 0x08,
        Code::Tab => 0x09,
        Code::Space => 0x20,
        Code::Enter => 0x0D,
        Code::NumpadEnter => 0x0D,
        Code::CapsLock => 0x14,
        Code::Escape => 0x1B,
        Code::PageUp => 0x21,
        Code::PageDown => 0x22,
        Code::End => 0x23,
        Code::Home => 0x24,
        Code::ArrowLeft => 0x25,
        Code::ArrowUp => 0x26,
        Code::ArrowRight => 0x27,
        Code::ArrowDown => 0x28,
        Code::PrintScreen => 0x2C,
        Code::Insert => 0x2D,
        Code::Delete => 0x2E,
        Code::F1 => 0x70,
        Code::F2 => 0x71,
        Code::F3 => 0x72,
        Code::F4 => 0x73,
        Code::F5 => 0x74,
        Code::F6 => 0x75,
        Code::F7 => 0x76,
        Code::F8 => 0x77,
        Code::F9 => 0x78,
        Code::F10 => 0x79,
        Code::F11 => 0x7A,
        Code::F12 => 0x7B,
        Code::F13 => 0x7C,
        Code::F14 => 0x7D,
        Code::F15 => 0x7E,
        Code::F16 => 0x7F,
        Code::F17 => 0x80,
        Code::F18 => 0x81,
        Code::F19 => 0x82,
        Code::F20 => 0x83,
        Code::F21 => 0x84,
        Code::F22 => 0x85,
        Code::F23 => 0x86,
        Code::F24 => 0x87,
        Code::NumLock => 0x90,
        Code::Numpad0 => 0x60,
        Code::Numpad1 => 0x61,
        Code::Numpad2 => 0x62,
        Code::Numpad3 => 0x63,
        Code::Numpad4 => 0x64,
        Code::Numpad5 => 0x65,
        Code::Numpad6 => 0x66,
        Code::Numpad7 => 0x67,
        Code::Numpad8 => 0x68,
        Code::Numpad9 => 0x69,
        Code::NumpadAdd => 0x6B,
        Code::NumpadDecimal => 0x6E,
        Code::NumpadDivide => 0x6F,
        Code::NumpadEqual => 0x45,
        Code::NumpadMultiply => 0x6A,
        Code::NumpadSubtract => 0x6D,
        Code::ScrollLock => 0x91,
        Code::AudioVolumeDown => 0xAE,
        Code::AudioVolumeUp => 0xAF,
        Code::AudioVolumeMute => 0xAD,
        Code::MediaPlay => 0xFA,
        Code::MediaPause => 0x13,
        Code::Pause => 0x13,
        Code::MediaPlayPause => 0xB3,
        Code::MediaStop => 0xB2,
        Code::MediaTrackNext => 0xB0,
        Code::MediaTrackPrevious => 0xB1,
        Code::Fn => return None,
        Code::Other(_) => return None,
    };
    Some(vk)
}

/// The key shares its number with another: the two enter keys, the two pause keys, and the
/// keypad's equals sign with the letter E.
pub open spec fn is_alias(code: Code) -> bool {
    code == Code::NumpadEnter || code == Code::MediaPause || code == Code::NumpadEqual
}

/// The key that has a number.
pub open spec fn key_of(vk: u16) -> Code {
    match vk {
        0x41 => Code::KeyA,
        0x42 => Code::KeyB,
        0x43 => Code::KeyC,
        0x44 => Code::KeyD,
        0x45 => Code::KeyE,
        0x46 => Code::KeyF,
        0x47 => Code::KeyG,
        0x48 => Code::KeyH,
        0x49 => Code::KeyI,
        0x4A => Code::KeyJ,
        0x4B => Code::KeyK,
        0x4C => Code::KeyL,
        0x4D => Code::KeyM,
        0x4E => Code::KeyN,
        0x4F => Code::KeyO,
        0x50 => Code::KeyP,
        0x51 => Code::KeyQ,
        0x52 => Code::KeyR,
        0x53 => Code::KeyS,
        0x54 => Code::KeyT,
        0x55 => Code::KeyU,
        0x56 => Code::KeyV,
        0x57 => Code::KeyW,
        0x58 => Code::KeyX,
        0x59 => Code::KeyY,
        0x5A => Code::KeyZ,
        0x30 => Code::Digit0,
        0x31 => Code::Digit1,
        0x32 => Code::Digit2,
        0x33 => Code::Digit3,
        0x34 => Code::Digit4,
        0x35 => Code::Digit5,
        0x36 => Code::Digit6,
        0x37 => Code::Digit7,
        0x38 => Code::Digit8,
        0x39 => Code::Digit9,
        0xBB => Code::Equal,
        0xBC => Code::Comma,
        0xBD => Code::Minus,
        0xBE => Code::Period,
        0xBA => Code::Semicolon,
        0xBF => Code::Slash,
        0xC0 => Code::Backquote,
        0xDB => Code::BracketLeft,
        0xDC => Code::Backslash,
        0xDD => Code::BracketRight,
        0xDE => Code::Quote,
        0x08 => Code::Backspace,
        0x09 => Code::Tab,
        0x20 => Code::Space,
        0x0D => Code::Enter,
        0x14 => Code::CapsLock,
        0x1B => Code::Escape,
        0x21 => Code::PageUp,
        0x22 => Code::PageDown,
        0x23 => Code::End,
        0x24 => Code::Home,
        0x25 => Code::ArrowLeft,
        0x26 => Code::ArrowUp,
        0x27 => Code::ArrowRight,
        0x28 => Code::ArrowDown,
        0x2C => Code::PrintScreen,
        0x2D => Code::Insert,
        0x2E => Code::Delete,
        0x70 => Code::F1,
        0x71 => Code::F2,
        0x72 => Code::F3,
        0x73 => Code::F4,
        0x74 => Code::F5,
        0x75 => Code::F6,
        0x76 => Code::F7,
        0x77 => Code::F8,
        0x78 => Code::F9,
        0x79 => Code::F10,
        0x7A => Code::F11,
        0x7B => Code::F12,
        0x7C => Code::F13,
        0x7D => Code::F14,
        0x7E => Code::F15,
        0x7F => Code::F16,
        0x80 => Code::F17,
        0x81 => Code::F18,
        0x82 => Code::F19,
        0x83 => Code::F20,
        0x84 => Code::F21,
        0x85 => Code::F22,
        0x86 => Code::F23,
        0x87 => Code::F24,
        0x90 => Code::NumLock,
        0x60 => Code::Numpad0,
        0x61 => Code::Numpad1,
        0x62 => Code::Numpad2,
        0x63 => Code::Numpad3,
        0x64 => Code::Numpad4,
        0x65 => Code::Numpad5,
        0x66 => Code::Numpad6,
        0x67 => Code::Numpad7,
        0x68 => Code::Numpad8,
        0x69 => Code::Numpad9,
        0x6B => Code::NumpadAdd,
        0x6E => Code::NumpadDecimal,
        0x6F => Code::NumpadDivide,
        0x6A => Code::NumpadMultiply,
        0x6D => Code::NumpadSubtract,
        0x91 => Code::ScrollLock,
        0xAE => Code::AudioVolumeDown,
        0xAF => Code::AudioVolumeUp,
        0xAD => Code::AudioVolumeMute,
        0xFA => Code::MediaPlay,
        0x13 => Code::Pause,
        0xB3 => Code::MediaPlayPause,
        0xB2 => Code::MediaStop,
        0xB0 => Code::MediaTrackNext,
        0xB1 => Code::MediaTrackPrevious,
        _ => Code::Other(0),
    }
}

/// No two keys have one number, but for the three aliases: asking whether one key is down is never
/// answered for another.
pub proof fn lemma_keys_have_numbers_of_their_own(a: Code, b: Code)
    requires
        !is_alias(a),
        !is_alias(b),
        virtual_key(a) is Some,
        virtual_key(a) == virtual_key(b),
    ensures
        a == b,
        key_of(virtual_key(a)->Some_0) == a,
{
    assert(key_of(virtual_key(a)->Some_0) == a);
    assert(key_of(virtual_key(b)->Some_0) == b);
}

/// Keys whose numbers follow one another, from the first one's number on.
pub open spec fn run_of_keys(keys: Seq<Code>, first: int) -> bool {
    forall|i: int|
        0 <= i < keys.len() ==> (virtual_key(#[trigger] keys[i]) matches Some(n) && n == first + i)
}

/// The keys that have a run of numbers have it in their order: the letters and the digits have the
/// numbers of their characters, and the keypad's digits, the function keys and the keys that move
/// the cursor follow one another.
pub proof fn lemma_runs_of_keys()
    ensures
        run_of_keys(
            seq![
                Code::KeyA,
                Code::KeyB,
                Code::KeyC,
                Code::KeyD,
                Code::KeyE,
                Code::KeyF,
                Code::KeyG,
                Code::KeyH,
                Code::KeyI,
                Code::KeyJ,
                Code::KeyK,
                Code::KeyL,
                Code::KeyM,
                Code::KeyN,
                Code::KeyO,
                Code::KeyP,
                Code::KeyQ,
                Code::KeyR,
                Code::KeyS,
                Code::KeyT,
                Code::KeyU,
                Code::KeyV,
                Code::KeyW,
                Code::KeyX,
                Code::KeyY,
                Code::KeyZ,
            ],
            'A' as int,
        ),
        run_of_keys(
            seq![
                Code::Digit0,
                Code::Digit1,
                Code::Digit2,
                Code::Digit3,
                Code::Digit4,
                Code::Digit5,
                Code::Digit6,
                Code::Digit7,
                Code::Digit8,
                Code::Digit9,
            ],
            '0' as int,
        ),
        run_of_keys(
            seq![
                Code::Numpad0,
                Code::Numpad1,
                Code::Numpad2,
                Code::Numpad3,
                Code::Numpad4,
                Code::Numpad5,
                Code::Numpad6,
                Code::Numpad7,
                Code::Numpad8,
                Code::Numpad9,
            ],
            0x60,
        ),
        run_of_keys(
            seq![
                Code::F1,
                Code::F2,
                Code::F3,
                Code::F4,
                Code::F5,
                Code::F6,
                Code::F7,
                Code::F8,
                Code::F9,
                Code::F10,
                Code::F11,
                Code::F12,
                Code::F13,
                Code::F14,
                Code::F15,
                Code::F16,
                Code::F17,
                Code::F18,
                Code::F19,
                Code::F20,
                Code::F21,
                Code::F22,
                Code::F23,
                Code::F24,
            ],
            0x70,
        ),
        run_of_keys(
            seq![
                Code::PageUp,
                Code::PageDown,
                Code::End,
                Code::Home,
                Code::ArrowLeft,
                Code::ArrowUp,
                Code::ArrowRight,
                Code::ArrowDown,
            ],
            0x21,
        ),
{
}

/// Every other key that can be asked about has the number that Windows gives it, the aliases that
/// of the key whose alias they are, and the rest have none.
pub proof fn lemma_the_other_keys(code: Code, r: Option<u16>)
    requires
        call_ensures(code_to_vk, (&code,), r),
    ensures
        match code {
            Code::Equal => r == Some(0xBBu16),
            Code::Comma => r == Some(0xBCu16),
            Code::Minus => r == Some(0xBDu16),
            Code::Period => r == Some(0xBEu16),
            Code::Semicolon => r == Some(0xBAu16),
            Code::Slash => r == Some(0xBFu16),
            Code::Backquote => r == Some(0xC0u16),
            Code::BracketLeft => r == Some(0xDBu16),
            Code::Backslash => r == Some(0xDCu16),
            Code::BracketRight => r == Some(0xDDu16),
            Code::Quote => r == Some(0xDEu16),
            Code::Backspace => r == Some(0x08u16),
            Code::Tab => r == Some(0x09u16),
            Code::Space => r == Some(0x20u16),
            Code::Enter => r == Some(0x0Du16),
            Code::CapsLock => r == Some(0x14u16),
            Code::Escape => r == Some(0x1Bu16),
            Code::PrintScreen => r == Some(0x2Cu16),
            Code::Insert => r == Some(0x2Du16),
            Code::Delete => r == Some(0x2Eu16),
            Code::NumLock => r == Some(0x90u16),
            Code::NumpadAdd => r == Some(0x6Bu16),
            Code::NumpadDecimal => r == Some(0x6Eu16),
            Code::NumpadDivide => r == Some(0x6Fu16),
            Code::NumpadMultiply => r == Some(0x6Au16),
            Code::NumpadSubtract => r == Some(0x6Du16),
            Code::ScrollLock => r == Some(0x91u16),
            Code::AudioVolumeDown => r == Some(0xAEu16),
            Code::AudioVolumeUp => r == Some(0xAFu16),
            Code::AudioVolumeMute => r == Some(0xADu16),
            Code::MediaPlay => r == Some(0xFAu16),
            Code::Pause => r == Some(0x13u16),
            Code::MediaPlayPause => r == Some(0xB3u16),
            Code::MediaStop => r == Some(0xB2u16),
            Code::MediaTrackNext => r == Some(0xB0u16),
            Code::MediaTrackPrevious => r == Some(0xB1u16),
            Code::NumpadEnter => r == virtual_key(Code::Enter),
            Code::MediaPause => r == virtual_key(Code::Pause),
            Code::NumpadEqual => r == virtual_key(Code::KeyE),
            Code::Fn | Code::Other(_) => r is None,
            _ => r is Some,
        },
{
}

/// Whether events are passed over is asked of the same time in either way.
pub proof fn lemma_suppression_is_one_question(s: Suppression, now: u64, r: bool, q: bool)
    requires
        call_ensures(Suppression::suppressed, (&s, now), r),
        call_ensures(is_suppressed, (s.until, now), q),
    ensures
        r == q,
{
}

} // verus!
