//! The decisions of a dictation from key down to text at the cursor: what a hotkey event asks
//! for, how a recording starts, streams and stops, and what the user is told.

use vstd::prelude::*;

use crate::audio::TARGET_SAMPLE_RATE;
use crate::config;
use crate::config::{energy, is_level, ActivationMode};
use crate::dictate::{since, Committed, Verdict};
use crate::error::RpcError;
use crate::json::{bare, text_member, Json, Tree};
use crate::keystate;
use crate::keystate::{next, virtual_key, Action, Code, Input, Machine, Phase};
use crate::pcm::sample_count;
use crate::realtime::{reply_of, Reply};
use crate::text;
use crate::text::trimmed;

verus! {

/// The time between two looks at the captured audio, in milliseconds.
pub const PCM_PUMP_INTERVAL: u64 = 50;

/// The silence in front of the captured audio and behind it, in milliseconds.
pub const SILENCE_LEAD: u64 = 2_000;

pub const SILENCE_TAIL: u64 = 2_000;

/// How long the session model may take to write an utterance down, in milliseconds.
pub const MODEL_TRANSCRIBE_BUDGET: u64 = 6_000;

/// The size of the pill, and of the settings panel it grows into.
pub const PILL_HEIGHT: u32 = 34;

pub const PILL_WIDTH: u32 = 300;

pub const SETTINGS_HEIGHT: u32 = 620;

pub const SETTINGS_WIDTH: u32 = 420;

/// The time between two looks at the push-to-talk key, in milliseconds.
pub const KEY_POLL: u64 = 15;

/// How long the key may take to be seen down, in milliseconds.
pub const KEY_DOWN_GRACE: u64 = 1_500;

/// Below this peak level the microphone gave nothing.
pub const NO_SIGNAL_RMS: i32 = 300;

/// The time between two saves of the window's place, in milliseconds.
pub const SAVE_INTERVAL: u64 = 500;

// ---------------------------------------------------------------------------------------------
// Hotkeys
// ---------------------------------------------------------------------------------------------

/// A shortcut: its modifiers as bits, and its main key.
#[derive(Debug, Clone, Copy, PartialEq, Eq, Structural)]
pub struct Shortcut {
    pub mods: u32,
    pub key: Code,
}

/// The dictation and the settings hotkey, where both could be read and they differ.
pub fn configured_hotkeys(dictation: Option<Shortcut>, settings: Option<Shortcut>) -> (r: Option<
    (Shortcut, Shortcut),
>)
    ensures
        r == (match (dictation, settings) {
            (Some(d), Some(s)) if d != s => Some((d, s)),
            _ => None,
        }),
{
    match (dictation, settings) {
        (Some(d), Some(s)) => {
            if d == s {
                None
            } else {
                Some((d, s))
            }
        },
        _ => None,
    }
}

/// The hotkeys to register, or what is said where there are none.
pub fn apply_hotkeys(dictation: Option<Shortcut>, settings: Option<Shortcut>) -> (r: Result<
    (Shortcut, Shortcut),
    String,
>)
    ensures
        match (dictation, settings) {
            (Some(d), Some(s)) if d != s => r == Ok::<(Shortcut, Shortcut), String>((d, s)),
            _ => r matches Err(e) && e@ == "hotkeys are invalid or identical"@,
        },
{
    match configured_hotkeys(dictation, settings) {
        Some(pair) => Ok(pair),
        None => Err(text::copy("hotkeys are invalid or identical")),
    }
}

/// An event of a registered hotkey, with what else decides about it.
#[derive(Debug, Clone, Copy)]
pub struct HotkeyEvent {
    pub fired: Shortcut,
    /// The key went down, or else came up.
    pub pressed: bool,
    /// Hotkey events are passed over at this time.
    pub suppressed: bool,
    /// Whether the dictation key is down, where that is known.
    pub physical: Option<bool>,
    /// The activation mode in force.
    pub mode: ActivationMode,
    pub settings_open: bool,
}

/// What a hotkey event asks for.
#[derive(Debug, Clone, Copy, PartialEq, Eq, Structural)]
pub enum HotkeyAction {
    Nothing,
    /// Open or close the settings panel.
    SetSettings(bool),
    /// Start a dictation, and watch the key of that number for its release.
    Start { watch: Option<u16> },
    Stop,
}

/// What a hotkey event asks for, and the machine after it.
pub open spec fn hotkey_next(
    m: Machine,
    dictation: Option<Shortcut>,
    settings: Option<Shortcut>,
    e: HotkeyEvent,
) -> (Machine, HotkeyAction) {
    if dictation is None || settings is None {
        (m, HotkeyAction::Nothing)
    } else if e.fired == settings->Some_0 {
        (
            m,
            if e.pressed {
                HotkeyAction::SetSettings(!e.settings_open)
            } else {
                HotkeyAction::Nothing
            },
        )
    } else if e.fired != dictation->Some_0 || e.suppressed {
        (m, HotkeyAction::Nothing)
    } else if !e.pressed && e.physical == Some(true) {
        (m, HotkeyAction::Nothing)
    } else {
        let (after, action) = next(
            m,
            if e.pressed {
                Input::Press(e.mode)
            } else {
                Input::Release
            },
        );
        (
            after,
            match action {
                Action::Ignore => HotkeyAction::Nothing,
                Action::Stop => HotkeyAction::Stop,
                Action::Start => HotkeyAction::Start {
                    watch: if e.mode == ActivationMode::PushToTalk {
                        virtual_key(dictation->Some_0.key)
                    } else {
                        None
                    },
                },
            },
        )
    }
}

/// What a hotkey event asks for. A release is passed over where the key is known to be down.
pub fn on_hotkey(
    machine: &mut Machine,
    dictation: Option<Shortcut>,
    settings: Option<Shortcut>,
    e: HotkeyEvent,
) -> (r: HotkeyAction)
    ensures
        (*final(machine), r) == hotkey_next(*old(machine), dictation, settings, e),
{
    let (dictation, settings) = match (dictation, settings) {
        (Some(d), Some(s)) => (d, s),
        _ => return HotkeyAction::Nothing,
    };
    if e.fired == settings {
        if e.pressed {
            return HotkeyAction::SetSettings(!e.settings_open);
        }
        return HotkeyAction::Nothing;
    }
    if e.fired != dictation {
        return HotkeyAction::Nothing;
    }
    if e.suppressed {
        return HotkeyAction::Nothing;
    }
    let action = if e.pressed {
        machine.press(e.mode)
    } else {
        if let Some(true) = e.physical {
            return HotkeyAction::Nothing;
        }
        machine.release()
    };
    match action {
        Action::Ignore => HotkeyAction::Nothing,
        Action::Stop => HotkeyAction::Stop,
        Action::Start => {
            let watch = if e.mode == ActivationMode::PushToTalk {
                keystate::code_to_vk(&dictation.key)
            } else {
                None
            };
            HotkeyAction::Start { watch }
        },
    }
}

/// A release that the key itself belies, an event while events are passed over, and the settings
/// hotkey leave the dictation as it is.
pub proof fn lemma_phantom_events_change_nothing(
    m: Machine,
    dictation: Option<Shortcut>,
    settings: Option<Shortcut>,
    e: HotkeyEvent,
)
    requires
        (!e.pressed && e.physical == Some(true)) || e.suppressed || Some(e.fired) == settings,
    ensures
        hotkey_next(m, dictation, settings, e).0 == m,
        !(hotkey_next(m, dictation, settings, e).1 is Start),
        !(hotkey_next(m, dictation, settings, e).1 is Stop),
{
}

/// Where nothing is known of the key, a release counts: no stop is swallowed.
pub proof fn lemma_unknown_key_does_not_swallow_a_release(
    m: Machine,
    dictation: Shortcut,
    settings: Shortcut,
    e: HotkeyEvent,
)
    requires
        e.fired == dictation,
        dictation != settings,
        !e.pressed,
        !e.suppressed,
        e.physical != Some(true),
        m.phase == Phase::Recording,
        m.active_mode == Some(ActivationMode::PushToTalk),
    ensures
        hotkey_next(m, Some(dictation), Some(settings), e).1 == HotkeyAction::Stop,
{
}

/// The hotkeys are taken as they are read, each in its role, and only both together; two that are
/// the same are refused.
pub proof fn lemma_hotkeys_are_taken_as_they_are(
    dictation: Option<Shortcut>,
    settings: Option<Shortcut>,
    r: Option<(Shortcut, Shortcut)>,
    applied: Result<(Shortcut, Shortcut), String>,
)
    requires
        call_ensures(configured_hotkeys, (dictation, settings), r),
        call_ensures(apply_hotkeys, (dictation, settings), applied),
    ensures
        r is Some <==> dictation is Some && settings is Some && dictation != settings,
        r matches Some((d, s)) ==> Some(d) == dictation && Some(s) == settings,
        applied is Ok <==> r is Some,
        applied matches Ok(pair) ==> Some(pair) == r,
        applied matches Err(e) ==> e@ == "hotkeys are invalid or identical"@,
{
}

/// What a hotkey event asks for, by what it is and where the recording stands. A stop is asked for
/// exactly where a recording that runs ends, and a start exactly where one begins: the machine
/// never enters either without it being asked for.
pub proof fn lemma_what_a_hotkey_asks_for(
    m: &mut Machine,
    dictation: Option<Shortcut>,
    settings: Option<Shortcut>,
    e: HotkeyEvent,
    r: HotkeyAction,
)
    requires
        call_ensures(on_hotkey, (m, dictation, settings, e), r),
    ensures
        ({
            let ours = settings is Some && dictation == Some(e.fired) && settings != Some(e.fired)
                && !e.suppressed;
            let theirs = dictation is Some && settings == Some(e.fired);
            let up = !e.pressed && e.physical != Some(true);
            let held = old(m).active_mode == Some(ActivationMode::PushToTalk);
            let toggle = e.mode == ActivationMode::Toggle;
            &&& r == HotkeyAction::Stop <==> ours && old(m).phase == Phase::Recording && (
            e.pressed && toggle || up && held)
            &&& r == HotkeyAction::Stop <==> old(m).phase != Phase::Stopping && final(m).phase
                == Phase::Stopping
            &&& r is Start <==> ours && e.pressed && old(m).phase == Phase::Idle
            &&& r is Start <==> old(m).phase != Phase::Starting && final(m).phase
                == Phase::Starting
            &&& r matches HotkeyAction::Start { watch } ==> watch == (if toggle {
                None
            } else {
                virtual_key(e.fired.key)
            })
            &&& r is SetSettings <==> theirs && e.pressed
            &&& r matches HotkeyAction::SetSettings(open) ==> open != e.settings_open
            &&& ours && old(m).phase == Phase::Starting && (e.pressed && toggle || up && held)
                ==> final(m).stop_pending
            &&& !ours || !e.pressed && !up ==> *final(m) == *old(m)
            &&& ours && e.pressed ==> final(m).active_mode == Some(e.mode)
        }),
{
}

/// A key that is held and let go starts a recording and ends it, whatever mode the settings have
/// come to in between: it counts by the mode in which it went down.
pub proof fn lemma_a_held_key_records_until_it_is_let_go(
    m: &mut Machine,
    running: &mut Machine,
    dictation: Shortcut,
    settings: Shortcut,
    down: HotkeyEvent,
    up: HotkeyEvent,
    first: HotkeyAction,
    second: HotkeyAction,
)
    requires
        dictation != settings,
        down.fired == dictation && down.pressed && !down.suppressed,
        down.mode == ActivationMode::PushToTalk,
        up.fired == dictation && !up.pressed && !up.suppressed && up.physical != Some(true),
        old(m).phase == Phase::Idle,
        call_ensures(on_hotkey, (m, Some(dictation), Some(settings), down), first),
        *old(running) == next(*final(m), Input::Started).0,
        call_ensures(on_hotkey, (running, Some(dictation), Some(settings), up), second),
    ensures
        first == (HotkeyAction::Start { watch: virtual_key(dictation.key) }),
        second == HotkeyAction::Stop,
        final(running).phase == Phase::Stopping,
{
}

/// In toggle mode the second press ends the recording that the first began.
pub proof fn lemma_a_toggle_records_until_the_second_press(
    m: &mut Machine,
    running: &mut Machine,
    dictation: Shortcut,
    settings: Shortcut,
    e: HotkeyEvent,
    first: HotkeyAction,
    second: HotkeyAction,
)
    requires
        dictation != settings,
        e.fired == dictation && e.pressed && !e.suppressed,
        e.mode == ActivationMode::Toggle,
        old(m).phase == Phase::Idle,
        call_ensures(on_hotkey, (m, Some(dictation), Some(settings), e), first),
        *old(running) == next(*final(m), Input::Started).0,
        call_ensures(on_hotkey, (running, Some(dictation), Some(settings), e), second),
    ensures
        first == (HotkeyAction::Start { watch: None }),
        second == HotkeyAction::Stop,
        final(running).phase == Phase::Stopping,
{
}

// ---------------------------------------------------------------------------------------------
// The settings panel and the window
// ---------------------------------------------------------------------------------------------

/// What is done to the window.
#[derive(Debug, Clone, Copy, PartialEq, Eq)]
pub enum WindowAction {
    Focusable(bool),
    Size { width: u32, height: u32 },
    Focus,
    Emit(&'static str),
}

/// Whether the settings panel is open.
#[derive(Debug, Clone, Copy, PartialEq, Eq, Structural)]
pub struct SettingsPanel {
    pub open: bool,
}

/// What opening or closing the panel does to the window, in order: while it is open it takes the
/// keyboard, and the pill never does.
pub open spec fn panel_actions(open: bool) -> Seq<WindowAction> {
    if open {
        seq![
            WindowAction::Focusable(true),
            (WindowAction::Size { width: SETTINGS_WIDTH, height: SETTINGS_HEIGHT }),
            WindowAction::Focus,
            WindowAction::Emit("settings://open"),
        ]
    } else {
        seq![
            WindowAction::Emit("settings://close"),
            (WindowAction::Size { width: PILL_WIDTH, height: PILL_HEIGHT }),
            WindowAction::Focusable(false),
        ]
    }
}

impl SettingsPanel {
    pub fn new() -> (r: SettingsPanel)
        ensures
            !r.open,
    {
        SettingsPanel { open: false }
    }

    pub fn settings_is_open(&self) -> (r: bool)
        ensures
            r == self.open,
    {
        self.open
    }

    /// Opens or closes the panel, where there is a window.
    pub fn set_settings_open(&mut self, open: bool, window: bool) -> (r: Vec<WindowAction>)
        ensures
            final(self).open == (if window {
                open
            } else {
                old(self).open
            }),
            r@ == (if window {
                panel_actions(open)
            } else {
                Seq::empty()
            }),
    {
        if !window {
            return Vec::new();
        }
        self.open = open;
        if open {
            vec![
                WindowAction::Focusable(true),
                WindowAction::Size { width: SETTINGS_WIDTH, height: SETTINGS_HEIGHT },
                WindowAction::Focus,
                WindowAction::Emit("settings://open"),
            ]
        } else {
            vec![
                WindowAction::Emit("settings://close"),
                WindowAction::Size { width: PILL_WIDTH, height: PILL_HEIGHT },
                WindowAction::Focusable(false),
            ]
        }
    }

    /// Opens the panel where it is closed, and closes it where it is open.
    pub fn toggle_settings(&mut self, window: bool) -> (r: Vec<WindowAction>)
        ensures
            final(self).open == (old(self).open != window),
            r@ == (if window {
                panel_actions(!old(self).open)
            } else {
                Seq::empty()
            }),
    {
        let open = !self.open;
        self.set_settings_open(open, window)
    }
}

/// The window can take the keyboard exactly while the panel is open, and takes it when the panel
/// opens: the pill never does, so what is typed goes where the user was. The panel is larger than
/// the pill both ways, and its size is set whichever way it goes.
pub proof fn lemma_only_the_panel_takes_the_keyboard(
    panel: &mut SettingsPanel,
    open: bool,
    r: Vec<WindowAction>,
)
    requires
        call_ensures(SettingsPanel::set_settings_open, (panel, open, true), r),
    ensures
        final(panel).open == open,
        r@.contains(WindowAction::Focusable(open)),
        !r@.contains(WindowAction::Focusable(!open)),
        r@.contains(WindowAction::Focus) <==> open,
        r@.contains(
            if open {
                WindowAction::Emit("settings://open")
            } else {
                WindowAction::Emit("settings://close")
            },
        ),
        r@.contains(
            if open {
                (WindowAction::Size { width: 420, height: 620 })
            } else {
                (WindowAction::Size { width: 300, height: 34 })
            },
        ),
        r@.len() == (if open {
            4nat
        } else {
            3nat
        }),
        open ==> r@[0] == WindowAction::Focusable(true),
        !open ==> r@.last() == WindowAction::Focusable(false),
{
    if open {
        assert(r@[0] == WindowAction::Focusable(true));
        assert(r@[1] is Size && r@[2] == WindowAction::Focus && r@[3] is Emit);
    } else {
        assert(r@[0] is Emit && r@[1] is Size);
        assert(r@[2] == WindowAction::Focusable(false));
    }
}

/// Without a window nothing happens, and toggling twice with one leads back.
pub proof fn lemma_toggled_twice(
    once: &mut SettingsPanel,
    twice: &mut SettingsPanel,
    nowhere: &mut SettingsPanel,
    a: Vec<WindowAction>,
    b: Vec<WindowAction>,
    c: Vec<WindowAction>,
)
    requires
        call_ensures(SettingsPanel::toggle_settings, (once, true), a),
        *old(twice) == *final(once),
        call_ensures(SettingsPanel::toggle_settings, (twice, true), b),
        call_ensures(SettingsPanel::toggle_settings, (nowhere, false), c),
    ensures
        final(once).open != old(once).open,
        final(twice).open == old(once).open,
        a@.contains(WindowAction::Focusable(!old(once).open)),
        b@.contains(WindowAction::Focusable(old(once).open)),
        *final(nowhere) == *old(nowhere),
        c@.len() == 0,
{
    if old(once).open {
        assert(a@[2] == WindowAction::Focusable(false) && b@[0] == WindowAction::Focusable(true));
    } else {
        assert(a@[0] == WindowAction::Focusable(true) && b@[2] == WindowAction::Focusable(false));
    }
}

/// Where the window is put at the start: where it was left, if that is known.
pub fn restored_position(x: Option<i32>, y: Option<i32>) -> (r: Option<(i32, i32)>)
    ensures
        r == (match (x, y) {
            (Some(x), Some(y)) => Some((x, y)),
            _ => None,
        }),
{
    match (x, y) {
        (Some(x), Some(y)) => Some((x, y)),
        _ => None,
    }
}

/// Whether the window's place is saved now, given when it was saved last.
pub fn save_position(last: u64, now: u64) -> (r: bool)
    ensures
        r == (since(last, now) >= SAVE_INTERVAL),
{
    now.saturating_sub(last) >= SAVE_INTERVAL
}

/// The window's place is saved at most twice a second, and always where the last save is half a
/// second ago or more.
pub proof fn lemma_place_is_saved_twice_a_second(last: u64, now: u64, r: bool)
    requires
        call_ensures(save_position, (last, now), r),
    ensures
        r <==> now >= last + 500,
{
}

/// A place is restored only where both of its coordinates are known, and as they are.
pub proof fn lemma_place_is_restored_whole(x: Option<i32>, y: Option<i32>, r: Option<(i32, i32)>)
    requires
        call_ensures(restored_position, (x, y), r),
    ensures
        r is Some <==> x is Some && y is Some,
        r matches Some((a, b)) ==> x == Some(a) && y == Some(b),
{
}

// ---------------------------------------------------------------------------------------------
// The session
// ---------------------------------------------------------------------------------------------

/// What it takes to have a session to stream into.
#[derive(Debug, Clone, Copy, PartialEq, Eq, Structural)]
pub enum SessionPlan {
    /// The session can be used.
    Ready,
    /// Drop the old session, where there is one, and connect.
    Connect { drop_old: bool },
}

/// What it takes to have a session, given one that can be used or not.
pub fn ensure_connected(session: Option<bool>) -> (r: SessionPlan)
    ensures
        r == (match session {
            Some(true) => SessionPlan::Ready,
            Some(false) => SessionPlan::Connect { drop_old: true },
            None => SessionPlan::Connect { drop_old: false },
        }),
{
    match session {
        Some(true) => SessionPlan::Ready,
        Some(false) => SessionPlan::Connect { drop_old: true },
        None => SessionPlan::Connect { drop_old: false },
    }
}

/// What is done about a notification of the session while nobody looks.
#[derive(Debug, Clone, Copy, PartialEq, Eq, Structural)]
pub enum WatchdogAction {
    Nothing,
    /// Give the microphone back and discard the recording.
    Abort,
    /// The recording is only starting, and will stop when it runs.
    StopQueued,
}

/// A session that failed ends the recording, which can have no transcript.
pub fn watchdog(machine: &mut Machine, method: &str) -> (r: WatchdogAction)
    ensures
        method@ != "thread/realtime/error"@ ==> *final(machine) == *old(machine) && r
            == WatchdogAction::Nothing,
        method@ == "thread/realtime/error"@ ==> *final(machine) == next(
            *old(machine),
            Input::StopRequested,
        ).0 && r == (match old(machine).phase {
            Phase::Recording => WatchdogAction::Abort,
            Phase::Starting => WatchdogAction::StopQueued,
            _ => WatchdogAction::Nothing,
        }),
{
    if !text::same(method, "thread/realtime/error") {
        return WatchdogAction::Nothing;
    }
    let phase = machine.phase();
    if machine.stop_requested() == Action::Stop {
        WatchdogAction::Abort
    } else if phase == Phase::Starting {
        WatchdogAction::StopQueued
    } else {
        WatchdogAction::Nothing
    }
}

/// A session that can be used is used; any other is replaced, and dropped before it is.
pub proof fn lemma_a_session_is_used_or_replaced(session: Option<bool>, r: SessionPlan)
    requires
        call_ensures(ensure_connected, (session,), r),
    ensures
        r is Ready <==> session == Some(true),
        r matches SessionPlan::Connect { drop_old } ==> drop_old == (session is Some),
{
}

/// A session that fails ends the recording at once where it runs, and as soon as it runs where it
/// is starting. Nothing else that a session says ends one, and a recording is never ended twice.
pub proof fn lemma_a_failed_session_ends_the_recording(
    m: &mut Machine,
    method: &str,
    r: WatchdogAction,
)
    requires
        call_ensures(watchdog, (m, method), r),
    ensures
        method@ != "thread/realtime/error"@ ==> *final(m) == *old(m) && r is Nothing,
        r is Abort <==> method@ == "thread/realtime/error"@ && old(m).phase == Phase::Recording,
        r is Abort <==> old(m).phase != Phase::Stopping && final(m).phase == Phase::Stopping,
        r is StopQueued <==> method@ == "thread/realtime/error"@ && old(m).phase
            == Phase::Starting,
        r is StopQueued ==> final(m).phase == Phase::Starting && next(
            *final(m),
            Input::Started,
        ).1 == Action::Stop,
        r is Nothing ==> *final(m) == *old(m),
{
}

// ---------------------------------------------------------------------------------------------
// CapsLock
// ---------------------------------------------------------------------------------------------

/// The state of CapsLock that the user is owed: what it is between two dictations, where the
/// hotkey is CapsLock.
pub fn caps_baseline(hotkey: &str, caps: Option<bool>) -> (r: Option<bool>)
    ensures
        r == (if text::same_ignoring_ascii_case(trimmed(hotkey@), "capslock"@) {
            caps
        } else {
            None
        }),
{
    if keystate::hotkey_is_capslock(hotkey) {
        caps
    } else {
        None
    }
}

/// The user is owed CapsLock as it was exactly where CapsLock is the hotkey; otherwise it is left
/// alone.
pub proof fn lemma_who_is_owed_capslock(
    hotkey: &str,
    caps: Option<bool>,
    is_caps: bool,
    r: Option<bool>,
)
    requires
        call_ensures(keystate::hotkey_is_capslock, (hotkey,), is_caps),
        call_ensures(caps_baseline, (hotkey, caps), r),
    ensures
        is_caps ==> r == caps,
        !is_caps ==> r is None,
{
}

// ---------------------------------------------------------------------------------------------
// Watching the push-to-talk key
// ---------------------------------------------------------------------------------------------

/// Which watcher counts: the last one armed, and none after it is cancelled.
#[derive(Debug, Clone, Copy, PartialEq, Eq, Structural)]
pub struct WatchGeneration {
    pub current: u64,
}

impl WatchGeneration {
    pub fn new() -> (r: WatchGeneration)
        ensures
            r.current == 0,
    {
        WatchGeneration { current: 0 }
    }

    /// Retires the watcher, if there is one.
    pub fn cancel_release_watcher(&mut self)
        ensures
            final(self).current == vstd::wrapping::u64_specs::wrapping_add(old(self).current, 1),
            final(self).current != old(self).current,
    {
        self.current = self.current.wrapping_add(1);
    }

    /// A new watcher, which retires the one before.
    pub fn arm(&mut self, now: u64) -> (r: ReleaseWatcher)
        ensures
            final(self).current == vstd::wrapping::u64_specs::wrapping_add(old(self).current, 1),
            final(self).current != old(self).current,
            r.generation == final(self).current,
            !r.seen_down,
            r.deadline == (if now + KEY_DOWN_GRACE <= u64::MAX {
                now + KEY_DOWN_GRACE
            } else {
                u64::MAX as int
            }),
    {
        self.current = self.current.wrapping_add(1);
        ReleaseWatcher {
            generation: self.current,
            deadline: now.saturating_add(KEY_DOWN_GRACE),
            seen_down: false,
        }
    }
}

/// Watches the key of one recording.
#[derive(Debug, Clone, Copy, PartialEq, Eq, Structural)]
pub struct ReleaseWatcher {
    pub generation: u64,
    pub deadline: u64,
    /// The key was seen down.
    pub seen_down: bool,
}

/// What a look at the key comes to.
#[derive(Debug, Clone, Copy, PartialEq, Eq, Structural)]
pub enum WatchStep {
    /// Look again after [`KEY_POLL`].
    Again,
    /// Another watcher counts, or the key cannot be looked at, or it was never seen down.
    StandDown,
    /// The key was down and came up.
    Released,
}

/// What a look at the key comes to, and the watcher after it.
pub open spec fn watch_next(
    w: ReleaseWatcher,
    current: u64,
    physical: Option<bool>,
    now: u64,
) -> (ReleaseWatcher, WatchStep) {
    if current != w.generation {
        (w, WatchStep::StandDown)
    } else {
        match physical {
            Some(true) => (ReleaseWatcher { seen_down: true, ..w }, WatchStep::Again),
            Some(false) => if w.seen_down {
                (w, WatchStep::Released)
            } else if now >= w.deadline {
                (w, WatchStep::StandDown)
            } else {
                (w, WatchStep::Again)
            },
            None => (w, WatchStep::StandDown),
        }
    }
}

impl ReleaseWatcher {
    /// Looks at the key.
    pub fn look(&mut self, current: u64, physical: Option<bool>, now: u64) -> (r: WatchStep)
        ensures
            (*final(self), r) == watch_next(*old(self), current, physical, now),
    {
        if current != self.generation {
            return WatchStep::StandDown;
        }
        match physical {
            Some(true) => {
                self.seen_down = true;
                WatchStep::Again
            },
            Some(false) => {
                if self.seen_down {
                    WatchStep::Released
                } else if now >= self.deadline {
                    WatchStep::StandDown
                } else {
                    WatchStep::Again
                }
            },
            None => WatchStep::StandDown,
        }
    }
}

/// What one look at the key found.
pub struct Look {
    pub current: u64,
    pub physical: Option<bool>,
    pub now: u64,
}

/// The watcher after a run of looks.
pub open spec fn watched(w: ReleaseWatcher, looks: Seq<Look>) -> ReleaseWatcher
    decreases looks.len(),
{
    if looks.len() == 0 {
        w
    } else {
        let l = looks.last();
        watch_next(watched(w, looks.drop_last()), l.current, l.physical, l.now).0
    }
}

/// A release is reported only where the key was seen down before: a watcher that never saw it
/// down reports none, whatever else it saw.
pub proof fn lemma_release_is_watched_happen(w: ReleaseWatcher, looks: Seq<Look>, last: Look)
    requires
        !w.seen_down,
        watch_next(watched(w, looks), last.current, last.physical, last.now).1
            == WatchStep::Released,
    ensures
        last.physical == Some(false),
        exists|i: int| 0 <= i < looks.len() && (#[trigger] looks[i]).physical == Some(true),
{
    lemma_seen_down(w, looks);
}

proof fn lemma_seen_down(w: ReleaseWatcher, looks: Seq<Look>)
    requires
        !w.seen_down,
    ensures
        watched(w, looks).generation == w.generation,
        watched(w, looks).seen_down ==> exists|i: int|
            0 <= i < looks.len() && (#[trigger] looks[i]).physical == Some(true),
    decreases looks.len(),
{
    if looks.len() > 0 {
        let before = looks.drop_last();
        lemma_seen_down(w, before);
        if watched(w, before).seen_down {
            let i = choose|i: int|
                0 <= i < before.len() && (#[trigger] before[i]).physical == Some(true);
            assert(looks[i].physical == Some(true));
        } else if watched(w, looks).seen_down {
            assert(looks[looks.len() - 1].physical == Some(true));
        }
    }
}

/// A watcher of an earlier recording never ends a later one.
pub proof fn lemma_retired_watcher_reports_nothing(
    w: ReleaseWatcher,
    current: u64,
    physical: Option<bool>,
    now: u64,
)
    requires
        current != w.generation,
    ensures
        watch_next(w, current, physical, now) == (w, WatchStep::StandDown),
{
}

/// A watcher that is armed reports the release of a key that was seen down, at whatever time, and
/// stands down from a key that it never saw down when the grace of a second and a half is over,
/// and not before.
pub proof fn lemma_an_armed_watcher_sees_the_release(
    g: &mut WatchGeneration,
    w: ReleaseWatcher,
    armed: u64,
    looks: Seq<Look>,
    last: Look,
)
    requires
        call_ensures(WatchGeneration::arm, (g, armed), w),
        armed + 1_500 <= u64::MAX,
        last.current == final(g).current,
        forall|i: int|
            0 <= i < looks.len() ==> (#[trigger] looks[i]).current == final(g).current
                && looks[i].physical is Some,
    ensures
        last.physical is None ==> watch_next(
            watched(w, looks),
            last.current,
            last.physical,
            last.now,
        ).1 is StandDown,
        last.physical == Some(true) ==> watch_next(
            watched(w, looks),
            last.current,
            last.physical,
            last.now,
        ).1 is Again,
        last.physical == Some(false) && (exists|i: int|
            0 <= i < looks.len() && (#[trigger] looks[i]).physical == Some(true)) ==> watch_next(
            watched(w, looks),
            last.current,
            last.physical,
            last.now,
        ).1 is Released,
        last.physical == Some(false) && !(exists|i: int|
            0 <= i < looks.len() && (#[trigger] looks[i]).physical == Some(true)) ==> (watch_next(
            watched(w, looks),
            last.current,
            last.physical,
            last.now,
        ).1 is StandDown <==> last.now >= armed + 1_500) && !(watch_next(
            watched(w, looks),
            last.current,
            last.physical,
            last.now,
        ).1 is Released),
{
    lemma_seen_down(w, looks);
    lemma_seen_down_stays(w, looks, final(g).current);
}

proof fn lemma_seen_down_stays(w: ReleaseWatcher, looks: Seq<Look>, current: u64)
    requires
        w.generation == current,
        forall|i: int| 0 <= i < looks.len() ==> (#[trigger] looks[i]).current == current,
    ensures
        watched(w, looks).generation == current,
        watched(w, looks).deadline == w.deadline,
        forall|i: int|
            0 <= i < looks.len() && (#[trigger] looks[i]).physical == Some(true) ==> watched(
                w,
                looks,
            ).seen_down,
    decreases looks.len(),
{
    if looks.len() > 0 {
        let before = looks.drop_last();
        assert forall|i: int| 0 <= i < before.len() implies (#[trigger] before[i]).current
            == current by {
            assert(before[i] == looks[i]);
        }
        lemma_seen_down_stays(w, before, current);
        assert(looks[looks.len() - 1].current == current);
        assert forall|i: int|
            0 <= i < looks.len() && (#[trigger] looks[i]).physical == Some(true) implies watched(
            w,
            looks,
        ).seen_down by {
            if i < before.len() {
                assert(before[i] == looks[i]);
            }
        }
    }
}

/// Arming a watcher and cancelling one both retire whatever watcher was armed before.
pub proof fn lemma_one_watcher_at_a_time(
    first: &mut WatchGeneration,
    second: &mut WatchGeneration,
    cancelled: &mut WatchGeneration,
    old_one: ReleaseWatcher,
    new_one: ReleaseWatcher,
    a: u64,
    b: u64,
    physical: Option<bool>,
    now: u64,
)
    requires
        call_ensures(WatchGeneration::arm, (first, a), old_one),
        *old(second) == *final(first),
        call_ensures(WatchGeneration::arm, (second, b), new_one),
        *old(cancelled) == *final(second),
        call_ensures(WatchGeneration::cancel_release_watcher, (cancelled,), ()),
    ensures
        watch_next(old_one, final(second).current, physical, now).1 is StandDown,
        watch_next(new_one, final(second).current, Some(true), now).1 is Again,
        watch_next(new_one, final(cancelled).current, physical, now).1 is StandDown,
{
}

// ---------------------------------------------------------------------------------------------
// Starting
// ---------------------------------------------------------------------------------------------

/// What happened while a dictation starts.
#[derive(Debug)]
pub enum StartEvent {
    CaptureOpened,
    CaptureFailed(String),
    Connected,
    ConnectFailed(String),
    NoSession,
    /// The captured audio is being streamed.
    Streaming,
    /// What a failed start had opened is given back, for which the message says why.
    CleanedUp(String),
}

/// What is to be done next.
#[derive(Debug, PartialEq, Eq)]
pub enum StartAction {
    /// Show that the microphone hears, and see to a session.
    ShowAndConnect,
    /// Listen for the transcript, send the silence in front, and stream.
    Listen { lead: u64 },
    /// The start failed: give the microphone back where it was opened, and retire the watcher.
    CleanUp { release_capture: bool, message: String },
    /// The start has failed: put CapsLock back and say why.
    Fail { message: String },
    /// The recording runs.
    Recording,
    /// A stop came while the dictation was starting: commit at once.
    Commit,
}

/// The machine after an event. A start that fails is over only when it is cleaned up.
pub open spec fn start_machine(m: Machine, e: StartEvent) -> Machine {
    match e {
        StartEvent::CleanedUp(_) => next(m, Input::StartFailed).0,
        StartEvent::Streaming => next(m, Input::Started).0,
        _ => m,
    }
}

/// What is done after an event of a starting dictation. The microphone comes first, so that the
/// first words are kept while the session is seen to.
pub fn start_dictation(machine: &mut Machine, event: StartEvent) -> (r: StartAction)
    ensures
        *final(machine) == start_machine(*old(machine), event),
        match event {
            StartEvent::CaptureOpened => r == StartAction::ShowAndConnect,
            StartEvent::CaptureFailed(e) => r matches StartAction::CleanUp {
                release_capture,
                message,
            } && !release_capture && message@ == e@,
            StartEvent::Connected => r == (StartAction::Listen { lead: SILENCE_LEAD }),
            StartEvent::ConnectFailed(e) => r matches StartAction::CleanUp {
                release_capture,
                message,
            } && release_capture && message@ == e@,
            StartEvent::NoSession => r matches StartAction::CleanUp {
                release_capture,
                message,
            } && release_capture && message@ == "not connected"@,
            StartEvent::Streaming => r == (if next(*old(machine), Input::Started).1
                == Action::Stop {
                StartAction::Commit
            } else {
                StartAction::Recording
            }),
            StartEvent::CleanedUp(e) => r matches StartAction::Fail { message } && message@ == e@,
        },
{
    match event {
        StartEvent::CaptureOpened => StartAction::ShowAndConnect,
        StartEvent::CaptureFailed(message) => StartAction::CleanUp {
            release_capture: false,
            message,
        },
        StartEvent::Connected => StartAction::Listen { lead: SILENCE_LEAD },
        StartEvent::ConnectFailed(message) => StartAction::CleanUp {
            release_capture: true,
            message,
        },
        StartEvent::NoSession => StartAction::CleanUp {
            release_capture: true,
            message: text::copy("not connected"),
        },
        StartEvent::Streaming => {
            if machine.started() == Action::Stop {
                StartAction::Commit
            } else {
                StartAction::Recording
            }
        },
        StartEvent::CleanedUp(message) => {
            machine.start_failed();
            StartAction::Fail { message }
        },
    }
}

/// An event by which a start fails.
pub open spec fn is_failure(e: StartEvent) -> bool {
    e is CaptureFailed || e is ConnectFailed || e is NoSession
}

/// While a failed start is being cleaned up no other begins, whichever way the key is pressed: what
/// is given back and retired is never that of a later recording.
pub proof fn lemma_no_start_before_the_cleanup(m: Machine, e: StartEvent, mode: ActivationMode)
    requires
        m.phase == Phase::Starting,
        is_failure(e),
    ensures
        start_machine(m, e) == m,
        next(start_machine(m, e), Input::Press(mode)).1 == Action::Ignore,
{
}

/// A failed start that is cleaned up leaves the machine at rest with no stop waiting, so that the
/// next press starts anew.
pub proof fn lemma_failed_start_is_at_rest(m: Machine, message: String, mode: ActivationMode)
    ensures
        ({
            let after = start_machine(m, StartEvent::CleanedUp(message));
            after.phase == Phase::Idle && !after.stop_pending && next(
                after,
                Input::Press(mode),
            ).1 == Action::Start
        }),
{
}

/// What each event of a start leads to. The microphone is given back exactly where it was opened,
/// the reason of a failure is handed on as it is, and two seconds of silence go in front.
pub proof fn lemma_what_a_start_does(m: &mut Machine, e: StartEvent, r: StartAction)
    requires
        call_ensures(start_dictation, (m, e), r),
    ensures
        r is ShowAndConnect <==> e is CaptureOpened,
        r is Listen <==> e is Connected,
        r matches StartAction::Listen { lead } ==> lead == 2_000,
        r is CleanUp <==> e is CaptureFailed || e is ConnectFailed || e is NoSession,
        r matches StartAction::CleanUp { release_capture, .. } ==> release_capture == !(e
            is CaptureFailed),
        e matches StartEvent::CaptureFailed(why) ==> (r matches StartAction::CleanUp { message, .. }
            && message@ == why@),
        e matches StartEvent::ConnectFailed(why) ==> (r matches StartAction::CleanUp { message, .. }
            && message@ == why@),
        e is NoSession ==> (r matches StartAction::CleanUp { message, .. } && message@
            == "not connected"@),
        e matches StartEvent::CleanedUp(why) ==> (r matches StartAction::Fail { message }
            && message@ == why@),
        r is Fail <==> e is CleanedUp,
        r is Commit <==> e is Streaming && old(m).phase == Phase::Starting && old(m).stop_pending,
        r is Recording <==> e is Streaming && !(r is Commit),
{
}

/// A start moves the machine only when the audio streams, on to the recording or, where a stop was
/// asked for, to its end, and when a failure is cleaned up, back to rest.
pub proof fn lemma_when_a_start_moves_the_machine(m: &mut Machine, e: StartEvent, r: StartAction)
    requires
        call_ensures(start_dictation, (m, e), r),
        old(m).phase == Phase::Starting,
    ensures
        !(e is Streaming) && !(e is CleanedUp) ==> *final(m) == *old(m),
        e is CleanedUp ==> final(m).phase == Phase::Idle,
        e is Streaming ==> final(m).phase == (if old(m).stop_pending {
            Phase::Stopping
        } else {
            Phase::Recording
        }),
        e is Streaming || e is CleanedUp ==> !final(m).stop_pending,
{
}

// ---------------------------------------------------------------------------------------------
// Streaming
// ---------------------------------------------------------------------------------------------

/// Streams the captured audio, and notices when the speaker has stopped.
#[derive(Debug, Clone, Copy, PartialEq, Eq, Structural)]
pub struct Pump {
    /// How much silence ends the recording, in milliseconds.
    pub autostop: Option<u64>,
    /// The level below which audio is silence.
    pub threshold: i16,
    /// When audio was last louder.
    pub last_loud: Option<u64>,
    /// The highest level so far.
    pub peak: i32,
    /// The place in a file that stands for the microphone.
    pub offset: usize,
}

/// What is done with a chunk of audio.
#[derive(Debug, Clone, Copy, PartialEq, Eq, Structural)]
pub struct PumpStep {
    /// The level of the chunk, for the user interface.
    pub rms: i16,
    /// The speaker has stopped: end the recording, and do not send the chunk.
    pub silence: bool,
}

/// The larger of two levels.
pub open spec fn louder(peak: i32, rms: int) -> int {
    if rms > peak {
        rms
    } else {
        peak as int
    }
}

/// The pump after a chunk of that level.
pub open spec fn pump_next(p: Pump, rms: int, now: u64) -> Pump {
    Pump {
        last_loud: if p.autostop is Some && rms >= p.threshold {
            Some(now)
        } else {
            p.last_loud
        },
        peak: louder(p.peak, rms) as i32,
        ..p
    }
}

/// A chunk of that level ends the recording: it is silence, and there has been nothing but
/// silence for long enough since the speaker was last heard.
pub open spec fn falls_silent(p: Pump, rms: int, now: u64) -> bool {
    &&& p.autostop is Some
    &&& rms < p.threshold
    &&& p.last_loud is Some
    &&& since(p.last_loud->Some_0, now) >= p.autostop->Some_0
}

/// How many bytes stand for the time between two looks.
pub const CHUNK_BYTES: usize = 2400;

impl Pump {
    /// Nothing heard yet.
    pub fn new(silence_autostop_ms: u64, silence_threshold: i16) -> (r: Pump)
        ensures
            r.autostop == (if silence_autostop_ms > 0 {
                Some(silence_autostop_ms)
            } else {
                None
            }),
            r.threshold == silence_threshold,
            r.last_loud is None,
            r.peak == 0,
            r.offset == 0,
    {
        let autostop = if silence_autostop_ms > 0 {
            Some(silence_autostop_ms)
        } else {
            None
        };
        Pump { autostop, threshold: silence_threshold, last_loud: None, peak: 0, offset: 0 }
    }

    /// Takes note of a chunk of that level.
    pub fn on_level(&mut self, rms: i16, now: u64) -> (r: PumpStep)
        ensures
            *final(self) == pump_next(*old(self), rms as int, now),
            r.rms == rms,
            r.silence == falls_silent(*old(self), rms as int, now),
    {
        if rms as i32 > self.peak {
            self.peak = rms as i32;
        }
        let mut silence = false;
        if let Some(limit) = self.autostop {
            if rms >= self.threshold {
                self.last_loud = Some(now);
            } else if let Some(t) = self.last_loud {
                silence = now.saturating_sub(t) >= limit;
            }
        }
        PumpStep { rms, silence }
    }

    /// Takes note of a chunk of audio.
    pub fn on_chunk(&mut self, bytes: &[u8], now: u64) -> (r: PumpStep)
        ensures
            sample_count(bytes@) == 0 ==> r.rms == 0,
            sample_count(bytes@) > 0 ==> is_level(
                r.rms as int,
                energy(bytes@, sample_count(bytes@)),
                sample_count(bytes@) as int,
            ),
            *final(self) == pump_next(*old(self), r.rms as int, now),
            r.silence == falls_silent(*old(self), r.rms as int, now),
    {
        let rms: i16 = config::pcm_rms(bytes);
        self.on_level(rms, now)
    }

    /// The next chunk of a file that stands for the microphone. Behind its end it begins again.
    pub fn debug_chunk(&mut self, pcm: &[u8]) -> (r: Vec<u8>)
        requires
            old(self).offset <= pcm@.len(),
        ensures
            ({
                let start = old(self).offset as int;
                let end = if start + CHUNK_BYTES <= pcm@.len() {
                    start + CHUNK_BYTES
                } else {
                    pcm@.len() as int
                };
                r@ == pcm@.subrange(start, end) && final(self).offset == (if end >= pcm@.len() {
                    0
                } else {
                    end
                })
            }),
            final(self).offset <= pcm@.len(),
            final(self).autostop == old(self).autostop,
            final(self).threshold == old(self).threshold,
            final(self).last_loud == old(self).last_loud,
            final(self).peak == old(self).peak,
    {
        let start: usize = self.offset;
        let len: usize = pcm.len();
        let end: usize = if len - start < CHUNK_BYTES {
            len
        } else {
            start + CHUNK_BYTES
        };
        let mut out: Vec<u8> = Vec::new();
        let mut i: usize = start;
        while i < end
            invariant
                start <= i <= end <= pcm@.len(),
                out@ == pcm@.subrange(start as int, i as int),
            decreases end - i,
        {
            out.push(pcm[i]);
            i = i + 1;
            assert(out@ =~= pcm@.subrange(start as int, i as int));
        }
        self.offset = if end >= len {
            0
        } else {
            end
        };
        out
    }
}

/// [`CHUNK_BYTES`] is the time between two looks: 16-bit samples at the session's rate.
pub proof fn lemma_chunk_is_one_interval()
    ensures
        CHUNK_BYTES == TARGET_SAMPLE_RATE * PCM_PUMP_INTERVAL / 1000 * 2,
{
}

/// A chunk's level and when it came.
pub struct Heard {
    pub rms: i16,
    pub at: u64,
}

/// The pump after a run of chunks.
pub open spec fn pumped(p: Pump, chunks: Seq<Heard>) -> Pump
    decreases chunks.len(),
{
    if chunks.len() == 0 {
        p
    } else {
        pump_next(pumped(p, chunks.drop_last()), chunks.last().rms as int, chunks.last().at)
    }
}

/// A recording is never ended for silence before the speaker was heard at all.
pub proof fn lemma_no_autostop_before_speech(p: Pump, chunks: Seq<Heard>, rms: int, now: u64)
    requires
        p.last_loud is None,
        forall|i: int| 0 <= i < chunks.len() ==> (#[trigger] chunks[i]).rms < p.threshold,
    ensures
        !falls_silent(pumped(p, chunks), rms, now),
        pumped(p, chunks).last_loud is None,
        pumped(p, chunks).threshold == p.threshold,
    decreases chunks.len(),
{
    if chunks.len() > 0 {
        let before = chunks.drop_last();
        assert forall|i: int| 0 <= i < before.len() implies (#[trigger] before[i]).rms
            < p.threshold by {
            assert(before[i] == chunks[i]);
        }
        lemma_no_autostop_before_speech(p, before, rms, now);
        assert(chunks[chunks.len() - 1].rms < p.threshold);
    }
}

/// Where the setting is off, silence never ends a recording.
pub proof fn lemma_no_autostop_when_off(p: Pump, rms: int, now: u64)
    requires
        p.autostop is None,
    ensures
        !falls_silent(p, rms, now),
{
}

/// The peak is at least every level and what it was before, and it is one of these.
pub proof fn lemma_peak_is_the_loudest(p: Pump, chunks: Seq<Heard>, i: int)
    requires
        0 <= i < chunks.len(),
    ensures
        pumped(p, chunks).peak >= chunks[i].rms,
        pumped(p, chunks).peak >= p.peak,
        pumped(p, chunks).peak == p.peak || exists|j: int|
            0 <= j < chunks.len() && (#[trigger] chunks[j]).rms == pumped(p, chunks).peak,
    decreases chunks.len(),
{
    let before = chunks.drop_last();
    if i < before.len() {
        lemma_peak_is_the_loudest(p, before, i);
        assert(before[i] == chunks[i]);
    }
    lemma_peak_comes_from(p, chunks);
}

proof fn lemma_peak_comes_from(p: Pump, chunks: Seq<Heard>)
    ensures
        pumped(p, chunks).peak >= p.peak,
        pumped(p, chunks).peak == p.peak || exists|j: int|
            0 <= j < chunks.len() && (#[trigger] chunks[j]).rms == pumped(p, chunks).peak,
    decreases chunks.len(),
{
    if chunks.len() > 0 {
        let before = chunks.drop_last();
        lemma_peak_comes_from(p, before);
        let peak = pumped(p, chunks).peak;
        if peak == pumped(p, before).peak {
            if peak != p.peak {
                let j = choose|j: int|
                    0 <= j < before.len() && (#[trigger] before[j]).rms == pumped(p, before).peak;
                assert(chunks[j] == before[j]);
            }
        } else {
            assert(chunks[chunks.len() - 1].rms == peak);
        }
    }
}

/// Where silence ends a recording: the level is below the threshold, there was speech, and since
/// the last of it the whole time set has passed. The last chunk at or above the threshold is the
/// one that counts, whatever came before it.
pub proof fn lemma_silence_is_counted_from_the_last_speech(
    p: Pump,
    chunks: Seq<Heard>,
    k: int,
    limit: u64,
    rms: int,
    now: u64,
)
    requires
        p.autostop == Some(limit),
        0 <= k < chunks.len(),
        chunks[k].rms >= p.threshold,
        forall|i: int| k < i < chunks.len() ==> (#[trigger] chunks[i]).rms < p.threshold,
        now >= chunks[k].at,
    ensures
        falls_silent(pumped(p, chunks), rms, now) <==> rms < p.threshold && now - chunks[k].at
            >= limit,
{
    lemma_last_speech(p, chunks, k);
}

proof fn lemma_last_speech(p: Pump, chunks: Seq<Heard>, k: int)
    requires
        p.autostop is Some,
        0 <= k < chunks.len(),
        chunks[k].rms >= p.threshold,
        forall|i: int| k < i < chunks.len() ==> (#[trigger] chunks[i]).rms < p.threshold,
    ensures
        pumped(p, chunks).last_loud == Some(chunks[k].at),
        pumped(p, chunks).autostop == p.autostop,
        pumped(p, chunks).threshold == p.threshold,
    decreases chunks.len(),
{
    let before = chunks.drop_last();
    lemma_settings_stay(p, before);
    if k < chunks.len() - 1 {
        assert(before[k] == chunks[k]);
        assert forall|i: int| k < i < before.len() implies (#[trigger] before[i]).rms
            < p.threshold by {
            assert(before[i] == chunks[i]);
        }
        lemma_last_speech(p, before, k);
        assert(chunks[chunks.len() - 1].rms < p.threshold);
    }
}

proof fn lemma_settings_stay(p: Pump, chunks: Seq<Heard>)
    ensures
        pumped(p, chunks).autostop == p.autostop,
        pumped(p, chunks).threshold == p.threshold,
        pumped(p, chunks).offset == p.offset,
    decreases chunks.len(),
{
    if chunks.len() > 0 {
        lemma_settings_stay(p, chunks.drop_last());
    }
}

/// A chunk is told of with its own level, and that a recording has fallen silent is told of it only
/// where the setting is on: 0 is never.
pub proof fn lemma_a_chunk_is_told_of_as_it_is(
    p: Pump,
    pump: &mut Pump,
    autostop: u64,
    threshold: i16,
    rms: i16,
    now: u64,
    r: PumpStep,
)
    requires
        call_ensures(Pump::new, (autostop, threshold), p),
        old(pump).autostop == p.autostop,
        old(pump).threshold == p.threshold,
        call_ensures(Pump::on_level, (pump, rms, now), r),
    ensures
        r.rms == rms,
        autostop == 0 ==> !r.silence,
        r.silence ==> rms < threshold && old(pump).last_loud is Some,
        r.silence ==> now >= old(pump).last_loud->Some_0 + autostop,
        autostop > 0 && rms >= threshold ==> final(pump).last_loud == Some(now),
        rms < threshold ==> final(pump).last_loud == old(pump).last_loud,
        final(pump).peak >= rms && final(pump).peak >= old(pump).peak,
        final(pump).peak == rms || final(pump).peak == old(pump).peak,
        p.last_loud is None && p.peak == 0 && p.offset == 0,
{
}

/// A chunk of audio counts with the level of its samples.
pub proof fn lemma_a_chunk_counts_with_its_level(
    pump: &mut Pump,
    bytes: &[u8],
    now: u64,
    level: i16,
    r: PumpStep,
)
    requires
        call_ensures(Pump::on_chunk, (pump, bytes, now), r),
        call_ensures(config::pcm_rms, (bytes,), level),
    ensures
        r.rms == level,
        final(pump).peak >= level,
        r.silence ==> level < old(pump).threshold && old(pump).autostop is Some,
{
    if sample_count(bytes@) > 0 {
        config::lemma_level_is_unique(
            r.rms as int,
            level as int,
            energy(bytes@, sample_count(bytes@)),
            sample_count(bytes@) as int,
        );
    }
}

/// A file that stands for the microphone is read from front to back in chunks of 50 milliseconds,
/// and then again from the front: what is read follows what was read before.
pub proof fn lemma_a_file_is_read_in_order(
    first: &mut Pump,
    second: &mut Pump,
    pcm: &[u8],
    a: Vec<u8>,
    b: Vec<u8>,
)
    requires
        old(first).offset <= pcm@.len(),
        call_ensures(Pump::debug_chunk, (first, pcm), a),
        *old(second) == *final(first),
        call_ensures(Pump::debug_chunk, (second, pcm), b),
    ensures
        a@.len() <= 2_400,
        a@.is_prefix_of(pcm@.skip(old(first).offset as int)),
        old(first).offset + 2_400 < pcm@.len() ==> a@.len() == 2_400 && final(first).offset
            == old(first).offset + 2_400 && (a@ + b@).is_prefix_of(
            pcm@.skip(old(first).offset as int),
        ),
        old(first).offset + 2_400 >= pcm@.len() ==> a@ == pcm@.skip(old(first).offset as int)
            && final(first).offset == 0 && b@.is_prefix_of(pcm@),
{
    let rest = pcm@.skip(old(first).offset as int);
    assert(a@ =~= rest.take(a@.len() as int));
    if old(first).offset + 2_400 < pcm@.len() {
        assert(a@ + b@ =~= rest.take((a@.len() + b@.len()) as int));
    } else {
        assert(a@ =~= rest);
        assert(b@ =~= pcm@.take(b@.len() as int));
    }
}

/// What a pump does when it has left its loop.
#[derive(Debug, Clone, Copy, PartialEq, Eq, Structural)]
pub enum PumpExit {
    /// Whoever stopped it sees to the rest.
    Leave,
    /// Something else stops the recording already.
    Nothing,
    /// There can be no transcript: discard the recording.
    Abort,
    Commit,
}

/// What a pump does when it has left its loop: because it was stopped, because the stream died
/// (`fatal`), or on its own.
pub fn pump_exit(machine: &mut Machine, stopped: bool, fatal: bool) -> (r: PumpExit)
    ensures
        stopped ==> *final(machine) == *old(machine) && r == PumpExit::Leave,
        !stopped ==> *final(machine) == next(*old(machine), Input::StopRequested).0 && r == (if next(
            *old(machine),
            Input::StopRequested,
        ).1 != Action::Stop {
            PumpExit::Nothing
        } else if fatal {
            PumpExit::Abort
        } else {
            PumpExit::Commit
        }),
{
    if stopped {
        return PumpExit::Leave;
    }
    if machine.stop_requested() != Action::Stop {
        return PumpExit::Nothing;
    }
    if fatal {
        PumpExit::Abort
    } else {
        PumpExit::Commit
    }
}

/// A pump that leaves its loop on its own ends the recording where it runs: with a commit, or
/// without one where the stream died. A pump that was stopped ends nothing, nor does one whose
/// recording is ended already.
pub proof fn lemma_a_pump_ends_its_recording_once(
    m: &mut Machine,
    stopped: bool,
    fatal: bool,
    r: PumpExit,
)
    requires
        call_ensures(pump_exit, (m, stopped, fatal), r),
    ensures
        r is Leave <==> stopped,
        stopped ==> *final(m) == *old(m),
        r is Abort || r is Commit <==> !stopped && old(m).phase == Phase::Recording,
        r is Abort || r is Commit <==> old(m).phase != Phase::Stopping && final(m).phase
            == Phase::Stopping,
        r is Abort ==> fatal,
        r is Commit ==> !fatal,
        !stopped && old(m).phase == Phase::Starting ==> final(m).stop_pending,
{
}

// ---------------------------------------------------------------------------------------------
// Stopping
// ---------------------------------------------------------------------------------------------

/// A step of the end of a dictation.
#[derive(Debug, Clone, Copy, PartialEq, Eq, Structural)]
pub enum StopAction {
    CancelWatcher,
    ShowProcessing,
    RestoreCaps,
    HaltPump,
    /// Send what is captured and not sent yet.
    SendRest,
    /// Give the microphone back.
    StopCapture,
    /// Send silence of that length and commit the audio.
    FlushTail(u64),
    /// A transcript is owed.
    ExpectTurn,
    /// Have the session model write the audio down, in that time.
    Transcribe(u64),
    /// Wait for the transcript, judge it and put it at the cursor.
    Commit,
    /// Discard what was heard.
    Discard,
    /// The machine is at rest again.
    Rest,
}

/// The steps that begin every end with a commit. Nothing writes to the session when they are done.
pub open spec fn halt_steps() -> Seq<StopAction> {
    seq![
        StopAction::CancelWatcher,
        StopAction::ShowProcessing,
        StopAction::RestoreCaps,
        StopAction::HaltPump,
    ]
}

/// The steps that begin every end with a commit.
pub fn halt_dictation() -> (r: Vec<StopAction>)
    ensures
        r@ == halt_steps(),
{
    let out = vec![
        StopAction::CancelWatcher,
        StopAction::ShowProcessing,
        StopAction::RestoreCaps,
        StopAction::HaltPump,
    ];
    assert(out@ =~= halt_steps());
    out
}

/// The steps that follow, given whether there is a capture then, whether there is a session,
/// whether the hotkey decides about turns, and whether the session model writes.
pub open spec fn stop_steps(
    capture: bool,
    session: bool,
    manual: bool,
    model: bool,
) -> Seq<StopAction> {
    let drained = if !capture {
        Seq::<StopAction>::empty()
    } else if session {
        seq![StopAction::SendRest, StopAction::StopCapture, StopAction::SendRest]
    } else {
        seq![StopAction::StopCapture]
    };
    let flushed = if !session {
        Seq::<StopAction>::empty()
    } else if manual {
        seq![StopAction::FlushTail(SILENCE_TAIL), StopAction::ExpectTurn]
    } else {
        seq![StopAction::FlushTail(SILENCE_TAIL)]
    };
    let written = if session && model {
        seq![StopAction::Transcribe(MODEL_TRANSCRIBE_BUDGET)]
    } else {
        Seq::<StopAction>::empty()
    };
    drained + flushed + written + seq![StopAction::Commit, StopAction::Rest]
}

/// The steps that end a dictation with a commit, behind those of [`halt_dictation`].
pub fn stop_dictation(capture: bool, session: bool, manual: bool, model: bool) -> (r: Vec<
    StopAction,
>)
    ensures
        r@ == stop_steps(capture, session, manual, model),
{
    let mut out: Vec<StopAction> = Vec::new();
    if capture {
        if session {
            out.push(StopAction::SendRest);
        }
        out.push(StopAction::StopCapture);
        if session {
            out.push(StopAction::SendRest);
        }
    }
    if session {
        out.push(StopAction::FlushTail(SILENCE_TAIL));
        if manual {
            out.push(StopAction::ExpectTurn);
        }
        if model {
            out.push(StopAction::Transcribe(MODEL_TRANSCRIBE_BUDGET));
        }
    }
    out.push(StopAction::Commit);
    out.push(StopAction::Rest);
    assert(out@ =~= stop_steps(capture, session, manual, model));
    out
}

/// The steps that end a dictation without a transcript. Nothing is typed.
pub open spec fn abort_steps() -> Seq<StopAction> {
    seq![
        StopAction::CancelWatcher,
        StopAction::RestoreCaps,
        StopAction::HaltPump,
        StopAction::StopCapture,
        StopAction::Discard,
        StopAction::Rest,
    ]
}

/// The steps that end a dictation without a transcript.
pub fn abort_dictation() -> (r: Vec<StopAction>)
    ensures
        r@ == abort_steps(),
{
    let out = vec![
        StopAction::CancelWatcher,
        StopAction::RestoreCaps,
        StopAction::HaltPump,
        StopAction::StopCapture,
        StopAction::Discard,
        StopAction::Rest,
    ];
    assert(out@ =~= abort_steps());
    out
}

/// However a dictation ends, the machine comes to rest, and as the last step. An end that commits
/// does so once, as the step before, and where there is a capture it gives the microphone back
/// before it flushes the tail and commits; an abort never commits.
pub proof fn lemma_every_end_comes_to_rest(
    capture: bool,
    session: bool,
    manual: bool,
    model: bool,
)
    ensures
        ({
            let s = halt_steps() + stop_steps(capture, session, manual, model);
            &&& s.last() == StopAction::Rest
            &&& s[s.len() - 2] == StopAction::Commit
            &&& forall|i: int| 0 <= i < s.len() - 2 ==> s[i] != StopAction::Commit
            &&& s[2] == StopAction::RestoreCaps
            &&& capture && session ==> s[5] == StopAction::StopCapture && s[7]
                == StopAction::FlushTail(SILENCE_TAIL)
            &&& capture && !session ==> s[4] == StopAction::StopCapture
        }),
        abort_steps().last() == StopAction::Rest,
        !abort_steps().contains(StopAction::Commit),
{
    let a = abort_steps();
    assert forall|i: int| 0 <= i < a.len() implies a[i] != StopAction::Commit by {}
}

/// A step comes somewhere in front of another.
pub open spec fn precedes(steps: Seq<StopAction>, a: StopAction, b: StopAction) -> bool {
    exists|i: int, j: int|
        0 <= i < j < steps.len() && #[trigger] steps[i] == a && #[trigger] steps[j] == b
}

/// What the end of a dictation holds. A transcript is owed exactly where there is a session and the
/// hotkey decides about turns, whether or not the session model writes too; the tail is flushed,
/// two seconds long, exactly where there is a session; the session model has six seconds, where there
/// is a session and it writes; the microphone is given back exactly where there is a capture; and
/// every end commits and comes to rest. No step but the sending of what is left comes twice, and
/// there is no other step.
pub proof fn lemma_what_an_end_holds(
    capture: bool,
    session: bool,
    manual: bool,
    model: bool,
    r: Vec<StopAction>,
)
    requires
        call_ensures(stop_dictation, (capture, session, manual, model), r),
    ensures
        r@.contains(StopAction::ExpectTurn) <==> session && manual,
        r@.contains(StopAction::FlushTail(2_000)) <==> session,
        r@.contains(StopAction::Transcribe(6_000)) <==> session && model,
        r@.contains(StopAction::StopCapture) <==> capture,
        r@.contains(StopAction::SendRest) <==> capture && session,
        r@.contains(StopAction::Commit),
        r@.last() == StopAction::Rest,
        forall|i: int, j: int|
            0 <= i < j < r@.len() && #[trigger] r@[i] == #[trigger] r@[j] ==> r@[i]
                == StopAction::SendRest && j == i + 2 && r@[i + 1] == StopAction::StopCapture,
        forall|i: int|
            0 <= i < r@.len() ==> (#[trigger] r@[i] == StopAction::SendRest || r@[i]
                == StopAction::StopCapture || r@[i] == StopAction::FlushTail(2_000) || r@[i]
                == StopAction::ExpectTurn || r@[i] == StopAction::Transcribe(6_000) || r@[i]
                == StopAction::Commit || r@[i] == StopAction::Rest),
{
    let s = r@;
    let n: int = if !capture {
        0
    } else if session {
        3
    } else {
        1
    };
    if capture && session {
        assert(s[0] == StopAction::SendRest && s[1] == StopAction::StopCapture);
    } else if capture {
        assert(s[0] == StopAction::StopCapture);
    }
    if session {
        assert(s[n] == StopAction::FlushTail(2_000));
        if manual {
            assert(s[n + 1] == StopAction::ExpectTurn);
        }
        if model {
            assert(s[s.len() - 3] == StopAction::Transcribe(6_000));
        }
    }
    assert(s[s.len() - 2] == StopAction::Commit);
}

/// The order in which a dictation ends: what was captured is sent, before the microphone is given
/// back and once more after it; only then is the tail flushed; a transcript is owed from then on,
/// before anyone waits for it; and all of it is done before the commit.
pub proof fn lemma_the_order_of_an_end(
    capture: bool,
    session: bool,
    manual: bool,
    model: bool,
    r: Vec<StopAction>,
)
    requires
        call_ensures(stop_dictation, (capture, session, manual, model), r),
    ensures
        capture && session ==> precedes(r@, StopAction::SendRest, StopAction::StopCapture)
            && precedes(r@, StopAction::StopCapture, StopAction::SendRest) && precedes(
            r@,
            StopAction::StopCapture,
            StopAction::FlushTail(2_000),
        ) && !precedes(r@, StopAction::FlushTail(2_000), StopAction::SendRest),
        capture ==> precedes(r@, StopAction::StopCapture, StopAction::Commit),
        session && manual ==> precedes(
            r@,
            StopAction::FlushTail(2_000),
            StopAction::ExpectTurn,
        ) && precedes(r@, StopAction::ExpectTurn, StopAction::Commit),
        session && manual && model ==> precedes(
            r@,
            StopAction::ExpectTurn,
            StopAction::Transcribe(6_000),
        ),
        session && model ==> precedes(
            r@,
            StopAction::FlushTail(2_000),
            StopAction::Transcribe(6_000),
        ) && precedes(r@, StopAction::Transcribe(6_000), StopAction::Commit),
        precedes(r@, StopAction::Commit, StopAction::Rest),
{
    let s = r@;
    let n: int = if !capture {
        0
    } else if session {
        3
    } else {
        1
    };
    let c = s.len() - 2;
    assert(s[c] == StopAction::Commit && s[c + 1] == StopAction::Rest);
    if capture && session {
        assert(s[0] == StopAction::SendRest && s[1] == StopAction::StopCapture && s[2]
            == StopAction::SendRest && s[3] == StopAction::FlushTail(2_000));
    } else if capture {
        assert(s[0] == StopAction::StopCapture);
    }
    if session {
        assert(s[n] == StopAction::FlushTail(2_000));
        if manual {
            assert(s[n + 1] == StopAction::ExpectTurn);
        }
        if model {
            assert(s[c - 1] == StopAction::Transcribe(6_000));
        }
    }
}

/// Every end with a commit begins alike: the watcher is retired, the user sees that something
/// happens, CapsLock is put back at once, and when all that is done the pump is halted. An abort
/// retires, restores and halts too, then gives the microphone back, discards what was heard and
/// comes to rest; it sends nothing and has nothing written down.
pub proof fn lemma_how_an_end_begins(halt: Vec<StopAction>, abort: Vec<StopAction>)
    requires
        call_ensures(halt_dictation, (), halt),
        call_ensures(abort_dictation, (), abort),
    ensures
        halt@.len() == 4,
        halt@.contains(StopAction::CancelWatcher),
        halt@.contains(StopAction::ShowProcessing),
        precedes(halt@, StopAction::CancelWatcher, StopAction::RestoreCaps),
        precedes(halt@, StopAction::RestoreCaps, StopAction::HaltPump),
        halt@.last() == StopAction::HaltPump,
        abort@.len() == 6,
        precedes(abort@, StopAction::CancelWatcher, StopAction::RestoreCaps),
        precedes(abort@, StopAction::RestoreCaps, StopAction::HaltPump),
        precedes(abort@, StopAction::HaltPump, StopAction::StopCapture),
        precedes(abort@, StopAction::StopCapture, StopAction::Discard),
        precedes(abort@, StopAction::Discard, StopAction::Rest),
        abort@.last() == StopAction::Rest,
{
    assert(halt@[0] == StopAction::CancelWatcher && halt@[1] == StopAction::ShowProcessing
        && halt@[2] == StopAction::RestoreCaps && halt@[3] == StopAction::HaltPump);
    assert(abort@[0] == StopAction::CancelWatcher && abort@[1] == StopAction::RestoreCaps
        && abort@[2] == StopAction::HaltPump && abort@[3] == StopAction::StopCapture && abort@[4]
        == StopAction::Discard && abort@[5] == StopAction::Rest);
}

/// The session model's reading of the audio, where it gave one that is not blank.
pub fn spoken(reply: Result<String, RpcError>) -> (r: Option<String>)
    ensures
        match r {
            Some(t) => reply_of(reply) == Reply::Text(t@) && trimmed(t@).len() > 0,
            None => reply_of(reply) matches Reply::Text(t) ==> trimmed(t).len() == 0,
        },
{
    match reply {
        Ok(t) => {
            if text::is_blank(t.as_str()) {
                None
            } else {
                Some(t)
            }
        },
        Err(_) => None,
    }
}

/// What is said where the microphone gave nothing.
pub const NO_SIGNAL: &'static str =
    "마이크 신호가 없습니다 — 설정(Ctrl+Shift+E)에서 마이크 장치를 확인하세요";

/// What a commit came to.
pub enum Outcome {
    Committed(Verdict),
    Failed(Seq<char>),
}

pub open spec fn outcome_of(r: Result<Committed, String>) -> Outcome {
    match r {
        Ok(c) => Outcome::Committed(c@),
        Err(e) => Outcome::Failed(e@),
    }
}

/// What the user interface is told of a commit, given the peak level of the recording. An empty
/// one without a signal is a fault of the microphone, not of the speaker.
pub open spec fn commit_notice(outcome: Outcome, peak: i32) -> (Seq<char>, Tree) {
    match outcome {
        Outcome::Committed(Verdict::Typed(t)) => (
            "dictate://stopped"@,
            bare().plus("text"@, Tree::Text(t)),
        ),
        Outcome::Committed(Verdict::Empty) => if peak < NO_SIGNAL_RMS {
            ("dictate://error"@, bare().plus("message"@, Tree::Text(NO_SIGNAL@)))
        } else {
            ("dictate://stopped"@, bare().plus("text"@, Tree::Text(Seq::empty())))
        },
        Outcome::Committed(Verdict::Filtered(t)) => (
            "dictate://filtered"@,
            bare().plus("text"@, Tree::Text(t)),
        ),
        Outcome::Failed(e) => ("dictate://error"@, bare().plus("message"@, Tree::Text(e))),
    }
}

/// What the user interface is told of a commit.
pub fn commit_event(outcome: &Result<Committed, String>, peak: i32) -> (r: (&'static str, Json))
    ensures
        (r.0@, r.1.tree()) == commit_notice(outcome_of(*outcome), peak),
{
    match outcome {
        Ok(Committed::Typed(t)) => (
            "dictate://stopped",
            Json::object().with("text", Json::text(t.as_str())),
        ),
        Ok(Committed::Empty) => {
            if peak < NO_SIGNAL_RMS {
                ("dictate://error", Json::object().with("message", Json::text(NO_SIGNAL)))
            } else {
                ("dictate://stopped", Json::object().with("text", Json::Text(String::new())))
            }
        },
        Ok(Committed::Filtered(t)) => (
            "dictate://filtered",
            Json::object().with("text", Json::text(t.as_str())),
        ),
        Err(e) => ("dictate://error", Json::object().with("message", Json::text(e.as_str()))),
    }
}

/// The session model's reading counts exactly where it says something, and as it stands.
pub proof fn lemma_spoken_is_what_was_said(reply: Result<String, RpcError>, r: Option<String>)
    requires
        call_ensures(spoken, (reply,), r),
    ensures
        r is Some <==> (reply matches Ok(t) && trimmed(t@).len() > 0),
        r matches Some(t) ==> (reply matches Ok(said) && t@ == said@),
{
}

/// The user is told what became of a dictation: the text that was typed, the text that was
/// withheld, and of a failure its reason, each as it is. Of nothing heard the user is told as an
/// error exactly where the level never came to 300, and as an empty text otherwise.
pub proof fn lemma_the_user_is_told(
    outcome: Result<Committed, String>,
    peak: i32,
    r: (&'static str, Json),
)
    requires
        call_ensures(commit_event, (&outcome, peak), r),
    ensures
        r.0@ == "dictate://stopped"@ || r.0@ == "dictate://error"@ || r.0@
            == "dictate://filtered"@,
        outcome matches Ok(Committed::Typed(t)) ==> r.0@ == "dictate://stopped"@ && text_member(
            r.1.tree(),
            "text"@,
        ) == Some(t@),
        outcome matches Ok(Committed::Filtered(t)) ==> r.0@ == "dictate://filtered"@
            && text_member(r.1.tree(), "text"@) == Some(t@),
        outcome matches Err(e) ==> r.0@ == "dictate://error"@ && text_member(
            r.1.tree(),
            "message"@,
        ) == Some(e@),
        outcome matches Ok(Committed::Empty) ==> (if peak < 300 {
            r.0@ == "dictate://error"@ && text_member(r.1.tree(), "message"@) == Some(NO_SIGNAL@)
        } else {
            r.0@ == "dictate://stopped"@ && text_member(r.1.tree(), "text"@) == Some(
                Seq::<char>::empty(),
            )
        }),
{
}

} // verus!
