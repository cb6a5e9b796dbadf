//! User configuration, and the level of captured audio that the silence settings speak of.

use vstd::prelude::*;

use crate::pcm;
use crate::pcm::{sample_at, sample_count};
use crate::text;

verus! {

#[derive(Debug, Clone, Copy, PartialEq, Eq, Structural)]
pub enum ActivationMode {
    /// Press once to start, press again to stop.
    Toggle,
    /// Hold to record, release to commit.
    PushToTalk,
}

#[derive(Debug, Clone, Copy, PartialEq, Eq, Structural)]
pub enum InjectionMode {
    /// Simulate keystrokes.
    Type,
    /// Set the clipboard and send Ctrl+V.
    Clipboard,
}

#[derive(Debug, Clone, Copy, PartialEq, Eq, Structural)]
pub enum Language {
    Auto,
    Korean,
    English,
}

/// What the user has set. The capture gain is no part of it: it belongs to the capture.
#[derive(Debug, Clone)]
pub struct Config {
    /// The dictation hotkey, such as `Ctrl+E`.
    pub hotkey: String,
    /// The hotkey of the settings panel.
    pub settings_hotkey: String,
    pub activation_mode: ActivationMode,
    /// How much silence, in milliseconds, commits a dictation. 0 is never.
    pub silence_autostop_ms: u64,
    /// The level below which audio is silence.
    pub silence_threshold: i16,
    pub injection_mode: InjectionMode,
    /// Whether the clipboard is put back after a paste.
    pub restore_clipboard: bool,
    /// Whether a space follows the text.
    pub append_trailing_space: bool,
    pub language: Language,
    /// Part of the name of the input device. None is the system's default.
    pub mic_device: Option<String>,
    pub hallucination_filter: bool,
    /// The transcription model. Blank is the default.
    pub transcribe_model: String,
    /// The session model. Blank is the default.
    pub realtime_model: String,
    /// Where the pill was left.
    pub window_x: Option<i32>,
    pub window_y: Option<i32>,
}

impl Default for Config {
    fn default() -> (r: Config)
        ensures
            r.hotkey@ == "Ctrl+E"@,
            r.settings_hotkey@ == "Ctrl+Shift+E"@,
            r.activation_mode == ActivationMode::PushToTalk,
            r.silence_autostop_ms == 0,
            r.silence_threshold == 500,
            r.injection_mode == InjectionMode::Type,
            r.restore_clipboard,
            !r.append_trailing_space,
            r.language == Language::Auto,
            r.mic_device is None,
            r.hallucination_filter,
            r.transcribe_model@.len() == 0,
            r.realtime_model@.len() == 0,
            r.window_x is None,
            r.window_y is None,
    {
        Config {
            hotkey: text::copy("Ctrl+E"),
            settings_hotkey: text::copy("Ctrl+Shift+E"),
            activation_mode: ActivationMode::PushToTalk,
            silence_autostop_ms: 0,
            silence_threshold: 500,
            injection_mode: InjectionMode::Type,
            restore_clipboard: true,
            append_trailing_space: false,
            language: Language::Auto,
            mic_device: None,
            hallucination_filter: true,
            transcribe_model: String::new(),
            realtime_model: String::new(),
            window_x: None,
            window_y: None,
        }
    }
}

/// The parts of the path of the configuration, from the values of `APPDATA` and `HOME`.
pub fn config_path(app_data: Option<&str>, home: Option<&str>) -> (r: Vec<String>)
    ensures
        r@.len() == 3,
        r@[0]@ == (match (app_data, home) {
            (Some(b), _) | (None, Some(b)) => b@,
            (None, None) => "."@,
        }),
        r@[1]@ == "codex-mic"@,
        r@[2]@ == "config.json"@,
{
    let base = match (app_data, home) {
        (Some(b), _) => b,
        (None, Some(b)) => b,
        (None, None) => ".",
    };
    vec![text::copy(base), text::copy("codex-mic"), text::copy("config.json")]
}

/// What a change of the settings asks for.
#[derive(Debug, Clone, Copy, PartialEq, Eq, Structural)]
pub struct ConfigChange {
    /// The hotkeys are to be registered anew.
    pub rebind: bool,
    /// The open session was configured with what no longer holds, and is to be dropped.
    pub reconnect: bool,
}

/// What a change of the settings asks for.
pub fn set_config(previous: &Config, next: &Config) -> (r: ConfigChange)
    ensures
        r.rebind == (previous.hotkey@ != next.hotkey@ || previous.settings_hotkey@
            != next.settings_hotkey@),
        r.reconnect == (previous.language != next.language || previous.transcribe_model@
            != next.transcribe_model@ || previous.realtime_model@ != next.realtime_model@),
{
    let rebind = !text::same(previous.hotkey.as_str(), next.hotkey.as_str()) || !text::same(
        previous.settings_hotkey.as_str(),
        next.settings_hotkey.as_str(),
    );
    let reconnect = previous.language != next.language || !text::same(
        previous.transcribe_model.as_str(),
        next.transcribe_model.as_str(),
    ) || !text::same(previous.realtime_model.as_str(), next.realtime_model.as_str());
    ConfigChange { rebind, reconnect }
}

/// The sum of the squares of the first samples.
pub open spec fn energy(pcm: Seq<u8>, count: nat) -> int
    decreases count,
{
    if count == 0 {
        0
    } else {
        energy(pcm, (count - 1) as nat) + sample_at(pcm, count - 1) * sample_at(pcm, count - 1)
    }
}

/// A level is the root mean square of samples with that energy, rounded down, and at most the
/// loudest sample there is.
pub open spec fn is_level(level: int, energy: int, count: int) -> bool {
    &&& 0 <= level <= 32767
    &&& level * level * count <= energy
    &&& level == 32767 || energy < (level + 1) * (level + 1) * count
}

/// There is one such level only.
pub proof fn lemma_level_is_unique(a: int, b: int, energy: int, count: int)
    requires
        count > 0,
        is_level(a, energy, count),
        is_level(b, energy, count),
    ensures
        a == b,
{
    if a < b {
        assert((a + 1) * (a + 1) * count <= b * b * count) by (nonlinear_arith)
            requires
                0 <= a < b,
                count > 0,
        ;
    }
    if b < a {
        assert((b + 1) * (b + 1) * count <= a * a * count) by (nonlinear_arith)
            requires
                0 <= b < a,
                count > 0,
        ;
    }
}

/// The level of 16-bit samples: the root of the mean of their squares, rounded down. No samples
/// have the level 0.
pub fn pcm_rms(pcm: &[u8]) -> (r: i16)
    ensures
        sample_count(pcm@) == 0 ==> r == 0,
        sample_count(pcm@) > 0 ==> is_level(
            r as int,
            energy(pcm@, sample_count(pcm@)),
            sample_count(pcm@) as int,
        ),
{
    let len: usize = pcm.len();
    let n: usize = len / 2;
    if n == 0 {
        return 0;
    }
    let mut sum: u128 = 0;
    for i in 0..n
        invariant
            n == sample_count(pcm@),
            n == len / 2,
            len == pcm@.len(),
            sum == energy(pcm@, i as nat),
            sum <= i * 0x4000_0000,
            n <= 0x7fff_ffff_ffff_ffff,
    {
        let s: i32 = pcm::from_le_bytes(pcm[2 * i], pcm[2 * i + 1]) as i32;
        assert(s == sample_at(pcm@, i as int));
        assert(0 <= s * s <= 0x4000_0000) by (nonlinear_arith)
            requires
                -32768 <= s <= 32767,
        ;
        sum = sum + (s * s) as u128;
    }
    let count: u128 = n as u128;
    let mut lo: u128 = 0;
    let mut hi: u128 = 32769;
    assert(sum < 32769 * 32769 * count);
    while hi - lo > 1
        invariant
            lo < hi <= 32769,
            count == n,
            0 < count <= 0x7fff_ffff_ffff_ffff,
            lo * lo * count <= sum,
            sum < hi * hi * count,
        decreases hi - lo,
    {
        let mid: u128 = (lo + hi) / 2;
        assert(mid * mid <= 32769 * 32769) by (nonlinear_arith)
            requires
                0 <= mid <= 32769,
        ;
        assert(mid * mid * count <= 32769 * 32769 * 0x7fff_ffff_ffff_ffff) by (nonlinear_arith)
            requires
                0 <= mid * mid <= 32769 * 32769,
                0 < count <= 0x7fff_ffff_ffff_ffff,
        ;
        if mid * mid * count <= sum {
            lo = mid;
        } else {
            hi = mid;
        }
    }
    if lo > 32767 {
        assert(32767 * 32767 * count <= lo * lo * count) by (nonlinear_arith)
            requires
                lo > 32767,
                count > 0,
        ;
        return 32767;
    }
    lo as i16
}

/// Where the settings are: under the application data, else under the home directory, else here.
pub proof fn lemma_where_the_settings_are(
    app_data: Option<&str>,
    home: Option<&str>,
    r: Vec<String>,
)
    requires
        call_ensures(config_path, (app_data, home), r),
    ensures
        r@.len() == 3,
        app_data matches Some(d) ==> r@[0]@ == d@,
        app_data is None && home is Some ==> r@[0]@ == home->Some_0@,
        app_data is None && home is None ==> r@[0]@ == "."@,
        r@[1]@ == "codex-mic"@ && r@[2]@ == "config.json"@,
{
}

/// A change of settings takes effect at once: hotkeys that changed are bound anew, and a session
/// that was opened with another language or another model is dropped. Settings that stay as they
/// are ask for nothing.
pub proof fn lemma_a_change_takes_effect(
    previous: Config,
    next: Config,
    r: ConfigChange,
    same: ConfigChange,
)
    requires
        call_ensures(set_config, (&previous, &next), r),
        call_ensures(set_config, (&next, &next), same),
    ensures
        !same.rebind && !same.reconnect,
        previous.hotkey@ != next.hotkey@ ==> r.rebind,
        previous.settings_hotkey@ != next.settings_hotkey@ ==> r.rebind,
        r.rebind ==> previous.hotkey@ != next.hotkey@ || previous.settings_hotkey@
            != next.settings_hotkey@,
        previous.language != next.language ==> r.reconnect,
        previous.transcribe_model@ != next.transcribe_model@ ==> r.reconnect,
        previous.realtime_model@ != next.realtime_model@ ==> r.reconnect,
        r.reconnect ==> previous.language != next.language || previous.transcribe_model@
            != next.transcribe_model@ || previous.realtime_model@ != next.realtime_model@,
{
}

proof fn lemma_steady_energy(pcm: Seq<u8>, count: nat, a: int)
    requires
        forall|i: int|
            0 <= i < count ==> #[trigger] sample_at(pcm, i) == a || sample_at(pcm, i) == -a,
    ensures
        energy(pcm, count) == a * a * count,
    decreases count,
{
    if count > 0 {
        lemma_steady_energy(pcm, (count - 1) as nat, a);
        let s = sample_at(pcm, count - 1);
        assert(s * s == a * a) by (nonlinear_arith)
            requires
                s == a || s == -a,
        ;
        assert(a * a * (count - 1) + a * a == a * a * count) by (nonlinear_arith);
    } else {
        assert(a * a * 0 == 0) by (nonlinear_arith);
    }
}

/// The level of a tone that is equally loud throughout is its amplitude, whatever the signs of its
/// samples; and nothing has no level.
pub proof fn lemma_the_level_of_a_steady_tone(pcm: &[u8], a: int, r: i16)
    requires
        call_ensures(pcm_rms, (pcm,), r),
        0 <= a <= 32767,
        forall|i: int|
            0 <= i < sample_count(pcm@) ==> #[trigger] sample_at(pcm@, i) == a || sample_at(pcm@, i)
                == -a,
    ensures
        sample_count(pcm@) > 0 ==> r == a,
        sample_count(pcm@) == 0 ==> r == 0,
{
    let n = sample_count(pcm@);
    if n > 0 {
        lemma_steady_energy(pcm@, n, a);
        assert(a * a * n < (a + 1) * (a + 1) * n) by (nonlinear_arith)
            requires
                a >= 0,
                n > 0,
        ;
        lemma_level_is_unique(r as int, a, energy(pcm@, n), n as int);
    }
}

proof fn lemma_energy_within(pcm: Seq<u8>, count: nat, most: int)
    requires
        most >= 0,
        forall|i: int| 0 <= i < count ==> -most <= #[trigger] sample_at(pcm, i) <= most,
    ensures
        energy(pcm, count) <= most * most * count,
    decreases count,
{
    if count > 0 {
        lemma_energy_within(pcm, (count - 1) as nat, most);
        let s = sample_at(pcm, count - 1);
        assert(s * s <= most * most) by (nonlinear_arith)
            requires
                -most <= s <= most,
        ;
        assert(most * most * (count - 1) + most * most == most * most * count)
            by (nonlinear_arith);
    } else {
        assert(most * most * 0 == 0) by (nonlinear_arith);
    }
}

/// The level never exceeds the loudest sample.
pub proof fn lemma_the_level_is_within_the_loudest(pcm: &[u8], most: int, r: i16)
    requires
        call_ensures(pcm_rms, (pcm,), r),
        most >= 0,
        forall|i: int|
            0 <= i < sample_count(pcm@) ==> -most <= #[trigger] sample_at(pcm@, i) <= most,
    ensures
        0 <= r <= most,
{
    let n = sample_count(pcm@);
    if n > 0 {
        lemma_energy_within(pcm@, n, most);
        let l = r as int;
        if l > most {
            assert(most * most * n < l * l * n) by (nonlinear_arith)
                requires
                    0 <= most < l,
                    n > 0,
            ;
        }
    }
}

} // verus!
