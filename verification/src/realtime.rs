//! The realtime session: which models it is opened with, what is sent on it, what its events
//! mean, and how a connection comes about.

use vstd::prelude::*;

use crate::auth;
use crate::auth::OAuthTokens;
use crate::config::Language;
use crate::dictate;
use crate::encoding;
use crate::error::{Fault, RpcError};
use crate::json::{bare, json_read, member, member_in, member_of, text_in, text_member, zeroth};
use crate::json::{Json, Tree};
use crate::text;
use crate::text::{occurs, trimmed};

verus! {

/// The rate of the audio that the session takes: 16-bit samples, one channel.
pub const SESSION_SAMPLE_RATE: u32 = 24_000;

/// How long each of the two steps of a connection may take, in milliseconds.
pub const CONNECT_TIMEOUT: u64 = 15_000;

/// How long a session may be reused, in seconds, where nothing else is asked for.
pub const DEFAULT_STALE_SECS: u64 = 90;

pub const REALTIME_WS_BASE: &'static str = "wss://api.openai.com/v1/realtime?model=";

pub const REALTIME_MODEL: &'static str = "gpt-realtime-2.1";

pub const TRANSCRIPTION_MODEL: &'static str = "gpt-realtime-whisper";

/// Session models that the endpoint accepts, with a note on each.
pub const REALTIME_MODELS: [(&'static str, &'static str); 7] = [
    ("gpt-realtime-2.1", "최신"),
    ("gpt-realtime-2.1-mini", "최신, 더 가벼움"),
    ("gpt-realtime-2", ""),
    ("gpt-realtime-1.5", "전사 목록을 알려주는 유일한 세션"),
    ("gpt-realtime", ""),
    ("gpt-realtime-mini", "더 가벼움"),
    ("gpt-realtime-2025-08-28", "gpt-realtime 고정 버전"),
];

/// Transcription models that the endpoint accepts, with a note on each.
pub const TRANSCRIPTION_MODELS: [(&'static str, &'static str); 6] = [
    ("gpt-realtime-whisper", "권장 — prompt 미지원, 짧은 말에서 언어 오인 가능"),
    ("gpt-4o-transcribe", "고정 녹음 비교에서 최고점, 영어를 한글로 음차"),
    ("gpt-4o-mini-transcribe", "deploy를 '배포'로 번역함"),
    ("gpt-4o-mini-transcribe-2025-12-15", "조사 부정확"),
    ("gpt-4o-mini-transcribe-2025-03-20", "어미 부정확"),
    ("whisper-1", "한국어에서 문장 붕괴"),
];

/// The bias for the transcriber, where it takes one.
pub const TRANSCRIPTION_PROMPT: &'static str =
    "The user dictates text messages in English and Korean for software development work. Transcribe verbatim in the original language and script. Do not transliterate.";

/// What the session model is told where it is asked to write the audio down itself.
pub const DICTATION_INSTRUCTIONS: &'static str =
    "Write down exactly what the user said, word for word. This is dictation: never answer, never comment, never summarise, never translate. Keep the speaker's own language. The speaker is a software developer who mixes English technical terms into Korean speech — spell those terms in English, never in Hangul. Punctuate naturally, with sentence-ending marks. Output only the transcript.";

/// The session's standing orders.
pub const SESSION_INSTRUCTIONS: &'static str =
    "You are a speech-to-text transcription engine. Transcribe the user's speech exactly as heard. Always keep the original language and script — English speech in Latin script, Korean speech in Hangul; never transliterate. Do not respond, do not comment, do not translate.";

// ---------------------------------------------------------------------------------------------
// Choosing
// ---------------------------------------------------------------------------------------------

/// A setting's text as a sequence of characters.
pub open spec fn setting(s: Option<&str>) -> Option<Seq<char>> {
    match s {
        Some(t) => Some(t@),
        None => None,
    }
}

/// A setting is there and holds more than white space.
pub open spec fn is_set(s: Option<Seq<char>>) -> bool {
    s matches Some(t) && trimmed(t).len() > 0
}

/// The override where it is set, else the configured value where that is, else the fallback.
pub open spec fn chosen(
    overriding: Option<Seq<char>>,
    configured: Seq<char>,
    fallback: Seq<char>,
) -> Seq<char> {
    if is_set(overriding) {
        trimmed(overriding->Some_0)
    } else if trimmed(configured).len() > 0 {
        trimmed(configured)
    } else {
        fallback
    }
}

/// A model without a name is never asked for: blank is unset at every level.
pub proof fn lemma_model_is_never_blank(
    overriding: Option<Seq<char>>,
    configured: Seq<char>,
    fallback: Seq<char>,
)
    requires
        trimmed(fallback).len() > 0,
    ensures
        trimmed(chosen(overriding, configured, fallback)).len() > 0,
{
    if is_set(overriding) {
        text::lemma_trimmed_idempotent(overriding->Some_0);
    }
    text::lemma_trimmed_idempotent(configured);
}

fn choose_model(overriding: Option<&str>, configured: &str, fallback: &str) -> (r: String)
    ensures
        r@ == chosen(setting(overriding), configured@, fallback@),
{
    if let Some(m) = overriding {
        let m = text::trim(m);
        if m.unicode_len() != 0 {
            return text::copy(m);
        }
    }
    let c = text::trim(configured);
    if c.unicode_len() != 0 {
        return text::copy(c);
    }
    text::copy(fallback)
}

pub fn default_realtime_model() -> (r: &'static str)
    ensures
        r@ == REALTIME_MODEL@,
{
    REALTIME_MODEL
}

/// The transcription model where the settings leave it open.
pub fn default_transcription_model() -> (r: &'static str)
    ensures
        r@ == TRANSCRIPTION_MODEL@,
{
    TRANSCRIPTION_MODEL
}

/// The session model: the override, else the settings, else the default.
pub fn realtime_model(overriding: Option<&str>, configured: &str) -> (r: String)
    ensures
        r@ == chosen(setting(overriding), configured@, REALTIME_MODEL@),
{
    choose_model(overriding, configured, REALTIME_MODEL)
}

/// Where the session is opened.
pub fn realtime_ws_url(overriding: Option<&str>, configured: &str) -> (r: String)
    ensures
        r@ == REALTIME_WS_BASE@ + chosen(setting(overriding), configured@, REALTIME_MODEL@),
{
    text::join(REALTIME_WS_BASE, realtime_model(overriding, configured).as_str())
}

/// The transcription model: the override, else the settings, else the default.
pub fn transcription_model(overriding: Option<&str>, configured: &str) -> (r: String)
    ensures
        r@ == chosen(setting(overriding), configured@, TRANSCRIPTION_MODEL@),
{
    choose_model(overriding, configured, TRANSCRIPTION_MODEL)
}

/// The seconds that an override asks for, where it is a number.
pub open spec fn stale_secs(overriding: Option<Seq<char>>) -> u64 {
    match overriding {
        Some(s) => match text::unsigned(s) {
            Some(n) => n,
            None => DEFAULT_STALE_SECS,
        },
        None => DEFAULT_STALE_SECS,
    }
}

/// How long a session may be reused, in seconds.
pub fn stale_after(overriding: Option<&str>) -> (r: u64)
    ensures
        r == stale_secs(setting(overriding)),
{
    match overriding {
        Some(s) => match text::read_u64(s) {
            Some(n) => n,
            None => DEFAULT_STALE_SECS,
        },
        None => DEFAULT_STALE_SECS,
    }
}

/// Whether a session of that age, in milliseconds, may still be used.
pub fn is_usable(alive: bool, age: u64, stale_secs: u64) -> (r: bool)
    ensures
        r == (alive && age < stale_secs * 1000),
{
    alive && (age as u128) < (stale_secs as u128) * 1000
}

/// Whether a transcription model takes a bias.
pub fn supports_prompt(model: &str) -> (r: bool)
    ensures
        r == (model@ != "gpt-realtime-whisper"@),
{
    !text::same(model, "gpt-realtime-whisper")
}

/// The switch is given, and not as `0`.
pub open spec fn switched_on(s: Option<Seq<char>>) -> bool {
    s matches Some(t) && t != "0"@
}

fn is_switched_on(s: Option<&str>) -> (r: bool)
    ensures
        r == switched_on(setting(s)),
{
    match s {
        Some(t) => !text::same(t, "0"),
        None => false,
    }
}

/// Whether transcripts are logged with their text.
pub fn debug_transcript(switch: Option<&str>) -> (r: bool)
    ensures
        r == switched_on(setting(switch)),
{
    is_switched_on(switch)
}

/// Whether the hotkey, and not the server, decides where a turn ends.
pub fn manual_turns(server_vad: Option<&str>) -> (r: bool)
    ensures
        r == !switched_on(setting(server_vad)),
{
    !is_switched_on(server_vad)
}

/// Whether the session model writes the transcript, which it may make up. Only where it is asked
/// for with `1`.
pub fn model_transcription(switch: Option<&str>) -> (r: bool)
    ensures
        r == (setting(switch) == Some("1"@)),
{
    match switch {
        Some(t) => text::same(t, "1"),
        None => false,
    }
}

/// The override as it stands where it is set, else the fallback.
pub open spec fn set_or(overriding: Option<Seq<char>>, fallback: Seq<char>) -> Seq<char> {
    if is_set(overriding) {
        overriding->Some_0
    } else {
        fallback
    }
}

fn choose_text(overriding: Option<&str>, fallback: &str) -> (r: String)
    ensures
        r@ == set_or(setting(overriding), fallback@),
{
    if let Some(p) = overriding {
        if !text::is_blank(p) {
            return text::copy(p);
        }
    }
    text::copy(fallback)
}

/// The bias for the transcriber.
pub fn transcription_prompt(overriding: Option<&str>) -> (r: String)
    ensures
        r@ == set_or(setting(overriding), TRANSCRIPTION_PROMPT@),
{
    choose_text(overriding, TRANSCRIPTION_PROMPT)
}

/// What the session model is told where it writes the audio down itself.
pub fn dictation_instructions(overriding: Option<&str>) -> (r: String)
    ensures
        r@ == set_or(setting(overriding), DICTATION_INSTRUCTIONS@),
{
    choose_text(overriding, DICTATION_INSTRUCTIONS)
}

/// The standing orders for a language.
pub open spec fn orders(language: Language) -> Seq<char> {
    match language {
        Language::Auto => SESSION_INSTRUCTIONS@,
        Language::Korean => SESSION_INSTRUCTIONS@ + " The user usually speaks Korean."@,
        Language::English => SESSION_INSTRUCTIONS@ + " The user usually speaks English."@,
    }
}

/// The session's standing orders.
pub fn instructions(language: Language) -> (r: String)
    ensures
        r@ == orders(language),
{
    match language {
        Language::Auto => text::copy(SESSION_INSTRUCTIONS),
        Language::Korean => text::join(SESSION_INSTRUCTIONS, " The user usually speaks Korean."),
        Language::English => text::join(SESSION_INSTRUCTIONS, " The user usually speaks English."),
    }
}

/// The language that the transcriber is told, if any.
pub open spec fn pinned(overriding: Option<Seq<char>>, language: Language) -> Option<Seq<char>> {
    if overriding == Some("ko"@) {
        Some("ko"@)
    } else if overriding == Some("en"@) {
        Some("en"@)
    } else {
        match language {
            Language::Auto => None,
            Language::Korean => Some("ko"@),
            Language::English => Some("en"@),
        }
    }
}

/// The language that the transcriber is told: only one that was picked.
pub fn transcription_language(overriding: Option<&str>, language: Language) -> (r: Option<
    &'static str,
>)
    ensures
        setting(r) == pinned(setting(overriding), language),
{
    if let Some(l) = overriding {
        if text::same(l, "ko") {
            return Some("ko");
        }
        if text::same(l, "en") {
            return Some("en");
        }
    }
    match language {
        Language::Auto => None,
        Language::Korean => Some("ko"),
        Language::English => Some("en"),
    }
}

/// A model for the user to pick: its name, a note, and whether it is the default.
pub open spec fn model_tree(model: (&'static str, &'static str), default: Seq<char>) -> Tree {
    bare().plus("id"@, Tree::Text(model.0@)).plus("note"@, Tree::Text(model.1@)).plus(
        "is_default"@,
        Tree::Bool(model.0@ == default),
    )
}

fn list_models(models: &[(&'static str, &'static str)], default: &str) -> (r: Vec<Json>)
    ensures
        r@.len() == models@.len(),
        forall|i: int|
            0 <= i < models@.len() ==> (#[trigger] r@[i]).tree() == model_tree(
                models@[i],
                default@,
            ),
{
    let mut out: Vec<Json> = Vec::new();
    for i in 0..models.len()
        invariant
            out@.len() == i,
            forall|j: int|
                0 <= j < i ==> (#[trigger] out@[j]).tree() == model_tree(models@[j], default@),
    {
        let (id, note) = models[i];
        out.push(
            Json::object().with("id", Json::text(id)).with("note", Json::text(note)).with(
                "is_default",
                Json::Bool(text::same(id, default)),
            ),
        );
    }
    out
}

/// The transcription models for the user to pick from.
pub fn list_transcribe_models() -> (r: Vec<Json>)
    ensures
        r@.len() == TRANSCRIPTION_MODELS@.len(),
        forall|i: int|
            0 <= i < r@.len() ==> (#[trigger] r@[i]).tree() == model_tree(
                TRANSCRIPTION_MODELS@[i],
                TRANSCRIPTION_MODEL@,
            ),
{
    list_models(TRANSCRIPTION_MODELS.as_slice(), TRANSCRIPTION_MODEL)
}

/// The session models for the user to pick from.
pub fn list_realtime_models() -> (r: Vec<Json>)
    ensures
        r@.len() == REALTIME_MODELS@.len(),
        forall|i: int|
            0 <= i < r@.len() ==> (#[trigger] r@[i]).tree() == model_tree(
                REALTIME_MODELS@[i],
                REALTIME_MODEL@,
            ),
{
    list_models(REALTIME_MODELS.as_slice(), REALTIME_MODEL)
}

/// The default models are among those that the endpoint accepts.
pub proof fn lemma_defaults_are_accepted()
    ensures
        exists|i: int|
            0 <= i < TRANSCRIPTION_MODELS@.len() && (#[trigger] TRANSCRIPTION_MODELS@[i]).0@
                == TRANSCRIPTION_MODEL@,
        exists|i: int|
            0 <= i < REALTIME_MODELS@.len() && (#[trigger] REALTIME_MODELS@[i]).0@
                == REALTIME_MODEL@,
{
    assert(TRANSCRIPTION_MODELS@[0].0@ == TRANSCRIPTION_MODEL@);
    assert(REALTIME_MODELS@[0].0@ == REALTIME_MODEL@);
}

/// A model is the override where that says something, else what the settings say, else the default;
/// and it is asked for by exactly that name, without padding. The session is opened with its model.
pub proof fn lemma_which_model_is_used(
    overriding: Option<&str>,
    configured: &str,
    session: String,
    transcriber: String,
    url: String,
)
    requires
        call_ensures(realtime_model, (overriding, configured), session),
        call_ensures(transcription_model, (overriding, configured), transcriber),
        call_ensures(realtime_ws_url, (overriding, configured), url),
    ensures
        ({
            let over = overriding is Some && trimmed(overriding->Some_0@).len() > 0;
            let set = trimmed(configured@).len() > 0;
            &&& over ==> session@ == trimmed(overriding->Some_0@) && transcriber@ == session@
            &&& !over && set ==> session@ == trimmed(configured@) && transcriber@ == session@
            &&& !over && !set ==> session@ == "gpt-realtime-2.1"@ && transcriber@
                == "gpt-realtime-whisper"@
            &&& url@ == "wss://api.openai.com/v1/realtime?model="@ + session@
        }),
{
}

/// The switches. The hotkey decides about turns unless the server is asked to by anything but `0`.
/// The session model writes only where it is asked to by `1`. Transcripts are logged where that is
/// asked for by anything but `0`.
pub proof fn lemma_what_the_switches_say(switch: Option<&str>, manual: bool, model: bool, log: bool)
    requires
        call_ensures(manual_turns, (switch,), manual),
        call_ensures(model_transcription, (switch,), model),
        call_ensures(debug_transcript, (switch,), log),
    ensures
        switch is None ==> manual && !model && !log,
        switch matches Some(t) ==> (manual <==> t@ == "0"@) && (model <==> t@ == "1"@) && (log
            <==> t@ != "0"@),
{
}

/// A session is used again only while it lives and its age in seconds is below the limit, which is
/// ninety where no number is given and otherwise that number.
pub proof fn lemma_how_long_a_session_is_used(
    overriding: Option<&str>,
    limit: u64,
    alive: bool,
    age: u64,
    r: bool,
)
    requires
        call_ensures(stale_after, (overriding,), limit),
        call_ensures(is_usable, (alive, age, limit), r),
    ensures
        overriding is None ==> (r <==> alive && age < 90_000),
        overriding matches Some(t) ==> (text::unsigned(t@) is None ==> (r <==> alive && age
            < 90_000)),
        overriding matches Some(t) ==> (text::unsigned(t@) matches Some(n) ==> (r <==> alive && age
            < n * 1_000)),
{
}

/// The texts that can be replaced are replaced, as they stand, by a replacement that is not blank,
/// and by no other.
pub proof fn lemma_texts_are_replaced_as_they_stand(
    overriding: Option<&str>,
    prompt: String,
    orders: String,
)
    requires
        call_ensures(transcription_prompt, (overriding,), prompt),
        call_ensures(dictation_instructions, (overriding,), orders),
    ensures
        overriding is Some && trimmed(overriding->Some_0@).len() > 0 ==> prompt@
            == overriding->Some_0@ && orders@ == overriding->Some_0@,
        overriding is None || trimmed(overriding->Some_0@).len() == 0 ==> prompt@
            == TRANSCRIPTION_PROMPT@ && orders@ == DICTATION_INSTRUCTIONS@,
{
}

/// The transcriber is told a language only where one was picked, in the settings or by an override
/// that names one of the two, which comes first. The standing orders name the language of the
/// settings, and are the same but for that.
pub proof fn lemma_which_language_is_told(
    overriding: Option<&str>,
    language: Language,
    r: Option<&'static str>,
    orders: String,
)
    requires
        call_ensures(transcription_language, (overriding, language), r),
        call_ensures(instructions, (language,), orders),
    ensures
        ({
            let ko = setting(overriding) == Some("ko"@);
            let en = setting(overriding) == Some("en"@);
            &&& ko ==> (r matches Some(l) && l@ == "ko"@)
            &&& en ==> (r matches Some(l) && l@ == "en"@)
            &&& !ko && !en && language == Language::Korean ==> (r matches Some(l) && l@ == "ko"@)
            &&& !ko && !en && language == Language::English ==> (r matches Some(l) && l@ == "en"@)
            &&& !ko && !en && language == Language::Auto ==> r is None
        }),
        SESSION_INSTRUCTIONS@.is_prefix_of(orders@),
        orders@.skip(SESSION_INSTRUCTIONS@.len() as int) == (match language {
            Language::Auto => Seq::empty(),
            Language::Korean => " The user usually speaks Korean."@,
            Language::English => " The user usually speaks English."@,
        }),
{
    reveal_strlit("ko");
    reveal_strlit("en");
    assert("ko"@[0] == 'k' && "en"@[0] == 'e');
    let n = SESSION_INSTRUCTIONS@.len() as int;
    assert(orders@.take(n) =~= SESSION_INSTRUCTIONS@);
    assert(orders@.skip(n) =~= (match language {
        Language::Auto => Seq::empty(),
        Language::Korean => " The user usually speaks Korean."@,
        Language::English => " The user usually speaks English."@,
    }));
}

/// A list for the user to pick from names every model that the endpoint accepts, in order, and marks
/// the default among them and no other.
pub proof fn lemma_the_lists_name_every_model(a: Vec<Json>, b: Vec<Json>, i: int)
    requires
        call_ensures(list_transcribe_models, (), a),
        call_ensures(list_realtime_models, (), b),
    ensures
        a@.len() == TRANSCRIPTION_MODELS@.len(),
        b@.len() == REALTIME_MODELS@.len(),
        0 <= i < a@.len() ==> text_member(a@[i].tree(), "id"@) == Some(TRANSCRIPTION_MODELS@[i].0@)
            && text_member(a@[i].tree(), "note"@) == Some(TRANSCRIPTION_MODELS@[i].1@) && member(
            a@[i].tree(),
            "is_default"@,
        ) == Some(Tree::Bool(TRANSCRIPTION_MODELS@[i].0@ == "gpt-realtime-whisper"@)),
        0 <= i < b@.len() ==> text_member(b@[i].tree(), "id"@) == Some(REALTIME_MODELS@[i].0@)
            && text_member(b@[i].tree(), "note"@) == Some(REALTIME_MODELS@[i].1@) && member(
            b@[i].tree(),
            "is_default"@,
        ) == Some(Tree::Bool(REALTIME_MODELS@[i].0@ == "gpt-realtime-2.1"@)),
{
    reveal_strlit("id");
    reveal_strlit("note");
    reveal_strlit("is_default");
    assert("id"@.len() == 2 && "note"@.len() == 4 && "is_default"@.len() == 10);
}

// ---------------------------------------------------------------------------------------------
// What is sent
// ---------------------------------------------------------------------------------------------

/// What a session is configured with.
#[derive(Debug, Clone)]
pub struct SessionConfig {
    pub model: String,
    pub prompt: String,
    pub language: Option<&'static str>,
    pub instructions: String,
    pub manual: bool,
}

impl SessionConfig {
    /// The configuration under the given settings and overrides.
    pub fn choose_from(
        model_override: Option<&str>,
        model: &str,
        prompt_override: Option<&str>,
        language_override: Option<&str>,
        language: Language,
        server_vad: Option<&str>,
    ) -> (r: SessionConfig)
        ensures
            r.model@ == chosen(setting(model_override), model@, TRANSCRIPTION_MODEL@),
            r.prompt@ == set_or(setting(prompt_override), TRANSCRIPTION_PROMPT@),
            setting(r.language) == pinned(setting(language_override), language),
            r.instructions@ == orders(language),
            r.manual == !switched_on(setting(server_vad)),
    {
        SessionConfig {
            model: transcription_model(model_override, model),
            prompt: transcription_prompt(prompt_override),
            language: transcription_language(language_override, language),
            instructions: instructions(language),
            manual: manual_turns(server_vad),
        }
    }
}

/// How the input is transcribed.
pub open spec fn transcription_tree(c: SessionConfig) -> Tree {
    let base = bare().plus("model"@, Tree::Text(c.model@));
    let prompted = if c.model@ != "gpt-realtime-whisper"@ {
        base.plus("prompt"@, Tree::Text(c.prompt@))
    } else {
        base
    };
    match c.language {
        Some(l) => prompted.plus("language"@, Tree::Text(l@)),
        None => prompted,
    }
}

/// How the server finds the ends of a turn, given the threshold for speech.
pub open spec fn turn_detection_tree(manual: bool, threshold: Tree) -> Tree {
    if manual {
        Tree::Null
    } else {
        bare().plus("type"@, Tree::Text("server_vad"@)).plus("threshold"@, threshold).plus(
            "prefix_padding_ms"@,
            Tree::Int(300),
        ).plus("silence_duration_ms"@, Tree::Int(500))
    }
}

/// The message that configures a session.
pub open spec fn session_update_tree(c: SessionConfig, threshold: Tree) -> Tree {
    let format = bare().plus("type"@, Tree::Text("audio/pcm"@)).plus(
        "rate"@,
        Tree::Int(SESSION_SAMPLE_RATE as int),
    );
    let input = bare().plus("format"@, format).plus(
        "turn_detection"@,
        turn_detection_tree(c.manual, threshold),
    ).plus("noise_reduction"@, bare().plus("type"@, Tree::Text("near_field"@))).plus(
        "transcription"@,
        transcription_tree(c),
    );
    let session = bare().plus("type"@, Tree::Text("realtime"@)).plus(
        "instructions"@,
        Tree::Text(c.instructions@),
    ).plus("output_modalities"@, Tree::List(seq![Tree::Text("text"@)])).plus(
        "audio"@,
        bare().plus("input"@, input),
    );
    bare().plus("type"@, Tree::Text("session.update"@)).plus("session"@, session)
}

fn transcription_setup(c: &SessionConfig) -> (r: Json)
    ensures
        r.tree() == transcription_tree(*c),
{
    let mut t = Json::object().with("model", Json::text(c.model.as_str()));
    if supports_prompt(c.model.as_str()) {
        t = t.with("prompt", Json::text(c.prompt.as_str()));
    }
    if let Some(l) = c.language {
        t = t.with("language", Json::text(l));
    }
    t
}

fn turn_detection(manual: bool, threshold: Json) -> (r: Json)
    ensures
        r.tree() == turn_detection_tree(manual, threshold.tree()),
{
    if manual {
        return Json::Null;
    }
    Json::object().with("type", Json::text("server_vad")).with("threshold", threshold).with(
        "prefix_padding_ms",
        Json::Unsigned(300),
    ).with("silence_duration_ms", Json::Unsigned(500))
}

/// The message that configures a session.
pub fn session_update(c: &SessionConfig, threshold: Json) -> (r: Json)
    ensures
        r.tree() == session_update_tree(*c, threshold.tree()),
{
    let format = Json::object().with("type", Json::text("audio/pcm")).with(
        "rate",
        Json::Unsigned(SESSION_SAMPLE_RATE as u64),
    );
    let input = Json::object().with("format", format).with(
        "turn_detection",
        turn_detection(c.manual, threshold),
    ).with("noise_reduction", Json::object().with("type", Json::text("near_field"))).with(
        "transcription",
        transcription_setup(c),
    );
    let session = Json::object().with("type", Json::text("realtime")).with(
        "instructions",
        Json::text(c.instructions.as_str()),
    ).with("output_modalities", Json::one(Json::text("text"))).with(
        "audio",
        Json::object().with("input", input),
    );
    Json::object().with("type", Json::text("session.update")).with("session", session)
}

/// A bias is never sent to the model that refuses one.
pub proof fn lemma_prompt_is_withheld(c: SessionConfig)
    ensures
        member(transcription_tree(c), "prompt"@) is Some <==> c.model@
            != "gpt-realtime-whisper"@,
{
    reveal_strlit("prompt");
    reveal_strlit("model");
    reveal_strlit("language");
    assert("prompt"@.len() == 6 && "model"@.len() == 5 && "language"@.len() == 8);
}

proof fn lemma_names_in_a_configuration()
    ensures
        "type"@ != "rate"@,
        "type"@.len() == 4,
        "rate"@.len() == 4,
        "session"@.len() == 7,
        "instructions"@.len() == 12,
        "output_modalities"@.len() == 17,
        "audio"@.len() == 5,
        "input"@.len() == 5,
        "format"@.len() == 6,
        "turn_detection"@.len() == 14,
        "noise_reduction"@.len() == 15,
        "transcription"@.len() == 13,
        "model"@.len() == 5,
        "prompt"@.len() == 6,
        "language"@.len() == 8,
        "threshold"@.len() == 9,
        "prefix_padding_ms"@.len() == 17,
        "silence_duration_ms"@.len() == 19,
{
    reveal_strlit("type");
    reveal_strlit("rate");
    reveal_strlit("session");
    reveal_strlit("instructions");
    reveal_strlit("output_modalities");
    reveal_strlit("audio");
    reveal_strlit("input");
    reveal_strlit("format");
    reveal_strlit("turn_detection");
    reveal_strlit("noise_reduction");
    reveal_strlit("transcription");
    reveal_strlit("model");
    reveal_strlit("prompt");
    reveal_strlit("language");
    reveal_strlit("threshold");
    reveal_strlit("prefix_padding_ms");
    reveal_strlit("silence_duration_ms");
    assert("type"@[0] == 't' && "rate"@[0] == 'r');
}

/// What a configuring message says of the session and of its audio.
pub open spec fn session_part(message: Tree, name: Seq<char>) -> Option<Tree> {
    member_of(message, "session"@, name)
}

pub open spec fn input_part(message: Tree, name: Seq<char>) -> Option<Tree> {
    member_in(member_in(session_part(message, "audio"@), "input"@), name)
}

/// The message that configures a session tells the transcriber, whichever model it is, that model,
/// the language exactly where one is pinned, and the bias exactly where the model takes one.
pub proof fn lemma_the_transcriber_is_told(c: SessionConfig, threshold: Json, r: Json)
    requires
        call_ensures(session_update, (&c, threshold), r),
    ensures
        ({
            let told = input_part(r.tree(), "transcription"@);
            &&& member_in(told, "model"@) == Some(Tree::Text(c.model@))
            &&& member_in(told, "language"@) == (match c.language {
                Some(l) => Some(Tree::Text(l@)),
                None => None,
            })
            &&& member_in(told, "prompt"@) == (if c.model@ == "gpt-realtime-whisper"@ {
                None
            } else {
                Some(Tree::Text(c.prompt@))
            })
        }),
{
    lemma_names_in_a_configuration();
}

/// The message that configures a session has the server find the ends of turns exactly where the
/// hotkey does not, after half a second of silence and with three tenths of a second kept in front.
/// It asks for text alone and never for speech, and says how the audio is: 16-bit samples, 24 000 a
/// second.
pub proof fn lemma_the_session_is_told(c: SessionConfig, threshold: Json, r: Json)
    requires
        call_ensures(session_update, (&c, threshold), r),
    ensures
        text_member(r.tree(), "type"@) == Some("session.update"@),
        session_part(r.tree(), "type"@) == Some(Tree::Text("realtime"@)),
        session_part(r.tree(), "instructions"@) == Some(Tree::Text(c.instructions@)),
        session_part(r.tree(), "output_modalities"@) == Some(
            Tree::List(seq![Tree::Text("text"@)]),
        ),
        member_in(input_part(r.tree(), "format"@), "type"@) == Some(Tree::Text("audio/pcm"@)),
        member_in(input_part(r.tree(), "format"@), "rate"@) == Some(Tree::Int(24_000)),
        member_in(input_part(r.tree(), "noise_reduction"@), "type"@) == Some(
            Tree::Text("near_field"@),
        ),
        ({
            let turns = input_part(r.tree(), "turn_detection"@);
            &&& c.manual ==> turns == Some(Tree::Null)
            &&& !c.manual ==> member_in(turns, "type"@) == Some(Tree::Text("server_vad"@))
                && member_in(turns, "threshold"@) == Some(threshold.tree()) && member_in(
                turns,
                "prefix_padding_ms"@,
            ) == Some(Tree::Int(300)) && member_in(turns, "silence_duration_ms"@) == Some(
                Tree::Int(500),
            )
        }),
{
    lemma_names_in_a_configuration();
}

/// What the user has picked reaches the configuration: the model, the language, and who decides
/// about turns, by default the hotkey.
pub proof fn lemma_the_settings_reach_the_session(
    model: &str,
    language: Language,
    c: SessionConfig,
    threshold: Json,
    r: Json,
)
    requires
        call_ensures(
            SessionConfig::choose_from,
            (None::<&str>, model, None::<&str>, None::<&str>, language, None::<&str>),
            c,
        ),
        call_ensures(session_update, (&c, threshold), r),
    ensures
        ({
            let told = input_part(r.tree(), "transcription"@);
            &&& member_in(told, "model"@) == Some(
                Tree::Text(
                    if trimmed(model@).len() > 0 {
                        trimmed(model@)
                    } else {
                        "gpt-realtime-whisper"@
                    },
                ),
            )
            &&& member_in(told, "language"@) == (match language {
                Language::Auto => None,
                Language::Korean => Some(Tree::Text("ko"@)),
                Language::English => Some(Tree::Text("en"@)),
            })
            &&& input_part(r.tree(), "turn_detection"@) == Some(Tree::Null)
        }),
{
    lemma_names_in_a_configuration();
}

/// Audio for the input buffer.
pub open spec fn append_tree(pcm: Seq<u8>) -> Tree {
    bare().plus("type"@, Tree::Text("input_audio_buffer.append"@)).plus(
        "audio"@,
        Tree::Text(encoding::base64(pcm)),
    )
}

/// The message that commits the input buffer.
pub open spec fn commit_tree() -> Tree {
    bare().plus("type"@, Tree::Text("input_audio_buffer.commit"@))
}

/// The message that asks the session model for a text.
pub open spec fn response_tree(instructions: Seq<char>) -> Tree {
    bare().plus("type"@, Tree::Text("response.create"@)).plus(
        "response"@,
        bare().plus("instructions"@, Tree::Text(instructions)).plus(
            "output_modalities"@,
            Tree::List(seq![Tree::Text("text"@)]),
        ),
    )
}

/// The message that puts a task and a text before the session model.
pub open spec fn item_tree(instructions: Seq<char>, text: Seq<char>) -> Tree {
    let content = bare().plus("type"@, Tree::Text("input_text"@)).plus(
        "text"@,
        Tree::Text(instructions + "\n\n---\n"@ + text),
    );
    let item = bare().plus("type"@, Tree::Text("message"@)).plus(
        "role"@,
        Tree::Text("user"@),
    ).plus("content"@, Tree::List(seq![content]));
    bare().plus("type"@, Tree::Text("conversation.item.create"@)).plus("item"@, item)
}

/// What is said of a session that has ended.
pub open spec fn session_closed() -> Fault {
    Fault::Disconnected("session closed"@)
}

fn closed() -> (r: RpcError)
    ensures
        r@ == session_closed(),
{
    RpcError::Disconnected(text::copy("session closed"))
}

/// The message that sends captured audio, while the session lives.
pub fn append_pcm(alive: bool, pcm: &[u8]) -> (r: Result<Json, RpcError>)
    requires
        pcm@.len() <= usize::MAX / 4,
    ensures
        r is Ok <==> alive,
        r matches Ok(m) ==> m.tree() == append_tree(pcm@),
        r matches Err(e) ==> e@ == session_closed(),
{
    if !alive {
        return Err(closed());
    }
    Ok(
        Json::object().with("type", Json::text("input_audio_buffer.append")).with(
            "audio",
            Json::text(encoding::encode_base64(pcm).as_str()),
        ),
    )
}

fn response_create(instructions: &str) -> (r: Json)
    ensures
        r.tree() == response_tree(instructions@),
{
    Json::object().with("type", Json::text("response.create")).with(
        "response",
        Json::object().with("instructions", Json::text(instructions)).with(
            "output_modalities",
            Json::one(Json::text("text")),
        ),
    )
}

/// The two messages that have the session model rework a text, while the session lives. The task
/// stands in the first too: the session's standing orders outrank the second's.
pub fn refine_text(alive: bool, text: &str, instructions: &str) -> (r: Result<
    (Json, Json),
    RpcError,
>)
    ensures
        r is Ok <==> alive,
        r matches Ok((item, create)) ==> item.tree() == item_tree(instructions@, text@)
            && create.tree() == response_tree(instructions@),
        r matches Err(e) ==> e@ == session_closed(),
{
    if !alive {
        return Err(closed());
    }
    let mut task = text::join(instructions, "\n\n---\n");
    task.append(text);
    let content = Json::object().with("type", Json::text("input_text")).with(
        "text",
        Json::text(task.as_str()),
    );
    let item = Json::object().with("type", Json::text("message")).with(
        "role",
        Json::text("user"),
    ).with("content", Json::one(content));
    Ok(
        (
            Json::object().with("type", Json::text("conversation.item.create")).with("item", item),
            response_create(instructions),
        ),
    )
}

/// The message that has the session model write down the audio it has, while the session lives.
pub fn respond(alive: bool, instructions: &str) -> (r: Result<Json, RpcError>)
    ensures
        r is Ok <==> alive,
        r matches Ok(m) ==> m.tree() == response_tree(instructions@),
        r matches Err(e) ==> e@ == session_closed(),
{
    if !alive {
        return Err(closed());
    }
    Ok(response_create(instructions))
}

/// [`respond`] with the instructions for dictation.
pub fn transcribe_committed_audio(alive: bool, overriding: Option<&str>) -> (r: Result<
    Json,
    RpcError,
>)
    ensures
        r is Ok <==> alive,
        r matches Ok(m) ==> m.tree() == response_tree(
            set_or(setting(overriding), DICTATION_INSTRUCTIONS@),
        ),
        r matches Err(e) ==> e@ == session_closed(),
{
    respond(alive, dictation_instructions(overriding).as_str())
}

/// That many zero bytes.
pub open spec fn zeros(n: nat) -> Seq<u8> {
    Seq::new(n, |i: int| 0u8)
}

/// Digital silence of that many milliseconds.
pub fn silence_pcm(ms: u64) -> (r: Vec<u8>)
    requires
        192 * ms <= usize::MAX,
    ensures
        r@ == zeros((SESSION_SAMPLE_RATE * ms / 1000 * 2) as nat),
        r@.len() <= usize::MAX / 4,
{
    let n: usize = (ms * 24) as usize * 2;
    let mut out: Vec<u8> = Vec::new();
    for i in 0..n
        invariant
            out@ == zeros(i as nat),
    {
        out.push(0u8);
    }
    assert(SESSION_SAMPLE_RATE * ms / 1000 == ms * 24);
    out
}

/// The message that pads the input buffer with silence, while the session lives.
pub fn append_silence(alive: bool, ms: u64) -> (r: Result<Json, RpcError>)
    requires
        192 * ms <= usize::MAX,
    ensures
        r is Ok <==> alive,
        r matches Ok(m) ==> m.tree() == append_tree(
            zeros((SESSION_SAMPLE_RATE * ms / 1000 * 2) as nat),
        ),
        r matches Err(e) ==> e@ == session_closed(),
{
    append_pcm(alive, silence_pcm(ms).as_slice())
}

/// The two messages that end a turn, while the session lives: silence behind the last syllable,
/// and the commit.
pub fn flush_tail(alive: bool, ms: u64) -> (r: Result<(Json, Json), RpcError>)
    requires
        192 * ms <= usize::MAX,
    ensures
        r is Ok <==> alive,
        r matches Ok((pad, commit)) ==> pad.tree() == append_tree(
            zeros((SESSION_SAMPLE_RATE * ms / 1000 * 2) as nat),
        ) && commit.tree() == commit_tree(),
        r matches Err(e) ==> e@ == session_closed(),
{
    match append_silence(alive, ms) {
        Ok(pad) => Ok(
            (pad, Json::object().with("type", Json::text("input_audio_buffer.commit"))),
        ),
        Err(e) => Err(e),
    }
}

/// Audio is sent whole: the message carries the very bytes, in base64, and two recordings that
/// differ are never sent alike.
pub proof fn lemma_audio_is_sent_whole(
    alive: bool,
    a: &[u8],
    b: &[u8],
    sent: Result<Json, RpcError>,
    other: Result<Json, RpcError>,
)
    requires
        call_ensures(append_pcm, (alive, a), sent),
        call_ensures(append_pcm, (alive, b), other),
    ensures
        sent is Ok <==> alive,
        sent matches Ok(m) ==> text_member(m.tree(), "type"@) == Some(
            "input_audio_buffer.append"@,
        ) && text_member(m.tree(), "audio"@) == Some(encoding::base64(a@)),
        alive && sent->Ok_0.tree() == other->Ok_0.tree() ==> a@ == b@,
        sent matches Err(e) ==> e@ == Fault::Disconnected("session closed"@),
{
    lemma_names_in_a_configuration();
    if alive && sent->Ok_0.tree() == other->Ok_0.tree() {
        let x = sent->Ok_0.tree();
        let y = other->Ok_0.tree();
        assert(text_member(x, "audio"@) == Some(encoding::base64(a@)));
        assert(text_member(y, "audio"@) == Some(encoding::base64(b@)));
        encoding::lemma_base64_injective(a@, b@);
    }
}

/// Silence is as long as asked, 48 bytes for each millisecond, and silent throughout. The end of a
/// turn is that silence and then the commit.
pub proof fn lemma_silence_is_as_long_as_asked(
    ms: u64,
    alive: bool,
    pcm: Vec<u8>,
    tail: Result<(Json, Json), RpcError>,
    lead: Result<Json, RpcError>,
)
    requires
        call_ensures(silence_pcm, (ms,), pcm),
        call_ensures(flush_tail, (alive, ms), tail),
        call_ensures(append_silence, (alive, ms), lead),
    ensures
        pcm@.len() == 48 * ms,
        forall|i: int| 0 <= i < pcm@.len() ==> #[trigger] pcm@[i] == 0,
        tail is Ok <==> alive,
        lead is Ok <==> alive,
        tail matches Ok((pad, commit)) ==> text_member(pad.tree(), "type"@) == Some(
            "input_audio_buffer.append"@,
        ) && text_member(pad.tree(), "audio"@) == Some(encoding::base64(pcm@)) && text_member(
            commit.tree(),
            "type"@,
        ) == Some("input_audio_buffer.commit"@),
        lead matches Ok(pad) ==> text_member(pad.tree(), "type"@) == Some(
            "input_audio_buffer.append"@,
        ) && text_member(pad.tree(), "audio"@) == Some(encoding::base64(pcm@)),
{
    lemma_names_in_a_configuration();
    assert(SESSION_SAMPLE_RATE * ms / 1000 * 2 == 48 * ms);
}

/// The session model is asked for text alone, with the instructions given. Where it reworks a text,
/// the instructions and the text are put before it first, as the user's words, with a line between
/// them. Where it writes dictated audio down, the instructions are those for dictation.
pub proof fn lemma_the_session_model_is_asked(
    alive: bool,
    text: &str,
    orders: &str,
    overriding: Option<&str>,
    refined: Result<(Json, Json), RpcError>,
    asked: Result<Json, RpcError>,
    dictated: Result<Json, RpcError>,
)
    requires
        call_ensures(refine_text, (alive, text, orders), refined),
        call_ensures(respond, (alive, orders), asked),
        call_ensures(transcribe_committed_audio, (alive, overriding), dictated),
    ensures
        refined is Ok <==> alive,
        asked is Ok <==> alive,
        dictated is Ok <==> alive,
        asked matches Ok(m) ==> text_member(m.tree(), "type"@) == Some("response.create"@)
            && member_of(m.tree(), "response"@, "instructions"@) == Some(Tree::Text(orders@))
            && member_of(m.tree(), "response"@, "output_modalities"@) == Some(
            Tree::List(seq![Tree::Text("text"@)]),
        ),
        dictated matches Ok(m) ==> member_of(m.tree(), "response"@, "instructions"@) == Some(
            Tree::Text(
                if overriding is Some && trimmed(overriding->Some_0@).len() > 0 {
                    overriding->Some_0@
                } else {
                    DICTATION_INSTRUCTIONS@
                },
            ),
        ),
        refined matches Ok((item, create)) ==> create.tree() == asked->Ok_0.tree() && text_member(
            item.tree(),
            "type"@,
        ) == Some("conversation.item.create"@) && member_of(item.tree(), "item"@, "role"@) == Some(
            Tree::Text("user"@),
        ) && member_in(zeroth(member_of(item.tree(), "item"@, "content"@)), "text"@) == Some(
            Tree::Text(orders@ + "\n\n---\n"@ + text@),
        ),
{
    lemma_names_in_a_configuration();
    reveal_strlit("response");
    reveal_strlit("item");
    reveal_strlit("role");
    reveal_strlit("content");
    reveal_strlit("text");
    assert("response"@.len() == 8 && "item"@[0] == 'i' && "role"@[0] == 'r' && "content"@.len()
        == 7 && "text"@[1] == 'e' && "type"@[1] == 'y') by {
        reveal_strlit("type");
    }
    assert("type"@[0] == 't') by {
        reveal_strlit("type");
    }
}

// ---------------------------------------------------------------------------------------------
// What comes
// ---------------------------------------------------------------------------------------------

/// Something the session has to say to whoever listens.
#[derive(Debug, Clone)]
pub struct Notification {
    pub method: String,
    pub params: Json,
}

/// What a session was opened with.
#[derive(Debug, Clone, PartialEq, Eq)]
pub struct ConnectInfo {
    pub call_id: String,
    pub account_id: String,
    pub auth_mode: String,
}

/// What is done about an event of the server.
#[derive(Debug)]
pub struct Reaction {
    /// The session's identity, for whoever waits for it.
    pub session_id: Option<String>,
    /// A message to the server.
    pub send: Option<Json>,
    /// A notification to those who listen.
    pub notify: Option<Notification>,
    /// A name and a payload for the user interface.
    pub emit: Option<(String, Json)>,
}

/// [`Reaction`] with its texts as sequences of characters.
pub struct Response {
    pub session_id: Option<Seq<char>>,
    pub send: Option<Tree>,
    pub notify: Option<(Seq<char>, Tree)>,
    pub emit: Option<(Seq<char>, Tree)>,
}

impl View for Reaction {
    type V = Response;

    open spec fn view(&self) -> Response {
        Response {
            session_id: match self.session_id {
                Some(s) => Some(s@),
                None => None,
            },
            send: match self.send {
                Some(j) => Some(j.tree()),
                None => None,
            },
            notify: match self.notify {
                Some(n) => Some((n.method@, n.params.tree())),
                None => None,
            },
            emit: match self.emit {
                Some((name, payload)) => Some((name@, payload.tree())),
                None => None,
            },
        }
    }
}

/// Nothing is done.
pub open spec fn no_response() -> Response {
    Response { session_id: None, send: None, notify: None, emit: None }
}

/// Those who listen are told.
pub open spec fn notified(method: Seq<char>, params: Tree) -> Response {
    Response { notify: Some((method, params)), ..no_response() }
}

/// Those who listen and the user interface are told.
pub open spec fn announced(method: Seq<char>, name: Seq<char>, params: Tree) -> Response {
    Response { notify: Some((method, params)), emit: Some((name, params)), ..no_response() }
}

/// What an error event says.
pub open spec fn error_message(event: Tree) -> Seq<char> {
    match text_in(member_of(event, "error"@, "message"@)) {
        Some(m) => m,
        None => "unknown realtime error"@,
    }
}

/// The error is a race that does no harm.
pub open spec fn is_benign(message: Seq<char>) -> bool {
    occurs(message, "buffer too small"@) || occurs(message, "buffer is empty"@)
}

/// What is done about an event of that kind.
pub open spec fn response_to(
    kind: Seq<char>,
    event: Tree,
    c: SessionConfig,
    threshold: Tree,
    id_wanted: bool,
) -> Response {
    if kind == "session.created"@ {
        Response {
            session_id: if id_wanted {
                Some(auth::or_empty(text_in(member_of(event, "session"@, "id"@))))
            } else {
                None
            },
            send: Some(session_update_tree(c, threshold)),
            ..no_response()
        }
    } else if kind == "session.updated"@ {
        announced("thread/realtime/started"@, "realtime://started"@, event)
    } else if kind == "conversation.item.input_audio_transcription.delta"@ {
        match text_member(event, "delta"@) {
            Some(d) => announced(
                "thread/realtime/transcript/delta"@,
                "realtime://transcript-delta"@,
                bare().plus("delta"@, Tree::Text(d)).plus("role"@, Tree::Text("user"@)),
            ),
            None => no_response(),
        }
    } else if kind == "conversation.item.input_audio_transcription.completed"@ {
        announced(
            "thread/realtime/transcript/done"@,
            "realtime://transcript-done"@,
            bare().plus(
                "text"@,
                Tree::Text(auth::or_empty(text_member(event, "transcript"@))),
            ),
        )
    } else if kind == "response.output_text.delta"@ || kind == "response.text.delta"@ {
        match text_member(event, "delta"@) {
            Some(d) => notified(
                "thread/realtime/response/delta"@,
                bare().plus("delta"@, Tree::Text(d)),
            ),
            None => no_response(),
        }
    } else if kind == "response.done"@ {
        notified("thread/realtime/response/done"@, event)
    } else if kind == "input_audio_buffer.speech_started"@ {
        announced("thread/realtime/speech/started"@, "realtime://speech-started"@, event)
    } else if kind == "input_audio_buffer.speech_stopped"@ {
        Response { emit: Some(("realtime://speech-stopped"@, event)), ..no_response() }
    } else if kind == "error"@ {
        if is_benign(error_message(event)) {
            no_response()
        } else {
            announced(
                "thread/realtime/error"@,
                "realtime://error"@,
                bare().plus("message"@, Tree::Text(error_message(event))),
            )
        }
    } else {
        no_response()
    }
}

/// What is done about an event.
pub open spec fn event_response(
    event: Tree,
    c: SessionConfig,
    threshold: Tree,
    id_wanted: bool,
) -> Response {
    match text_member(event, "type"@) {
        Some(kind) => response_to(kind, event, c, threshold, id_wanted),
        None => no_response(),
    }
}

/// The threshold for speech, as it is written.
pub open spec fn threshold_tree() -> Tree {
    match json_read("0.5"@) {
        Some(t) => t,
        None => Tree::Null,
    }
}

impl Reaction {
    fn none() -> (r: Reaction)
        ensures
            r@ == no_response(),
    {
        Reaction { session_id: None, send: None, notify: None, emit: None }
    }

    fn notify(method: &str, params: Json) -> (r: Reaction)
        ensures
            r@ == notified(method@, params.tree()),
    {
        Reaction {
            session_id: None,
            send: None,
            notify: Some(Notification { method: text::copy(method), params }),
            emit: None,
        }
    }

    fn announce(method: &str, name: &str, params: Json) -> (r: Reaction)
        ensures
            r@ == announced(method@, name@, params.tree()),
    {
        let payload = params.copy();
        Reaction {
            session_id: None,
            send: None,
            notify: Some(Notification { method: text::copy(method), params }),
            emit: Some((text::copy(name), payload)),
        }
    }
}

fn on_created(event: &Json, c: &SessionConfig, threshold: Json, id_wanted: bool) -> (r: Reaction)
    ensures
        r@ == (Response {
            session_id: if id_wanted {
                Some(auth::or_empty(text_in(member_of(event.tree(), "session"@, "id"@))))
            } else {
                None
            },
            send: Some(session_update_tree(*c, threshold.tree())),
            ..no_response()
        }),
{
    let session_id = if id_wanted {
        match event.get_str_in("session", "id") {
            Some(id) => Some(text::copy(id)),
            None => Some(String::new()),
        }
    } else {
        None
    };
    Reaction { session_id, send: Some(session_update(c, threshold)), notify: None, emit: None }
}

fn on_error(event: &Json) -> (r: Reaction)
    ensures
        r@ == (if is_benign(error_message(event.tree())) {
            no_response()
        } else {
            announced(
                "thread/realtime/error"@,
                "realtime://error"@,
                bare().plus("message"@, Tree::Text(error_message(event.tree()))),
            )
        }),
{
    let message = match event.get_str_in("error", "message") {
        Some(m) => m,
        None => "unknown realtime error",
    };
    if text::contains(message, "buffer too small") || text::contains(message, "buffer is empty") {
        return Reaction::none();
    }
    Reaction::announce(
        "thread/realtime/error",
        "realtime://error",
        Json::object().with("message", Json::text(message)),
    )
}

/// What is done about an event that has been read.
pub fn react(event: &Json, c: &SessionConfig, threshold: Json, id_wanted: bool) -> (r: Reaction)
    ensures
        r@ == event_response(event.tree(), *c, threshold.tree(), id_wanted),
{
    let kind = match event.get_str("type") {
        Some(kind) => kind,
        None => return Reaction::none(),
    };
    if text::same(kind, "session.created") {
        on_created(event, c, threshold, id_wanted)
    } else if text::same(kind, "session.updated") {
        Reaction::announce("thread/realtime/started", "realtime://started", event.copy())
    } else if text::same(kind, "conversation.item.input_audio_transcription.delta") {
        match event.get_str("delta") {
            Some(d) => Reaction::announce(
                "thread/realtime/transcript/delta",
                "realtime://transcript-delta",
                Json::object().with("delta", Json::text(d)).with("role", Json::text("user")),
            ),
            None => Reaction::none(),
        }
    } else if text::same(kind, "conversation.item.input_audio_transcription.completed") {
        let transcript = match event.get_str("transcript") {
            Some(t) => Json::text(t),
            None => Json::Text(String::new()),
        };
        Reaction::announce(
            "thread/realtime/transcript/done",
            "realtime://transcript-done",
            Json::object().with("text", transcript),
        )
    } else if text::same(kind, "response.output_text.delta") || text::same(
        kind,
        "response.text.delta",
    ) {
        match event.get_str("delta") {
            Some(d) => Reaction::notify(
                "thread/realtime/response/delta",
                Json::object().with("delta", Json::text(d)),
            ),
            None => Reaction::none(),
        }
    } else if text::same(kind, "response.done") {
        Reaction::notify("thread/realtime/response/done", event.copy())
    } else if text::same(kind, "input_audio_buffer.speech_started") {
        Reaction::announce(
            "thread/realtime/speech/started",
            "realtime://speech-started",
            event.copy(),
        )
    } else if text::same(kind, "input_audio_buffer.speech_stopped") {
        Reaction {
            session_id: None,
            send: None,
            notify: None,
            emit: Some((text::copy("realtime://speech-stopped"), event.copy())),
        }
    } else if text::same(kind, "error") {
        on_error(event)
    } else {
        Reaction::none()
    }
}

/// What is done about a message of the server.
pub fn handle_event(text: &str, c: &SessionConfig, id_wanted: bool) -> (r: Reaction)
    ensures
        r@ == (match json_read(text@) {
            Some(event) => event_response(event, *c, threshold_tree(), id_wanted),
            None => no_response(),
        }),
{
    let event = match Json::read(text) {
        Ok(event) => event,
        Err(_) => return Reaction::none(),
    };
    let threshold = match Json::read("0.5") {
        Ok(t) => t,
        Err(_) => Json::Null,
    };
    react(&event, c, threshold, id_wanted)
}

/// The names of the notifications that a dictation listens for, each differing in length from
/// the others that could be taken for it.
proof fn lemma_methods_differ()
    ensures
        "thread/realtime/started"@.len() == 23,
        "thread/realtime/transcript/delta"@.len() == 32,
        "thread/realtime/transcript/done"@.len() == 31,
        "thread/realtime/response/delta"@.len() == 30,
        "thread/realtime/response/done"@.len() == 29,
        "thread/realtime/speech/started"@.len() == 30,
        "thread/realtime/error"@.len() == 21,
        "thread/realtime/speech/started"@ != "thread/realtime/response/delta"@,
{
    reveal_strlit("thread/realtime/started");
    reveal_strlit("thread/realtime/transcript/delta");
    reveal_strlit("thread/realtime/transcript/done");
    reveal_strlit("thread/realtime/response/delta");
    reveal_strlit("thread/realtime/response/done");
    reveal_strlit("thread/realtime/speech/started");
    reveal_strlit("thread/realtime/error");
    assert("thread/realtime/speech/started"@[16] == 's');
    assert("thread/realtime/response/delta"@[16] == 'r');
}

/// Only the transcription of the user's own audio can change the text of a dictation. What the
/// session model says, and everything else that the server sends, leaves it as it is.
pub proof fn lemma_only_transcription_is_typed(
    kind: Seq<char>,
    event: Tree,
    c: SessionConfig,
    threshold: Tree,
    id_wanted: bool,
    h: dictate::Heard,
    now: u64,
)
    requires
        kind != "conversation.item.input_audio_transcription.delta"@,
        kind != "conversation.item.input_audio_transcription.completed"@,
    ensures
        response_to(kind, event, c, threshold, id_wanted).notify matches Some((method, params))
            ==> ({
            let next = dictate::heard_next(h, dictate::Event { method, params, at: now });
            next.committed == h.committed && next.pending == h.pending && next.turns == h.turns
        }),
{
    lemma_methods_differ();
}

/// A piece of transcription reaches the dictation as it is, and a finished transcription closes
/// its turn.
pub proof fn lemma_transcription_reaches_the_dictation(
    event: Tree,
    c: SessionConfig,
    threshold: Tree,
    id_wanted: bool,
    h: dictate::Heard,
    now: u64,
)
    ensures
        text_member(event, "type"@) == Some("conversation.item.input_audio_transcription.delta"@)
            && text_member(event, "delta"@) is Some ==> (event_response(
            event,
            c,
            threshold,
            id_wanted,
        ).notify matches Some((method, params)) && dictate::heard_next(
            h,
            dictate::Event { method, params, at: now },
        ) == dictate::with_delta(h, text_member(event, "delta"@)->Some_0, now)),
        text_member(event, "type"@) == Some(
            "conversation.item.input_audio_transcription.completed"@,
        ) ==> (event_response(event, c, threshold, id_wanted).notify matches Some((method, params))
            && dictate::heard_next(h, dictate::Event { method, params, at: now })
            == dictate::with_turn(h, auth::or_empty(text_member(event, "transcript"@)), now)),
{
    lemma_methods_differ();
    lemma_kinds_differ();
    reveal_strlit("delta");
    reveal_strlit("role");
    assert("delta"@.len() == 5 && "role"@.len() == 4);
}

proof fn lemma_kinds_differ()
    ensures
        "session.created"@.len() == 15,
        "session.updated"@.len() == 15,
        "session.created"@ != "session.updated"@,
        "conversation.item.input_audio_transcription.delta"@.len() == 49,
        "conversation.item.input_audio_transcription.completed"@.len() == 53,
        "response.output_text.delta"@.len() == 26,
        "response.text.delta"@.len() == 19,
        "response.done"@.len() == 13,
        "input_audio_buffer.speech_started"@.len() == 33,
        "input_audio_buffer.speech_stopped"@.len() == 33,
        "error"@.len() == 5,
{
    reveal_strlit("session.created");
    reveal_strlit("session.updated");
    reveal_strlit("conversation.item.input_audio_transcription.delta");
    reveal_strlit("conversation.item.input_audio_transcription.completed");
    reveal_strlit("response.output_text.delta");
    reveal_strlit("response.text.delta");
    reveal_strlit("response.done");
    reveal_strlit("input_audio_buffer.speech_started");
    reveal_strlit("input_audio_buffer.speech_stopped");
    reveal_strlit("error");
    assert("session.created"@[8] == 'c');
    assert("session.updated"@[8] == 'u');
}

/// A response has one end: nothing but `response.done` is notified as one, and that always is.
pub proof fn lemma_one_end_per_response(
    kind: Seq<char>,
    event: Tree,
    c: SessionConfig,
    threshold: Tree,
    id_wanted: bool,
)
    ensures
        (response_to(kind, event, c, threshold, id_wanted).notify matches Some((method, _))
            && method == "thread/realtime/response/done"@) <==> kind == "response.done"@,
{
    lemma_methods_differ();
    lemma_kinds_differ();
}

/// An error that does no harm reaches nobody, so it ends no recording.
pub proof fn lemma_benign_errors_are_silent(
    event: Tree,
    c: SessionConfig,
    threshold: Tree,
    id_wanted: bool,
)
    requires
        text_member(event, "type"@) == Some("error"@),
        is_benign(error_message(event)),
    ensures
        event_response(event, c, threshold, id_wanted) == no_response(),
{
    lemma_kinds_differ();
}

/// The session is configured whenever the server says that it is created, and nothing else is ever
/// sent in answer to an event.
pub proof fn lemma_configured_when_created(
    kind: Seq<char>,
    event: Tree,
    c: SessionConfig,
    threshold: Tree,
    id_wanted: bool,
)
    ensures
        response_to(kind, event, c, threshold, id_wanted).send == (if kind == "session.created"@ {
            Some(session_update_tree(c, threshold))
        } else {
            None
        }),
        response_to(kind, event, c, threshold, id_wanted).session_id is Some <==> kind
            == "session.created"@ && id_wanted,
{
}

/// Those who listen are told that, and the user interface the same under that name.
pub open spec fn told_both(r: Reaction, method: Seq<char>, name: Seq<char>, params: Tree) -> bool {
    &&& r.notify matches Some(n) && n.method@ == method && n.params.tree() == params
    &&& r.emit matches Some((e, payload)) && e@ == name && payload.tree() == params
}

/// A session that is created is sent its configuration, with the language, the model and the orders
/// given, and its identity goes to whoever waits for it. Nobody else is told.
pub proof fn lemma_a_new_session_is_configured(
    event: Json,
    c: SessionConfig,
    threshold: Json,
    id_wanted: bool,
    r: Reaction,
)
    requires
        call_ensures(react, (&event, &c, threshold, id_wanted), r),
        text_member(event.tree(), "type"@) == Some("session.created"@),
    ensures
        r.notify is None && r.emit is None,
        r.session_id is Some <==> id_wanted,
        r.session_id matches Some(id) ==> (match member_of(event.tree(), "session"@, "id"@) {
            Some(Tree::Text(t)) => id@ == t,
            _ => id@.len() == 0,
        }),
        r.send matches Some(m) && text_member(m.tree(), "type"@) == Some("session.update"@)
            && session_part(m.tree(), "instructions"@) == Some(Tree::Text(c.instructions@))
            && member_in(input_part(m.tree(), "transcription"@), "model"@) == Some(
            Tree::Text(c.model@),
        ) && member_in(input_part(m.tree(), "transcription"@), "language"@) == (match c.language {
            Some(l) => Some(Tree::Text(l@)),
            None => None,
        }) && (input_part(m.tree(), "turn_detection"@) == Some(Tree::Null) <==> c.manual),
{
    lemma_names_in_a_configuration();
    lemma_kinds_differ();
    assert(r@.send == (match r.send {
        Some(j) => Some(j.tree()),
        None => None,
    }));
    assert(r@.session_id == (match r.session_id {
        Some(t) => Some(t@),
        None => None,
    }));
    assert(r@.notify is None && r@.emit is None);
}

/// What every other event becomes. A piece of the user's transcript and a finished transcript are
/// told with their text; the session's readiness, the start of speech and an error that does harm
/// are told too; what the session model writes is told to those who listen alone, and the end of
/// speech to the user interface alone. Nothing is sent, and nothing else is told.
pub proof fn lemma_what_an_event_becomes(
    event: Json,
    c: SessionConfig,
    threshold: Json,
    id_wanted: bool,
    r: Reaction,
    kind: Seq<char>,
)
    requires
        call_ensures(react, (&event, &c, threshold, id_wanted), r),
        text_member(event.tree(), "type"@) == Some(kind),
        kind != "session.created"@,
    ensures
        r.send is None && r.session_id is None,
        kind == "session.updated"@ ==> told_both(
            r,
            "thread/realtime/started"@,
            "realtime://started"@,
            event.tree(),
        ),
        kind == "conversation.item.input_audio_transcription.delta"@ ==> (match text_member(
            event.tree(),
            "delta"@,
        ) {
            Some(d) => r.notify matches Some(n) && text_member(n.params.tree(), "delta"@) == Some(d)
                && text_member(n.params.tree(), "role"@) == Some("user"@) && told_both(
                r,
                "thread/realtime/transcript/delta"@,
                "realtime://transcript-delta"@,
                n.params.tree(),
            ),
            None => r.notify is None && r.emit is None,
        }),
        kind == "conversation.item.input_audio_transcription.completed"@ ==> (r.notify matches Some(
            n,
        ) && text_member(n.params.tree(), "text"@) == Some(
            match text_member(event.tree(), "transcript"@) {
                Some(t) => t,
                None => Seq::empty(),
            },
        ) && told_both(
            r,
            "thread/realtime/transcript/done"@,
            "realtime://transcript-done"@,
            n.params.tree(),
        )),
        kind == "response.output_text.delta"@ || kind == "response.text.delta"@ ==> r.emit is None
            && (match text_member(event.tree(), "delta"@) {
            Some(d) => r.notify matches Some(n) && n.method@ == "thread/realtime/response/delta"@
                && text_member(n.params.tree(), "delta"@) == Some(d),
            None => r.notify is None,
        }),
        kind == "response.done"@ ==> r.emit is None && (r.notify matches Some(n) && n.method@
            == "thread/realtime/response/done"@ && n.params.tree() == event.tree()),
        kind == "input_audio_buffer.speech_started"@ ==> told_both(
            r,
            "thread/realtime/speech/started"@,
            "realtime://speech-started"@,
            event.tree(),
        ),
        kind == "input_audio_buffer.speech_stopped"@ ==> r.notify is None && (r.emit matches Some(
            (name, payload),
        ) && name@ == "realtime://speech-stopped"@ && payload.tree() == event.tree()),
        kind != "session.updated"@ && kind != "conversation.item.input_audio_transcription.delta"@
            && kind != "conversation.item.input_audio_transcription.completed"@ && kind
            != "response.output_text.delta"@ && kind != "response.text.delta"@ && kind
            != "response.done"@ && kind != "input_audio_buffer.speech_started"@ && kind
            != "input_audio_buffer.speech_stopped"@ && kind != "error"@ ==> r.notify is None
            && r.emit is None,
{
    lemma_kinds_differ();
    reveal_strlit("delta");
    reveal_strlit("role");
    assert("delta"@.len() == 5 && "role"@.len() == 4);
    reveal_strlit("input_audio_buffer.speech_started");
    reveal_strlit("input_audio_buffer.speech_stopped");
    assert("input_audio_buffer.speech_started"@[29] == 'r'
        && "input_audio_buffer.speech_stopped"@[29] == 'p');
    lemma_reaction_by_parts(r);
}

proof fn lemma_reaction_by_parts(r: Reaction)
    ensures
        r@.session_id is Some <==> r.session_id is Some,
        r@.send is Some <==> r.send is Some,
        r@.notify is Some <==> r.notify is Some,
        r.notify matches Some(n) ==> r@.notify == Some((n.method@, n.params.tree())),
        r@.emit is Some <==> r.emit is Some,
        r.emit matches Some((name, payload)) ==> r@.emit == Some((name@, payload.tree())),
{
}

/// An error is told with the server's own words, or with some where it has none, unless these speak
/// of a buffer that is too small or empty: that does no harm and is told to nobody.
pub proof fn lemma_errors_that_do_harm_are_told(
    event: Json,
    c: SessionConfig,
    threshold: Json,
    id_wanted: bool,
    r: Reaction,
    words: Seq<char>,
)
    requires
        call_ensures(react, (&event, &c, threshold, id_wanted), r),
        text_member(event.tree(), "type"@) == Some("error"@),
        words == (match member_of(event.tree(), "error"@, "message"@) {
            Some(Tree::Text(m)) => m,
            _ => "unknown realtime error"@,
        }),
    ensures
        r.send is None && r.session_id is None,
        occurs(words, "buffer too small"@) || occurs(words, "buffer is empty"@) ==> r.notify is None
            && r.emit is None,
        !occurs(words, "buffer too small"@) && !occurs(words, "buffer is empty"@) ==> (
        r.notify matches Some(n) && text_member(n.params.tree(), "message"@) == Some(words)
            && told_both(
            r,
            "thread/realtime/error"@,
            "realtime://error"@,
            n.params.tree(),
        )),
{
    lemma_kinds_differ();
    lemma_reaction_by_parts(r);
}

/// A message that is no document, or has no type, or one that is not known, is passed over.
pub proof fn lemma_other_messages_are_passed_over(
    text: &str,
    c: SessionConfig,
    id_wanted: bool,
    r: Reaction,
)
    requires
        call_ensures(handle_event, (text, &c, id_wanted), r),
        json_read(text@) matches Some(t) ==> text_member(t, "type"@) is None,
    ensures
        r.send is None && r.session_id is None && r.notify is None && r.emit is None,
{
    lemma_reaction_by_parts(r);
}

/// A message of the server is handled as the document that it is, and the threshold for speech is
/// the one number that is written so.
pub proof fn lemma_a_message_is_its_document(
    text: &str,
    event: Json,
    c: SessionConfig,
    threshold: Json,
    id_wanted: bool,
    handled: Reaction,
    reacted: Reaction,
)
    requires
        call_ensures(handle_event, (text, &c, id_wanted), handled),
        json_read(text@) == Some(event.tree()),
        json_read("0.5"@) == Some(threshold.tree()),
        call_ensures(react, (&event, &c, threshold, id_wanted), reacted),
    ensures
        handled@ == reacted@,
{
}

/// From the server to the cursor: what the server transcribes of the user's speech is what a
/// dictation hears, piece by piece and turn by turn, and the start of speech opens a turn in it.
pub proof fn lemma_from_the_server_to_the_dictation(
    event: Json,
    c: SessionConfig,
    threshold: Json,
    id_wanted: bool,
    r: Reaction,
    i: &mut dictate::Incoming,
    n: Notification,
    now: u64,
)
    requires
        call_ensures(react, (&event, &c, threshold, id_wanted), r),
        r.notify == Some(n),
        call_ensures(dictate::Incoming::observe, (i, &n, now), ()),
    ensures
        text_member(event.tree(), "type"@) == Some(
            "conversation.item.input_audio_transcription.delta"@,
        ) ==> final(i).pending@ == old(i).pending@ + text_member(event.tree(), "delta"@)->Some_0
            && final(i).committed@ == old(i).committed@ && final(i).last == Some(now),
        text_member(event.tree(), "type"@) == Some(
            "conversation.item.input_audio_transcription.completed"@,
        ) ==> final(i).pending@.len() == 0 && !final(i).speech_open && final(i).turns > 0
            && final(i).last == Some(now) && (text_member(event.tree(), "transcript"@) matches Some(
            t,
        ) ==> (
        old(i).committed@.len() == 0 ==> final(i).committed@ == trimmed(t))),
        text_member(event.tree(), "type"@) == Some("input_audio_buffer.speech_started"@)
            ==> final(i).speech_open && final(i).committed@ == old(i).committed@ && final(i).pending@
            == old(i).pending@ && final(i).last == old(i).last,
{
    lemma_kinds_differ();
    lemma_methods_differ();
    lemma_reaction_by_parts(r);
    reveal_strlit("delta");
    reveal_strlit("role");
    assert("delta"@.len() == 5 && "role"@.len() == 4);
    assert(final(i)@.pending == final(i).pending@ && old(i)@.pending == old(i).pending@);
    assert(final(i)@.committed == final(i).committed@ && old(i)@.committed == old(i).committed@);
}

// ---------------------------------------------------------------------------------------------
// A reply of the session model
// ---------------------------------------------------------------------------------------------

/// Collects a reply of the session model.
#[derive(Debug, Clone)]
pub struct Collector {
    pub out: String,
    /// The time allowed, in milliseconds.
    pub budget: u64,
    pub deadline: u64,
}

/// A reply, or why there is none.
pub enum Reply {
    Text(Seq<char>),
    Error(Fault),
}

pub open spec fn reply_of(r: Result<String, RpcError>) -> Reply {
    match r {
        Ok(s) => Reply::Text(s@),
        Err(e) => Reply::Error(e@),
    }
}

/// The text in the last event of a reply, for a reply that came without pieces.
pub open spec fn whole_reply(event: Tree) -> Option<Seq<char>> {
    let output = member_in(member(event, "response"@), "output"@);
    text_in(member_in(zeroth(member_in(zeroth(output), "content"@)), "text"@))
}

/// What is collected after a notification, and the reply where it is the end of one.
pub open spec fn collected(out: Seq<char>, method: Seq<char>, params: Tree) -> (
    Seq<char>,
    Option<Reply>,
) {
    if method == "thread/realtime/response/delta"@ {
        match text_member(params, "delta"@) {
            Some(d) => (out + d, None),
            None => (out, None),
        }
    } else if method == "thread/realtime/response/done"@ {
        let all = if trimmed(out).len() == 0 {
            out + auth::or_empty(whole_reply(params))
        } else {
            out
        };
        (all, Some(Reply::Text(all)))
    } else if method == "thread/realtime/error"@ {
        let message = match text_member(params, "message"@) {
            Some(m) => m,
            None => "response failed"@,
        };
        (out, Some(Reply::Error(Fault::Disconnected(message))))
    } else {
        (out, None)
    }
}

/// What is collected after pieces of a reply.
pub open spec fn collected_pieces(out: Seq<char>, pieces: Seq<Seq<char>>) -> Seq<char>
    decreases pieces.len(),
{
    if pieces.len() == 0 {
        out
    } else {
        collected(
            collected_pieces(out, pieces.drop_last()),
            "thread/realtime/response/delta"@,
            bare().plus("delta"@, Tree::Text(pieces.last())),
        ).0
    }
}

/// A reply is its pieces one after another, and a reply that came in pieces is not taken a second
/// time from its end.
pub proof fn lemma_reply_is_its_pieces(pieces: Seq<Seq<char>>, end: Tree)
    ensures
        collected_pieces(Seq::empty(), pieces) == pieces.flatten(),
        trimmed(pieces.flatten()).len() > 0 ==> collected(
            pieces.flatten(),
            "thread/realtime/response/done"@,
            end,
        ).1 == Some(Reply::Text(pieces.flatten())),
    decreases pieces.len(),
{
    lemma_methods_differ();
    if pieces.len() == 0 {
        assert(pieces.flatten() =~= Seq::empty());
    } else {
        lemma_reply_is_its_pieces(pieces.drop_last(), end);
        pieces.lemma_flatten_and_flatten_alt_are_equivalent();
        pieces.drop_last().lemma_flatten_and_flatten_alt_are_equivalent();
    }
}

fn find_whole_reply(event: &Json) -> (r: Option<&str>)
    ensures
        setting(r) == whole_reply(event.tree()),
{
    let response = match event.get("response") {
        Some(j) => j,
        None => return None,
    };
    let output = match response.get("output") {
        Some(j) => j,
        None => return None,
    };
    let first = match output.zeroth() {
        Some(j) => j,
        None => return None,
    };
    let content = match first.get("content") {
        Some(j) => j,
        None => return None,
    };
    match content.zeroth() {
        Some(j) => j.get_str("text"),
        None => None,
    }
}

impl Collector {
    /// Nothing collected, and the whole budget left.
    pub fn new(now: u64, budget: u64) -> (r: Collector)
        ensures
            r.out@.len() == 0,
            r.budget == budget,
            r.deadline == (if now + budget <= u64::MAX {
                now + budget
            } else {
                u64::MAX as int
            }),
    {
        Collector { out: String::new(), budget, deadline: now.saturating_add(budget) }
    }

    /// The time left to wait for the next notification, or the error where there is none.
    pub fn remaining(&self, now: u64) -> (r: Result<u64, RpcError>)
        ensures
            r is Ok <==> now < self.deadline,
            r matches Ok(ms) ==> ms == self.deadline - now,
            r matches Err(e) ==> e@ == Fault::Timeout(self.budget),
    {
        let left: u64 = self.deadline.saturating_sub(now);
        if left == 0 {
            return Err(RpcError::Timeout(self.budget));
        }
        Ok(left)
    }

    /// What is said where the notifications end.
    pub fn ended(&self) -> (r: RpcError)
        ensures
            r@ == Fault::Disconnected("event stream ended"@),
    {
        RpcError::Disconnected(text::copy("event stream ended"))
    }

    /// Takes in a notification. The result is the reply where this is the end of one.
    pub fn collect_response(&mut self, n: &Notification) -> (r: Option<Result<String, RpcError>>)
        ensures
            final(self).out@ == collected(old(self).out@, n.method@, n.params.tree()).0,
            (match r {
                Some(reply) => Some(reply_of(reply)),
                None => None,
            }) == collected(old(self).out@, n.method@, n.params.tree()).1,
            final(self).budget == old(self).budget,
            final(self).deadline == old(self).deadline,
    {
        let method = n.method.as_str();
        if text::same(method, "thread/realtime/response/delta") {
            if let Some(d) = n.params.get_str("delta") {
                self.out.append(d);
            }
            None
        } else if text::same(method, "thread/realtime/response/done") {
            if text::is_blank(self.out.as_str()) {
                match find_whole_reply(&n.params) {
                    Some(t) => self.out.append(t),
                    None => {
                        assert(self.out@ + Seq::<char>::empty() =~= self.out@);
                    },
                }
            }
            Some(Ok(text::copy(self.out.as_str())))
        } else if text::same(method, "thread/realtime/error") {
            let message = match n.params.get_str("message") {
                Some(m) => m,
                None => "response failed",
            };
            Some(Err(RpcError::Disconnected(text::copy(message))))
        } else {
            None
        }
    }
}

/// A reply is put together from its pieces and ends once. Where no piece said anything, it is the
/// text in the event that ends it. An error ends it with the words of the error. Nothing else that
/// is notified has a part in it.
pub proof fn lemma_how_a_reply_is_collected(
    k: &mut Collector,
    n: Notification,
    r: Option<Result<String, RpcError>>,
)
    requires
        call_ensures(Collector::collect_response, (k, &n), r),
    ensures
        r is Some <==> n.method@ == "thread/realtime/response/done"@ || n.method@
            == "thread/realtime/error"@,
        n.method@ == "thread/realtime/response/delta"@ ==> final(k).out@ == (match text_member(
            n.params.tree(),
            "delta"@,
        ) {
            Some(d) => old(k).out@ + d,
            None => old(k).out@,
        }),
        n.method@ == "thread/realtime/response/done"@ ==> (r matches Some(Ok(reply)) && reply@
            == final(k).out@),
        n.method@ == "thread/realtime/response/done"@ && trimmed(old(k).out@).len() > 0
            ==> final(k).out@ == old(k).out@,
        n.method@ == "thread/realtime/error"@ ==> (r matches Some(Err(e)) && e@
            == Fault::Disconnected(
            match text_member(n.params.tree(), "message"@) {
                Some(m) => m,
                None => "response failed"@,
            },
        )),
        n.method@ != "thread/realtime/response/delta"@ && n.method@
            != "thread/realtime/response/done"@ ==> final(k).out@ == old(k).out@,
        final(k).budget == old(k).budget && final(k).deadline == old(k).deadline,
{
    lemma_methods_differ();
    if n.method@ == "thread/realtime/response/delta"@ {
        assert(r is None);
    }
    if n.method@ == "thread/realtime/response/done"@ {
        assert(r is Some && reply_of(r->Some_0) is Text);
        assert(r->Some_0 is Ok);
    }
    if n.method@ == "thread/realtime/error"@ {
        assert(r is Some && reply_of(r->Some_0) is Error);
        assert(r->Some_0 is Err);
    }
}

/// A reply without pieces is the text of the first content of the first output in the event that
/// ends it.
pub proof fn lemma_a_reply_in_one(
    k: &mut Collector,
    n: Notification,
    said: Seq<char>,
    r: Option<Result<String, RpcError>>,
)
    requires
        call_ensures(Collector::collect_response, (k, &n), r),
        n.method@ == "thread/realtime/response/done"@,
        old(k).out@.len() == 0,
        n.params.tree() == bare().plus(
            "response"@,
            bare().plus(
                "output"@,
                Tree::List(
                    seq![
                        bare().plus(
                            "content"@,
                            Tree::List(seq![bare().plus("text"@, Tree::Text(said))]),
                        ),
                    ],
                ),
            ),
        ),
    ensures
        r matches Some(Ok(reply)) && reply@ == said,
{
    lemma_methods_differ();
    assert(trimmed(old(k).out@) =~= Seq::<char>::empty());
    assert(old(k).out@ + said =~= said);
    assert(r is Some && reply_of(r->Some_0) is Text);
    assert(r->Some_0 is Ok);
}

/// A reply may take its budget from the start and no longer, and what is left of it shrinks with the
/// time.
pub proof fn lemma_a_reply_has_its_budget(
    k: Collector,
    now: u64,
    budget: u64,
    later: u64,
    r: Result<u64, RpcError>,
)
    requires
        call_ensures(Collector::new, (now, budget), k),
        call_ensures(Collector::remaining, (&k, later), r),
        now + budget <= u64::MAX,
    ensures
        r is Ok <==> later < now + budget,
        r matches Ok(left) ==> later + left == now + budget,
        r matches Err(e) ==> e@ == Fault::Timeout(budget),
        k.out@.len() == 0,
{
}

// ---------------------------------------------------------------------------------------------
// Connecting
// ---------------------------------------------------------------------------------------------

/// An attempt at a connection. There are at most two: where the server refuses the token of the
/// first, the second begins with a forced refresh.
#[derive(Debug)]
pub struct Connecting {
    /// This is the second attempt.
    pub forced: bool,
    /// The first error that the server reported.
    pub first_error: Option<String>,
    /// The account whose token is in use.
    pub account_id: String,
}

/// What happened in an attempt.
#[derive(Debug)]
pub enum ConnectEvent {
    Tokens(OAuthTokens),
    TokensFailed(String),
    /// The request could not be put together, for the reason given.
    BadRequest(String),
    Opened,
    OpenTimedOut,
    OpenFailed(String),
    SessionId(String),
    IdTimedOut,
    ClosedBeforeId,
}

/// What the request for a connection holds.
#[derive(Debug, Clone, PartialEq, Eq)]
pub struct ConnectRequest {
    pub url: String,
    pub authorization: String,
    pub account_id: String,
    pub originator: &'static str,
}

/// What is to be done next.
#[derive(Debug)]
pub enum ConnectAction {
    /// Get the stored token, refreshed where it has expired.
    FetchTokens,
    /// Refresh the token whatever it says: a new attempt.
    ForceRefresh,
    Open(ConnectRequest),
    AwaitSessionId,
    Connected(ConnectInfo),
    GiveUp(RpcError),
}

/// [`ConnectAction`] with its texts as sequences of characters.
pub enum Step {
    FetchTokens,
    ForceRefresh,
    Open { url: Seq<char>, authorization: Seq<char>, account_id: Seq<char>, originator: Seq<char> },
    AwaitSessionId,
    Connected { call_id: Seq<char>, account_id: Seq<char>, auth_mode: Seq<char> },
    GiveUp(Fault),
}

impl View for ConnectAction {
    type V = Step;

    open spec fn view(&self) -> Step {
        match self {
            ConnectAction::FetchTokens => Step::FetchTokens,
            ConnectAction::ForceRefresh => Step::ForceRefresh,
            ConnectAction::Open(r) => Step::Open {
                url: r.url@,
                authorization: r.authorization@,
                account_id: r.account_id@,
                originator: r.originator@,
            },
            ConnectAction::AwaitSessionId => Step::AwaitSessionId,
            ConnectAction::Connected(i) => Step::Connected {
                call_id: i.call_id@,
                account_id: i.account_id@,
                auth_mode: i.auth_mode@,
            },
            ConnectAction::GiveUp(e) => Step::GiveUp(e@),
        }
    }
}

/// The error that an event is, if it is one.
pub open spec fn connect_fault(e: ConnectEvent) -> Option<Fault> {
    match e {
        ConnectEvent::TokensFailed(m) => Some(Fault::Disconnected(m@)),
        ConnectEvent::BadRequest(m) => Some(Fault::Spawn(m@)),
        ConnectEvent::OpenTimedOut => Some(Fault::Timeout(CONNECT_TIMEOUT)),
        ConnectEvent::OpenFailed(m) => Some(Fault::Disconnected("ws connect: "@ + m@)),
        ConnectEvent::IdTimedOut => Some(Fault::Timeout(CONNECT_TIMEOUT)),
        ConnectEvent::ClosedBeforeId => Some(
            Fault::Disconnected("ws closed before session.created"@),
        ),
        _ => None,
    }
}

/// [`Connecting`] with its texts as sequences of characters.
pub struct Attempt {
    pub forced: bool,
    pub first_error: Option<Seq<char>>,
    pub account_id: Seq<char>,
}

impl View for Connecting {
    type V = Attempt;

    open spec fn view(&self) -> Attempt {
        Attempt {
            forced: self.forced,
            first_error: match self.first_error {
                Some(m) => Some(m@),
                None => None,
            },
            account_id: self.account_id@,
        }
    }
}

/// The attempt that begins with or without a forced refresh.
pub open spec fn attempt(forced: bool) -> Attempt {
    Attempt { forced, first_error: None, account_id: Seq::empty() }
}

/// The server refused the token of a first attempt.
pub open spec fn refused(a: Attempt) -> bool {
    !a.forced && (a.first_error matches Some(m) && auth::rejects_token(m))
}

/// The attempt after an event, and what is to be done next.
pub open spec fn connect_next(a: Attempt, e: ConnectEvent, url: Seq<char>) -> (Attempt, Step) {
    match (connect_fault(e), e) {
        (Some(fault), _) => if refused(a) {
            (attempt(true), Step::ForceRefresh)
        } else {
            (a, Step::GiveUp(fault))
        },
        (None, ConnectEvent::Tokens(t)) => (
            Attempt { account_id: t.account_id@, ..a },
            Step::Open {
                url,
                authorization: "Bearer "@ + t.access_token@,
                account_id: t.account_id@,
                originator: "codex_chatgpt_desktop"@,
            },
        ),
        (None, ConnectEvent::SessionId(id)) => (
            a,
            Step::Connected {
                call_id: id@,
                account_id: a.account_id,
                auth_mode: "chatgpt-oauth-ws"@,
            },
        ),
        (None, _) => (a, Step::AwaitSessionId),
    }
}

/// The attempt after the user interface was told something: the first error is kept.
pub open spec fn emit_next(a: Attempt, name: Seq<char>, payload: Tree) -> Attempt {
    if name == "realtime://error"@ && a.first_error is None {
        Attempt { first_error: text_member(payload, "message"@), ..a }
    } else {
        a
    }
}

impl Connecting {
    /// The first attempt.
    pub fn begin() -> (r: (Connecting, ConnectAction))
        ensures
            r.0@ == attempt(false),
            r.1@ == Step::FetchTokens,
    {
        (
            Connecting { forced: false, first_error: None, account_id: String::new() },
            ConnectAction::FetchTokens,
        )
    }

    /// Takes note of what the session tells the user interface. The result says whether it is
    /// passed on: of a session opened in a first attempt, errors are not, for as long as it lives.
    /// The first of them is kept here, as a second attempt may follow.
    pub fn on_emit(&mut self, name: &str, payload: &Json) -> (r: bool)
        ensures
            r == (name@ != "realtime://error"@ || old(self).forced),
            final(self)@ == emit_next(old(self)@, name@, payload.tree()),
    {
        if !text::same(name, "realtime://error") {
            return true;
        }
        if let Some(m) = payload.get_str("message") {
            if self.first_error.is_none() {
                self.first_error = Some(text::copy(m));
            }
        }
        self.forced
    }

    fn fail(&mut self, error: RpcError) -> (r: ConnectAction)
        ensures
            (final(self)@, r@) == (if refused(old(self)@) {
                (attempt(true), Step::ForceRefresh)
            } else {
                (old(self)@, Step::GiveUp(error@))
            }),
    {
        let refused = if self.forced {
            false
        } else {
            match &self.first_error {
                Some(m) => auth::is_auth_rejection(m.as_str()),
                None => false,
            }
        };
        if refused {
            self.forced = true;
            self.first_error = None;
            self.account_id = String::new();
            ConnectAction::ForceRefresh
        } else {
            ConnectAction::GiveUp(error)
        }
    }

    /// What is to be done after an event.
    pub fn connect_once(&mut self, event: ConnectEvent, url: &str) -> (r: ConnectAction)
        ensures
            (final(self)@, r@) == connect_next(old(self)@, event, url@),
    {
        match event {
            ConnectEvent::Tokens(t) => {
                self.account_id = text::copy(t.account_id.as_str());
                ConnectAction::Open(
                    ConnectRequest {
                        url: text::copy(url),
                        authorization: text::join("Bearer ", t.access_token.as_str()),
                        account_id: t.account_id,
                        originator: "codex_chatgpt_desktop",
                    },
                )
            },
            ConnectEvent::TokensFailed(m) => self.fail(RpcError::Disconnected(m)),
            ConnectEvent::BadRequest(m) => self.fail(RpcError::Spawn(m)),
            ConnectEvent::Opened => ConnectAction::AwaitSessionId,
            ConnectEvent::OpenTimedOut => self.fail(RpcError::Timeout(CONNECT_TIMEOUT)),
            ConnectEvent::OpenFailed(m) => self.fail(
                RpcError::Disconnected(text::join("ws connect: ", m.as_str())),
            ),
            ConnectEvent::SessionId(id) => ConnectAction::Connected(
                ConnectInfo {
                    call_id: id,
                    account_id: text::copy(self.account_id.as_str()),
                    auth_mode: text::copy("chatgpt-oauth-ws"),
                },
            ),
            ConnectEvent::IdTimedOut => self.fail(RpcError::Timeout(CONNECT_TIMEOUT)),
            ConnectEvent::ClosedBeforeId => self.fail(
                RpcError::Disconnected(text::copy("ws closed before session.created")),
            ),
        }
    }
}

/// What can happen while a connection comes about.
pub enum ConnectInput {
    Event(ConnectEvent),
    Emit { name: Seq<char>, payload: Tree },
}

/// The attempt after a run of inputs, and how often a refresh was forced.
pub open spec fn attempted(inputs: Seq<ConnectInput>, url: Seq<char>) -> (Attempt, nat)
    decreases inputs.len(),
{
    if inputs.len() == 0 {
        (attempt(false), 0)
    } else {
        let (before, refreshes) = attempted(inputs.drop_last(), url);
        match inputs.last() {
            ConnectInput::Event(e) => {
                let (after, step) = connect_next(before, e, url);
                (
                    after,
                    if step is ForceRefresh {
                        refreshes + 1
                    } else {
                        refreshes
                    },
                )
            },
            ConnectInput::Emit { name, payload } => (emit_next(before, name, payload), refreshes),
        }
    }
}

/// Whatever happens, a refresh is forced at most once, and only the attempt after it counts as
/// the second.
pub proof fn lemma_refreshed_at_most_once(inputs: Seq<ConnectInput>, url: Seq<char>)
    ensures
        attempted(inputs, url).1 == (if attempted(inputs, url).0.forced {
            1nat
        } else {
            0nat
        }),
    decreases inputs.len(),
{
    if inputs.len() > 0 {
        lemma_refreshed_at_most_once(inputs.drop_last(), url);
    }
}

/// A connection that fails without the server having refused the token is given up with the error
/// that it failed with.
pub proof fn lemma_other_failures_are_final(a: Attempt, e: ConnectEvent, url: Seq<char>)
    requires
        connect_fault(e) is Some,
        a.forced || a.first_error is None || !auth::rejects_token(a.first_error->Some_0),
    ensures
        connect_next(a, e, url) == (a, Step::GiveUp(connect_fault(e)->Some_0)),
{
}

/// A token opens the connection as its bearer, under the account that it is of; and a session that
/// comes about is reported with the identity that the server gave it and that same account.
pub proof fn lemma_a_token_opens_the_connection(
    k: &mut Connecting,
    open: &mut Connecting,
    tokens: OAuthTokens,
    id: String,
    url: &str,
    first: ConnectAction,
    last: ConnectAction,
)
    requires
        call_ensures(Connecting::connect_once, (k, ConnectEvent::Tokens(tokens), url), first),
        *old(open) == *final(k),
        call_ensures(Connecting::connect_once, (open, ConnectEvent::SessionId(id), url), last),
    ensures
        first matches ConnectAction::Open(request) && request.url@ == url@ && request.authorization@
            == "Bearer "@ + tokens.access_token@ && request.account_id@ == tokens.account_id@
            && request.originator@ == "codex_chatgpt_desktop"@,
        last matches ConnectAction::Connected(info) && info.call_id@ == id@ && info.account_id@
            == tokens.account_id@ && info.auth_mode@ == "chatgpt-oauth-ws"@,
        final(k).forced == old(k).forced,
        final(open).forced == old(open).forced,
{
    lemma_step_by_parts(first);
    lemma_step_by_parts(last);
    assert(final(k)@.account_id == final(k).account_id@);
    assert(old(open)@.account_id == old(open).account_id@);
    assert(final(k)@.forced == final(k).forced && old(k)@.forced == old(k).forced);
    assert(final(open)@.forced == final(open).forced && old(open)@.forced == old(open).forced);
}

proof fn lemma_step_by_parts(a: ConnectAction)
    ensures
        a@ is FetchTokens <==> a is FetchTokens,
        a@ is ForceRefresh <==> a is ForceRefresh,
        a@ is Open <==> a is Open,
        a@ is AwaitSessionId <==> a is AwaitSessionId,
        a@ is Connected <==> a is Connected,
        a@ is GiveUp <==> a is GiveUp,
{
}

/// An event by which an attempt fails.
pub open spec fn fails(e: ConnectEvent) -> bool {
    e is TokensFailed || e is BadRequest || e is OpenTimedOut || e is OpenFailed || e is IdTimedOut
        || e is ClosedBeforeId
}

/// An attempt that fails is followed by a second, with a token refreshed by force, exactly where it
/// was the first and the first error that the server reported refused the token. Any other failure
/// is final, and is said in its own words.
pub proof fn lemma_when_a_second_attempt_is_made(
    k: &mut Connecting,
    e: ConnectEvent,
    url: &str,
    r: ConnectAction,
)
    requires
        call_ensures(Connecting::connect_once, (k, e, url), r),
        fails(e),
    ensures
        r is ForceRefresh <==> !old(k).forced && (old(k).first_error matches Some(m)
            && auth::rejects_token(m@)),
        r is ForceRefresh ==> final(k).forced && final(k).first_error is None,
        r is ForceRefresh || r is GiveUp,
        r is GiveUp ==> final(k).forced == old(k).forced,
        r matches ConnectAction::GiveUp(fault) ==> (match e {
            ConnectEvent::TokensFailed(m) => fault@ == Fault::Disconnected(m@),
            ConnectEvent::BadRequest(m) => fault@ == Fault::Spawn(m@),
            ConnectEvent::OpenFailed(m) => fault@ == Fault::Disconnected("ws connect: "@ + m@),
            ConnectEvent::ClosedBeforeId => fault@ == Fault::Disconnected(
                "ws closed before session.created"@,
            ),
            _ => fault@ == Fault::Timeout(15_000),
        }),
{
    lemma_step_by_parts(r);
    lemma_attempt_by_parts(*old(k));
    lemma_attempt_by_parts(*final(k));
}

proof fn lemma_attempt_by_parts(k: Connecting)
    ensures
        k@.forced == k.forced,
        k@.first_error is Some <==> k.first_error is Some,
        k.first_error matches Some(m) ==> k@.first_error == Some(m@),
{
}

/// Of the errors that the session tells of the first counts, and later ones do not displace it; what
/// is no error does not count. In a first attempt errors are kept from the user, and everything
/// else is passed on; in a second everything is.
pub proof fn lemma_the_first_error_counts(
    k: &mut Connecting,
    name: &str,
    payload: Json,
    r: bool,
)
    requires
        call_ensures(Connecting::on_emit, (k, name, &payload), r),
    ensures
        r <==> name@ != "realtime://error"@ || old(k).forced,
        old(k).first_error is Some ==> final(k).first_error is Some
            && final(k).first_error->Some_0@ == old(k).first_error->Some_0@,
        name@ != "realtime://error"@ ==> (final(k).first_error is Some
            <==> old(k).first_error is Some),
        name@ == "realtime://error"@ && old(k).first_error is None ==> (match text_member(
            payload.tree(),
            "message"@,
        ) {
            Some(m) => final(k).first_error matches Some(kept) && kept@ == m,
            None => final(k).first_error is None,
        }),
        final(k).forced == old(k).forced,
{
    lemma_attempt_by_parts(*old(k));
    lemma_attempt_by_parts(*final(k));
}

/// A token that the server refuses is refreshed by force once: an error that refuses it, and then a
/// failure, lead to a second attempt, and the same again ends it.
pub proof fn lemma_a_refused_token_is_refreshed_once(
    told: &mut Connecting,
    failed: &mut Connecting,
    again: &mut Connecting,
    ended: &mut Connecting,
    payload: Json,
    e: ConnectEvent,
    url: &str,
    passed: bool,
    passed_again: bool,
    first: ConnectAction,
    last: ConnectAction,
)
    requires
        text_member(payload.tree(), "message"@) matches Some(m) && auth::rejects_token(m),
        fails(e),
        !old(told).forced && old(told).first_error is None,
        call_ensures(Connecting::on_emit, (told, "realtime://error", &payload), passed),
        *old(failed) == *final(told),
        call_ensures(Connecting::connect_once, (failed, e, url), first),
        *old(again) == *final(failed),
        call_ensures(Connecting::on_emit, (again, "realtime://error", &payload), passed_again),
        *old(ended) == *final(again),
        call_ensures(Connecting::connect_once, (ended, e, url), last),
    ensures
        !passed && first is ForceRefresh,
        passed_again && last is GiveUp,
{
    lemma_attempt_by_parts(*old(told));
    lemma_attempt_by_parts(*final(told));
    lemma_attempt_by_parts(*final(failed));
    lemma_attempt_by_parts(*final(again));
    lemma_step_by_parts(first);
    lemma_step_by_parts(last);
}

// ---------------------------------------------------------------------------------------------
// The socket
// ---------------------------------------------------------------------------------------------

/// What happened on the socket or in the queue before it.
#[derive(Debug)]
pub enum IoEvent {
    /// A message is to be sent.
    Outgoing(String),
    /// No more messages will be sent.
    QueueClosed,
    SendFailed,
    /// The server sent a text.
    Text(String),
    /// The server sent something else.
    Other,
    Closed,
    ReadFailed,
}

/// What is done about it.
#[derive(Debug, PartialEq, Eq)]
pub enum IoAction {
    Send(String),
    /// Say goodbye and stop.
    CloseAndStop,
    /// Have the text handled.
    Handle(String),
    Ignore,
    Stop,
}

/// What is done about what happened on the socket.
pub fn io_step(event: IoEvent) -> (r: IoAction)
    ensures
        match event {
            IoEvent::Outgoing(s) => r == IoAction::Send(s),
            IoEvent::QueueClosed => r == IoAction::CloseAndStop,
            IoEvent::Text(s) => r == IoAction::Handle(s),
            IoEvent::Other => r == IoAction::Ignore,
            IoEvent::SendFailed | IoEvent::Closed | IoEvent::ReadFailed => r == IoAction::Stop,
        },
{
    match event {
        IoEvent::Outgoing(s) => IoAction::Send(s),
        IoEvent::QueueClosed => IoAction::CloseAndStop,
        IoEvent::Text(s) => IoAction::Handle(s),
        IoEvent::Other => IoAction::Ignore,
        IoEvent::SendFailed => IoAction::Stop,
        IoEvent::Closed => IoAction::Stop,
        IoEvent::ReadFailed => IoAction::Stop,
    }
}

/// What those who listen are told when the socket is gone. A session that was closed on purpose
/// is alive no longer, and says nothing.
pub fn closing_notification(alive: bool) -> (r: Option<Notification>)
    ensures
        r is Some <==> alive,
        r matches Some(n) ==> n.method@ == "thread/realtime/error"@ && n.params.tree()
            == bare().plus("message"@, Tree::Text("realtime session closed unexpectedly"@)),
{
    if !alive {
        return None;
    }
    Some(
        Notification {
            method: text::copy("thread/realtime/error"),
            params: Json::object().with(
                "message",
                Json::text("realtime session closed unexpectedly"),
            ),
        },
    )
}

/// Every message is sent and every text is handled as it is; the socket is left when the queue in
/// front of it closes, with a goodbye, and when it fails or is closed, without one; and nothing else
/// leaves it.
pub proof fn lemma_when_the_socket_is_left(event: IoEvent, r: IoAction)
    requires
        call_ensures(io_step, (event,), r),
    ensures
        r is Send <==> event is Outgoing,
        r is Handle <==> event is Text,
        r matches IoAction::Send(s) ==> event == IoEvent::Outgoing(s),
        r matches IoAction::Handle(s) ==> event == IoEvent::Text(s),
        r is CloseAndStop <==> event is QueueClosed,
        r is Stop <==> event is SendFailed || event is Closed || event is ReadFailed,
        r is Ignore <==> event is Other,
{
}

/// A session that is lost while it lives is an error to those who listen, and ends the recording
/// that it was for; one that was closed on purpose says nothing.
pub proof fn lemma_a_lost_session_is_an_error(alive: bool, r: Option<Notification>)
    requires
        call_ensures(closing_notification, (alive,), r),
    ensures
        r is Some <==> alive,
        r matches Some(n) ==> n.method@ == "thread/realtime/error"@ && text_member(
            n.params.tree(),
            "message"@,
        ) == Some("realtime session closed unexpectedly"@),
{
}

} // verus!
