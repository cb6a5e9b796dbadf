//! From transcript events to the text that is typed: accumulating, deciding when the transcript
//! has settled, filtering and sanitizing.

use vstd::prelude::*;

use crate::config::InjectionMode;
use crate::json;
use crate::json::{Json, Tree};
use crate::realtime::Notification;
use crate::text;
use crate::text::{is_cc, is_space, is_trimmed, occurs, trimmed};

verus! {

/// How long, in milliseconds, the target application has to release its modifier keys.
pub const MODIFIER_GRACE: u64 = 600;

/// Below this many characters a transcript is discarded where it contains a known hallucination,
/// from it on only where it is one.
pub const SHORT_TRANSCRIPT_CHARS: usize = 80;

// ---------------------------------------------------------------------------------------------
// Sanitizing
// ---------------------------------------------------------------------------------------------

/// The characters that end a line or move the cursor: they act as keys where they are typed.
pub open spec fn is_break(c: char) -> bool {
    ||| c == '\n'
    ||| c == '\r'
    ||| c == '\t'
    ||| c == '\u{0b}'
    ||| c == '\u{0c}'
    ||| c == '\u{85}'
    ||| c == '\u{2028}'
    ||| c == '\u{2029}'
}

/// What is left of one character: a break is a space, another control code is nothing.
pub open spec fn typeable(c: char) -> Option<char> {
    if is_break(c) {
        Some(' ')
    } else if is_cc(c) {
        None
    } else {
        Some(c)
    }
}

/// The text with each character replaced by what is left of it.
pub open spec fn cleaned(s: Seq<char>) -> Seq<char>
    decreases s.len(),
{
    if s.len() == 0 {
        s
    } else {
        match typeable(s.last()) {
            Some(c) => cleaned(s.drop_last()).push(c),
            None => cleaned(s.drop_last()),
        }
    }
}

/// The text with each run of spaces replaced by one space.
pub open spec fn squeezed(s: Seq<char>) -> Seq<char>
    decreases s.len(),
{
    if s.len() == 0 {
        s
    } else {
        let r = squeezed(s.drop_last());
        if s.last() == ' ' && r.len() > 0 && r.last() == ' ' {
            r
        } else {
            r.push(s.last())
        }
    }
}

/// The form in which a text may be typed.
pub open spec fn sanitized(s: Seq<char>) -> Seq<char> {
    trimmed(squeezed(cleaned(s)))
}

/// Nothing in the text acts as a key.
pub open spec fn no_keys(s: Seq<char>) -> bool {
    forall|i: int| 0 <= i < s.len() ==> !is_break(#[trigger] s[i]) && !is_cc(s[i])
}

/// No two spaces stand together.
pub open spec fn single_spaced(s: Seq<char>) -> bool {
    forall|i: int| 0 < i < s.len() ==> !(#[trigger] s[i] == ' ' && s[i - 1] == ' ')
}

/// A text that may be typed as it is.
pub open spec fn is_safe(s: Seq<char>) -> bool {
    no_keys(s) && single_spaced(s) && is_trimmed(s)
}

/// The characters that can be seen: neither white space nor control codes.
pub open spec fn visible(s: Seq<char>) -> Seq<char>
    decreases s.len(),
{
    if s.len() == 0 {
        s
    } else if is_space(s.last()) || is_cc(s.last()) {
        visible(s.drop_last())
    } else {
        visible(s.drop_last()).push(s.last())
    }
}

proof fn lemma_cleaned_no_keys(s: Seq<char>)
    ensures
        no_keys(cleaned(s)),
    decreases s.len(),
{
    if s.len() > 0 {
        lemma_cleaned_no_keys(s.drop_last());
    }
}

proof fn lemma_squeezed(s: Seq<char>)
    ensures
        no_keys(s) ==> no_keys(squeezed(s)),
        single_spaced(squeezed(s)),
    decreases s.len(),
{
    if s.len() > 0 {
        let t = s.drop_last();
        lemma_squeezed(t);
        if no_keys(s) {
            assert(no_keys(t)) by {
                assert forall|i: int| 0 <= i < t.len() implies !is_break(#[trigger] t[i])
                    && !is_cc(t[i]) by {
                    assert(t[i] == s[i]);
                }
            }
            assert(s.last() == s[s.len() - 1]);
        }
    }
}

/// Sanitizing leaves nothing that acts as a key (so no line feed, no carriage return, no tab),
/// no two spaces together, and no white space at the ends.
pub proof fn lemma_sanitized_is_safe(s: Seq<char>)
    ensures
        is_safe(sanitized(s)),
{
    let q = squeezed(cleaned(s));
    lemma_cleaned_no_keys(s);
    lemma_squeezed(cleaned(s));
    text::lemma_trimmed_is_trimmed(q);
    let (a, b) = text::lemma_trimmed_is_a_stretch(q);
    let r = q.subrange(a, b);
    assert forall|i: int| 0 <= i < r.len() implies !is_break(#[trigger] r[i]) && !is_cc(r[i]) by {
        assert(r[i] == q[a + i]);
    }
    assert forall|i: int| 0 < i < r.len() implies !(#[trigger] r[i] == ' ' && r[i - 1]
        == ' ') by {
        assert(r[i] == q[a + i] && r[i - 1] == q[a + i - 1]);
    }
}

proof fn lemma_safe_is_kept(s: Seq<char>)
    requires
        no_keys(s),
        single_spaced(s),
    ensures
        cleaned(s) == s,
        squeezed(s) == s,
    decreases s.len(),
{
    if s.len() > 0 {
        let t = s.drop_last();
        assert forall|i: int| 0 <= i < t.len() implies !is_break(#[trigger] t[i]) && !is_cc(
            t[i],
        ) by {
            assert(t[i] == s[i]);
        }
        assert forall|i: int| 0 < i < t.len() implies !(#[trigger] t[i] == ' ' && t[i - 1]
            == ' ') by {
            assert(t[i] == s[i] && t[i - 1] == s[i - 1]);
        }
        lemma_safe_is_kept(t);
        assert(s.last() == s[s.len() - 1]);
        assert(t.push(s.last()) =~= s);
        if t.len() > 0 {
            assert(t.last() == s[s.len() - 2]);
            assert(!(s[s.len() - 1] == ' ' && s[s.len() - 1 - 1] == ' '));
        }
    }
}

/// A text that may be typed as it is comes out unchanged.
pub proof fn lemma_sanitized_keeps_safe(s: Seq<char>)
    requires
        is_safe(s),
    ensures
        sanitized(s) == s,
{
    lemma_safe_is_kept(s);
    text::lemma_trimmed_keeps(s);
}

/// Sanitizing twice is sanitizing once.
pub proof fn lemma_sanitized_idempotent(s: Seq<char>)
    ensures
        sanitized(sanitized(s)) == sanitized(s),
{
    lemma_sanitized_is_safe(s);
    lemma_sanitized_keeps_safe(sanitized(s));
}

proof fn lemma_visible_cleaned(s: Seq<char>)
    ensures
        visible(cleaned(s)) == visible(s),
    decreases s.len(),
{
    if s.len() > 0 {
        let t = s.drop_last();
        lemma_visible_cleaned(t);
        if let Some(c) = typeable(s.last()) {
            assert(cleaned(s).drop_last() =~= cleaned(t));
        }
    }
}

proof fn lemma_visible_squeezed(s: Seq<char>)
    ensures
        visible(squeezed(s)) == visible(s),
    decreases s.len(),
{
    if s.len() > 0 {
        let t = s.drop_last();
        lemma_visible_squeezed(t);
        let r = squeezed(t);
        if !(s.last() == ' ' && r.len() > 0 && r.last() == ' ') {
            assert(squeezed(s).drop_last() =~= r);
        }
    }
}

proof fn lemma_visible_drop_first(s: Seq<char>)
    requires
        s.len() > 0,
        is_space(s[0]),
    ensures
        visible(s.drop_first()) == visible(s),
    decreases s.len(),
{
    if s.len() == 1 {
        assert(s.last() == s[0]);
        assert(s.drop_last() =~= Seq::empty());
        assert(s.drop_first() =~= Seq::empty());
    } else {
        let t = s.drop_last();
        lemma_visible_drop_first(t);
        assert(s.drop_first().drop_last() =~= t.drop_first());
        assert(s.drop_first().last() == s.last());
    }
}

proof fn lemma_visible_trim_start(s: Seq<char>)
    ensures
        visible(text::trim_start(s)) == visible(s),
    decreases s.len(),
{
    if s.len() > 0 && is_space(s[0]) {
        lemma_visible_trim_start(s.drop_first());
        lemma_visible_drop_first(s);
    }
}

proof fn lemma_visible_trim_end(s: Seq<char>)
    ensures
        visible(text::trim_end(s)) == visible(s),
    decreases s.len(),
{
    if s.len() > 0 && is_space(s.last()) {
        lemma_visible_trim_end(s.drop_last());
    }
}

/// Sanitizing neither loses, adds nor reorders a character that can be seen.
pub proof fn lemma_sanitized_keeps_visible(s: Seq<char>)
    ensures
        visible(sanitized(s)) == visible(s),
{
    let q = squeezed(cleaned(s));
    lemma_visible_cleaned(s);
    lemma_visible_squeezed(cleaned(s));
    lemma_visible_trim_start(q);
    lemma_visible_trim_end(text::trim_start(q));
}

proof fn lemma_cleaned_joins(a: Seq<char>, b: Seq<char>)
    ensures
        cleaned(a + b) == cleaned(a) + cleaned(b),
    decreases b.len(),
{
    if b.len() == 0 {
        assert(a + b =~= a);
        assert(cleaned(a) + cleaned(b) =~= cleaned(a));
    } else {
        assert((a + b).drop_last() =~= a + b.drop_last());
        assert((a + b).last() == b.last());
        lemma_cleaned_joins(a, b.drop_last());
        assert(cleaned(a + b) =~= cleaned(a) + cleaned(b));
    }
}

/// A line break between two texts becomes one space between them.
pub proof fn lemma_line_break_becomes_a_space(a: Seq<char>, c: char, b: Seq<char>)
    requires
        is_safe(a),
        is_safe(b),
        a.len() > 0,
        b.len() > 0,
        is_break(c),
    ensures
        sanitized(a.push(c) + b) == a.push(' ') + b,
{
    let t = a.push(' ') + b;
    assert forall|i: int| 0 <= i < t.len() implies !is_break(#[trigger] t[i]) && !is_cc(t[i]) by {
        if i < a.len() {
            assert(t[i] == a[i]);
        } else if i > a.len() {
            assert(t[i] == b[i - a.len() - 1]);
        }
    }
    assert forall|i: int| 0 < i < t.len() implies !(#[trigger] t[i] == ' ' && t[i - 1]
        == ' ') by {
        if i < a.len() {
            assert(t[i] == a[i] && t[i - 1] == a[i - 1]);
        } else if i == a.len() {
            assert(t[i - 1] == a[a.len() - 1]);
        } else if i == a.len() + 1 {
            assert(t[i] == b[0]);
        } else {
            let j = i - a.len() - 1;
            assert(t[i] == b[j] && t[i - 1] == b[j - 1]);
        }
    }
    assert(t[0] == a[0] && t[t.len() - 1] == b[b.len() - 1]);
    lemma_safe_is_kept(a);
    lemma_safe_is_kept(b);
    lemma_cleaned_joins(a.push(c), b);
    assert(a.push(c).drop_last() =~= a);
    assert(cleaned(a.push(c)) =~= a.push(' '));
    lemma_safe_is_kept(t);
    text::lemma_trimmed_keeps(t);
}

fn is_break_char(c: char) -> (r: bool)
    ensures
        r == is_break(c),
{
    c == '\n' || c == '\r' || c == '\t' || c == '\u{0b}' || c == '\u{0c}' || c == '\u{85}' || c
        == '\u{2028}' || c == '\u{2029}'
}

/// Strips what would act as a key rather than as a character.
pub fn sanitize_for_injection(s: &str) -> (r: String)
    ensures
        r@ == sanitized(s@),
        is_safe(r@),
{
    let v = text::chars_of(s);
    let mut out: Vec<char> = Vec::new();
    assert(v@.take(0) =~= Seq::empty());
    for i in 0..v.len()
        invariant
            v@ == s@,
            out@ == squeezed(cleaned(v@.take(i as int))),
    {
        let c = v[i];
        let ghost t = v@.take(i + 1);
        assert(t.drop_last() =~= v@.take(i as int));
        assert(t.last() == c);
        let broken = is_break_char(c);
        if broken || !text::is_control(c) {
            let m: char = if broken {
                ' '
            } else {
                c
            };
            assert(cleaned(t).drop_last() =~= cleaned(v@.take(i as int)));
            assert(cleaned(t).last() == m);
            let n: usize = out.len();
            if !(m == ' ' && n > 0 && out[n - 1] == ' ') {
                out.push(m);
            }
        }
    }
    assert(v@.take(v@.len() as int) =~= s@);
    proof {
        lemma_sanitized_is_safe(s@);
    }
    let joined = text::string_of(&out);
    text::copy(text::trim(joined.as_str()))
}

/// The characters that stand for a key when they are typed, or for none at all, by their numbers:
/// the control codes, and the two that separate lines and paragraphs.
pub open spec fn unfit_to_type(c: char) -> bool {
    let n = c as int;
    n < 0x20 || 0x7f <= n < 0xa0 || n == 0x2028 || n == 0x2029
}

/// Nothing unfit to type is left of a text, whatever it held; and a text without anything unfit,
/// without two spaces in a row and without padding is typed as it is.
pub proof fn lemma_what_is_typed_is_fit(s: &str, r: String)
    requires
        call_ensures(sanitize_for_injection, (s,), r),
    ensures
        forall|i: int| 0 <= i < r@.len() ==> !unfit_to_type(#[trigger] r@[i]),
        forall|i: int| 0 < i < r@.len() ==> !(#[trigger] r@[i] == ' ' && r@[i - 1] == ' '),
        r@.len() > 0 ==> r@[0] != ' ' && r@.last() != ' ',
        visible(r@) == visible(s@),
        (forall|i: int| 0 <= i < s@.len() ==> !unfit_to_type(#[trigger] s@[i])) && (forall|i: int|
            0 < i < s@.len() ==> !(#[trigger] s@[i] == ' ' && s@[i - 1] == ' ')) && is_trimmed(s@)
            ==> r@ == s@,
{
    lemma_sanitized_keeps_visible(s@);
    assert forall|i: int| 0 <= i < r@.len() implies !unfit_to_type(#[trigger] r@[i]) by {
        assert(!is_break(r@[i]) && !is_cc(r@[i]));
    }
    if (forall|i: int| 0 <= i < s@.len() ==> !unfit_to_type(#[trigger] s@[i])) && (forall|i: int|
        0 < i < s@.len() ==> !(#[trigger] s@[i] == ' ' && s@[i - 1] == ' ')) && is_trimmed(s@) {
        assert forall|i: int| 0 <= i < s@.len() implies !is_break(#[trigger] s@[i]) && !is_cc(
            s@[i],
        ) by {
            assert(!unfit_to_type(s@[i]));
        }
        lemma_sanitized_keeps_safe(s@);
    }
}

/// A line feed, a carriage return, a tab, a vertical tab, a form feed, a next-line and the two
/// separators each become one space between the words that they part; any other control code
/// vanishes between them.
pub proof fn lemma_breaks_part_words(a: Seq<char>, c: char, b: Seq<char>, s: &str, r: String)
    requires
        is_safe(a) && a.len() > 0,
        is_safe(b) && b.len() > 0,
        unfit_to_type(c),
        s@ == a.push(c) + b,
        call_ensures(sanitize_for_injection, (s,), r),
    ensures
        ({
            let n = c as int;
            let parts = 0x09 <= n <= 0x0d || n == 0x85 || n == 0x2028 || n == 0x2029;
            r@ == (if parts {
                a.push(' ') + b
            } else {
                a + b
            })
        }),
{
    let n = c as int;
    if 0x09 <= n <= 0x0d || n == 0x85 || n == 0x2028 || n == 0x2029 {
        assert(is_break(c));
        lemma_line_break_becomes_a_space(a, c, b);
    } else {
        assert(is_cc(c) && !is_break(c));
        lemma_safe_is_kept(a);
        lemma_safe_is_kept(b);
        lemma_cleaned_joins(a.push(c), b);
        assert(a.push(c).drop_last() =~= a);
        assert(cleaned(a.push(c)) =~= a);
        let t = a + b;
        assert forall|i: int| 0 <= i < t.len() implies !is_break(#[trigger] t[i]) && !is_cc(
            t[i],
        ) by {
            if i < a.len() {
                assert(t[i] == a[i]);
            } else {
                assert(t[i] == b[i - a.len()]);
            }
        }
        assert forall|i: int| 0 < i < t.len() implies !(#[trigger] t[i] == ' ' && t[i - 1]
            == ' ') by {
            if i < a.len() {
                assert(t[i] == a[i] && t[i - 1] == a[i - 1]);
            } else if i == a.len() {
                assert(t[i - 1] == a[a.len() - 1]);
            } else {
                let j = i - a.len();
                assert(t[i] == b[j] && t[i - 1] == b[j - 1]);
            }
        }
        assert(t[0] == a[0] && t[t.len() - 1] == b[b.len() - 1]);
        lemma_safe_is_kept(t);
        text::lemma_trimmed_keeps(t);
    }
}

// ---------------------------------------------------------------------------------------------
// Judging a transcript
// ---------------------------------------------------------------------------------------------

/// What committing a dictation came to.
#[derive(Debug, Clone, PartialEq, Eq)]
pub enum Committed {
    /// Sanitized text, to be put at the cursor.
    Typed(String),
    /// Nothing was transcribed.
    Empty,
    /// There was a transcript, and it was rejected as a hallucination.
    Filtered(String),
}

/// [`Committed`] with its text as a sequence of characters.
pub enum Verdict {
    Typed(Seq<char>),
    Empty,
    Filtered(Seq<char>),
}

impl View for Committed {
    type V = Verdict;

    open spec fn view(&self) -> Verdict {
        match self {
            Committed::Typed(s) => Verdict::Typed(s@),
            Committed::Empty => Verdict::Empty,
            Committed::Filtered(s) => Verdict::Filtered(s@),
        }
    }
}

/// The lower-case text is the phrase, or is short and contains it.
pub open spec fn hits(lower: Seq<char>, short: bool, phrase: Seq<char>) -> bool {
    lower == phrase || (short && occurs(lower, phrase))
}

/// The lower-case text matches one of the phrases that transcription makes up out of silence.
pub open spec fn hits_any(lower: Seq<char>, short: bool) -> bool {
    ||| hits(lower, short, "thank you for watching"@)
    ||| hits(lower, short, "thanks for watching"@)
    ||| hits(lower, short, "please subscribe"@)
    ||| hits(lower, short, "don't forget to like"@)
    ||| hits(lower, short, "see you in the next video"@)
    ||| hits(lower, short, "[music]"@)
    ||| hits(lower, short, "[applause]"@)
}

/// The text is, or if short contains, a made-up phrase, in whatever case.
pub open spec fn hallucinated(text: Seq<char>) -> bool {
    let t = trimmed(text);
    t.len() > 0 && hits_any(text::lowercased(t), t.len() < SHORT_TRANSCRIPT_CHARS)
}

/// What is made of a transcript, given whether the hallucination filter is on.
pub open spec fn judged(text: Seq<char>, filter: bool) -> Verdict {
    let t = trimmed(text);
    if t.len() == 0 {
        Verdict::Empty
    } else if filter && hallucinated(t) {
        Verdict::Filtered(t)
    } else if sanitized(t).len() == 0 {
        Verdict::Empty
    } else {
        Verdict::Typed(sanitized(t))
    }
}

fn hit(lower: &str, short: bool, phrase: &str) -> (r: bool)
    ensures
        r == hits(lower@, short, phrase@),
{
    text::same(lower, phrase) || (short && text::contains(lower, phrase))
}

/// Whether text that is in lower case already matches a made-up phrase.
pub fn matches_hallucination(lower: &str, short: bool) -> (r: bool)
    ensures
        r == hits_any(lower@, short),
{
    hit(lower, short, "thank you for watching") || hit(lower, short, "thanks for watching") || hit(
        lower,
        short,
        "please subscribe",
    ) || hit(lower, short, "don't forget to like") || hit(
        lower,
        short,
        "see you in the next video",
    ) || hit(lower, short, "[music]") || hit(lower, short, "[applause]")
}

/// Whether a transcript is one that transcription makes up out of silence.
pub fn is_hallucination(text: &str) -> (r: bool)
    ensures
        r == hallucinated(text@),
{
    let t = text::trim(text);
    let n: usize = t.unicode_len();
    if n == 0 {
        return false;
    }
    let lower = text::to_lowercase(t);
    matches_hallucination(lower.as_str(), n < SHORT_TRANSCRIPT_CHARS)
}

/// Judges a raw transcript: the hallucination filter, then sanitizing. Every transcript goes
/// through here, whichever model produced it.
pub fn classify(text: &str, filter: bool) -> (r: Committed)
    ensures
        r@ == judged(text@, filter),
{
    let t = text::trim(text);
    if t.unicode_len() == 0 {
        return Committed::Empty;
    }
    if filter && is_hallucination(t) {
        return Committed::Filtered(text::copy(t));
    }
    let safe = sanitize_for_injection(t);
    if safe.as_str().unicode_len() == 0 {
        return Committed::Empty;
    }
    Committed::Typed(safe)
}

/// What is typed is never empty and holds nothing that acts as a key: no transcript, from
/// whichever model and with the filter on or off, can press Enter.
pub proof fn lemma_typed_is_safe(text: Seq<char>, filter: bool)
    ensures
        judged(text, filter) matches Verdict::Typed(t) ==> t.len() > 0 && is_safe(t) && !t.contains(
            '\n',
        ) && !t.contains('\r'),
{
    let t = sanitized(trimmed(text));
    lemma_sanitized_is_safe(trimmed(text));
    assert forall|i: int| 0 <= i < t.len() implies t[i] != '\n' && t[i] != '\r' by {
        assert(!is_break(t[i]));
    }
}

/// With the filter off nothing is filtered, and a transcript that holds anything visible is
/// typed, with everything visible in it.
pub proof fn lemma_unfiltered_is_typed(text: Seq<char>)
    requires
        visible(text).len() > 0,
    ensures
        judged(text, false) matches Verdict::Typed(t) && visible(t) == visible(text),
{
    lemma_visible_trim_start(text);
    lemma_visible_trim_end(text::trim_start(text));
    lemma_sanitized_keeps_visible(trimmed(text));
}

/// The phrases that transcription is known to make up out of silence.
pub open spec fn made_up() -> Seq<Seq<char>> {
    seq![
        "thank you for watching"@,
        "thanks for watching"@,
        "please subscribe"@,
        "don't forget to like"@,
        "see you in the next video"@,
        "[music]"@,
        "[applause]"@,
    ]
}

/// A phrase is withheld exactly where it is one of those that are known to be made up, or is short
/// and contains one.
pub proof fn lemma_only_known_phrases_match(lower: &str, short: bool, r: bool)
    requires
        call_ensures(matches_hallucination, (lower, short), r),
    ensures
        r <==> exists|k: int|
            0 <= k < made_up().len() && (lower@ == #[trigger] made_up()[k] || short && occurs(
                lower@,
                made_up()[k],
            )),
{
    let m = made_up();
    assert(m[0] == "thank you for watching"@ && m[1] == "thanks for watching"@ && m[2]
        == "please subscribe"@ && m[3] == "don't forget to like"@ && m[4]
        == "see you in the next video"@ && m[5] == "[music]"@ && m[6] == "[applause]"@);
}

/// A transcript is withheld exactly where the filter is on and, apart from case and padding, it is
/// a phrase known to be made up, or has fewer than 80 characters and contains one. What is withheld
/// is the transcript itself.
pub proof fn lemma_only_made_up_text_is_withheld(text: &str, filter: bool, r: Committed)
    requires
        call_ensures(classify, (text, filter), r),
    ensures
        r is Filtered <==> filter && trimmed(text@).len() > 0 && exists|k: int|
            0 <= k < made_up().len() && (text::lowercased(trimmed(text@))
                == #[trigger] made_up()[k] || trimmed(text@).len() < 80 && occurs(
                text::lowercased(trimmed(text@)),
                made_up()[k],
            )),
        r matches Committed::Filtered(t) ==> t@ == trimmed(text@),
{
    text::lemma_trimmed_idempotent(text@);
    let m = made_up();
    assert(m[0] == "thank you for watching"@ && m[1] == "thanks for watching"@ && m[2]
        == "please subscribe"@ && m[3] == "don't forget to like"@ && m[4]
        == "see you in the next video"@ && m[5] == "[music]"@ && m[6] == "[applause]"@);
}

proof fn lemma_whole_occurs(s: Seq<char>)
    ensures
        occurs(s, s),
{
    assert(s.subrange(0, s.len() as int) =~= s);
    assert(text::occurs_at(s, s, 0));
}

proof fn lemma_invisible_is_blank(s: Seq<char>)
    requires
        no_keys(s),
        visible(s).len() == 0,
    ensures
        text::all_space(s),
    decreases s.len(),
{
    if s.len() > 0 {
        let t = s.drop_last();
        assert forall|i: int| 0 <= i < t.len() implies !is_break(#[trigger] t[i]) && !is_cc(
            t[i],
        ) by {
            assert(t[i] == s[i]);
        }
        assert(!is_cc(s[s.len() - 1]));
        lemma_invisible_is_blank(t);
        assert forall|i: int| 0 <= i < s.len() implies is_space(#[trigger] s[i]) by {
            if i < t.len() {
                assert(t[i] == s[i]);
            }
        }
    }
}

/// What the user said is typed: a transcript that holds anything visible, and none of the phrases
/// known to be made up, comes out with everything visible in it, whether the filter is on or off.
pub proof fn lemma_what_was_said_is_typed(text: &str, filter: bool, r: Committed)
    requires
        call_ensures(classify, (text, filter), r),
        visible(text@).len() > 0,
        !filter || forall|k: int|
            0 <= k < made_up().len() ==> !occurs(
                text::lowercased(trimmed(text@)),
                #[trigger] made_up()[k],
            ),
    ensures
        r matches Committed::Typed(t) && visible(t@) == visible(text@),
{
    lemma_unfiltered_is_typed(text@);
    lemma_only_made_up_text_is_withheld(text, filter, r);
    if r is Filtered {
        let k = choose|k: int|
            0 <= k < made_up().len() && (text::lowercased(trimmed(text@))
                == #[trigger] made_up()[k] || trimmed(text@).len() < 80 && occurs(
                text::lowercased(trimmed(text@)),
                made_up()[k],
            ));
        lemma_whole_occurs(made_up()[k]);
    }
}

/// A dictation is empty exactly where nothing visible was heard.
pub proof fn lemma_empty_is_nothing_visible(text: &str, r: Committed)
    requires
        call_ensures(classify, (text, false), r),
    ensures
        r is Empty <==> visible(text@).len() == 0,
        r is Empty || r is Typed,
{
    if visible(text@).len() > 0 {
        lemma_unfiltered_is_typed(text@);
    } else {
        let t = trimmed(text@);
        lemma_visible_trim_start(text@);
        lemma_visible_trim_end(text::trim_start(text@));
        lemma_sanitized_keeps_visible(t);
        lemma_sanitized_is_safe(t);
        lemma_invisible_is_blank(sanitized(t));
        if sanitized(t).len() > 0 {
            assert(is_space(sanitized(t)[0]));
        }
    }
}

/// The filter can only withhold: where it lets a transcript pass, that comes out as without it.
pub proof fn lemma_the_filter_only_withholds(text: &str, on: Committed, off: Committed)
    requires
        call_ensures(classify, (text, true), on),
        call_ensures(classify, (text, false), off),
    ensures
        on is Filtered || on@ == off@,
        !(off is Filtered),
{
}

// ---------------------------------------------------------------------------------------------
// Accumulating
// ---------------------------------------------------------------------------------------------

/// A text with a further segment: a single space between them, and nothing for a blank segment.
pub open spec fn joined(out: Seq<char>, segment: Seq<char>) -> Seq<char> {
    let t = trimmed(segment);
    if t.len() == 0 {
        out
    } else if out.len() == 0 {
        t
    } else {
        out.push(' ') + t
    }
}

/// However a segment is padded, it is joined without the padding: a text without white space at
/// its ends has none afterwards, and what stood there stands in front.
pub proof fn lemma_joined_without_padding(out: Seq<char>, segment: Seq<char>)
    requires
        is_trimmed(out),
    ensures
        is_trimmed(joined(out, segment)),
        out.is_prefix_of(joined(out, segment)),
{
    let t = trimmed(segment);
    text::lemma_trimmed_is_trimmed(segment);
    let j = joined(out, segment);
    if t.len() > 0 && out.len() > 0 {
        assert(j[0] == out[0] && j[j.len() - 1] == t[t.len() - 1]);
    }
}

/// Joins a transcript segment to those before it.
pub fn append_segment(out: &mut String, segment: &str)
    ensures
        final(out)@ == joined(old(out)@, segment@),
{
    let t = text::trim(segment);
    if t.unicode_len() == 0 {
        return;
    }
    if out.as_str().unicode_len() != 0 {
        out.push(' ');
    }
    out.append(t);
}

/// A segment that says something is joined with exactly one space, whatever the text before it ends
/// in: the text, a space, and the segment without its padding. The first segment stands alone, and
/// a blank one leaves the text as it is.
pub proof fn lemma_segments_are_joined_by_one_space(out: &mut String, segment: &str)
    requires
        call_ensures(append_segment, (out, segment), ()),
    ensures
        ({
            let t = trimmed(segment@);
            let was = old(out)@;
            let is = final(out)@;
            &&& t.len() > 0 && was.len() > 0 ==> is.len() == was.len() + 1 + t.len() && is.take(
                was.len() as int,
            ) == was && is[was.len() as int] == ' ' && is.skip(was.len() as int + 1) == t
            &&& t.len() > 0 && was.len() == 0 ==> is == t
            &&& t.len() == 0 ==> is == was
        }),
{
    let t = trimmed(segment@);
    let was = old(out)@;
    let is = final(out)@;
    if t.len() > 0 && was.len() > 0 {
        assert(is.take(was.len() as int) =~= was);
        assert(is.skip(was.len() as int + 1) =~= t);
    }
}

/// Joining is the same however the segments are grouped: what is joined to a text bit by bit is the
/// same as what is first joined among itself.
pub proof fn lemma_joining_is_associative(a: Seq<char>, b: Seq<char>, c: Seq<char>)
    requires
        is_trimmed(b),
    ensures
        joined(joined(a, b), c) == joined(a, joined(b, c)),
{
    text::lemma_trimmed_keeps(b);
    text::lemma_trimmed_is_trimmed(c);
    let t = trimmed(c);
    let bc = joined(b, c);
    if t.len() > 0 {
        if b.len() > 0 {
            assert(bc[0] == b[0] && bc[bc.len() - 1] == t[t.len() - 1]);
        }
        text::lemma_trimmed_keeps(bc);
        if a.len() > 0 && b.len() > 0 {
            assert((a.push(' ') + b).push(' ') + t =~= a.push(' ') + (b.push(' ') + t));
        }
    }
}

/// Everything heard of the current dictation. One hold of the key can be several turns: the
/// server closes a turn at each pause.
#[derive(Debug, Clone)]
pub struct Incoming {
    /// The transcripts of the turns that are finished, in order.
    pub committed: String,
    /// The deltas of the turn in flight.
    pub pending: String,
    /// How many turns have finished.
    pub turns: usize,
    /// A turn is open whose transcript has not come.
    pub speech_open: bool,
    /// When the last transcript event came.
    pub last: Option<u64>,
    /// Whether a transcript event came at all.
    pub seen: bool,
}

/// [`Incoming`] with its texts as sequences of characters.
pub struct Heard {
    pub committed: Seq<char>,
    pub pending: Seq<char>,
    pub turns: usize,
    pub speech_open: bool,
    pub last: Option<u64>,
    pub seen: bool,
}

impl View for Incoming {
    type V = Heard;

    open spec fn view(&self) -> Heard {
        Heard {
            committed: self.committed@,
            pending: self.pending@,
            turns: self.turns,
            speech_open: self.speech_open,
            last: self.last,
            seen: self.seen,
        }
    }
}

/// Nothing heard yet.
pub open spec fn silence() -> Heard {
    Heard {
        committed: Seq::empty(),
        pending: Seq::empty(),
        turns: 0,
        speech_open: false,
        last: None,
        seen: false,
    }
}

/// A number one higher, where there is one.
pub open spec fn counted(n: usize) -> usize {
    if n < usize::MAX {
        (n + 1) as usize
    } else {
        n
    }
}

/// After a piece of the turn in flight.
pub open spec fn with_delta(h: Heard, delta: Seq<char>, now: u64) -> Heard {
    Heard { pending: h.pending + delta, last: Some(now), seen: true, ..h }
}

/// After the transcript of a whole turn, which takes the place of that turn's deltas and follows
/// the turns before it.
pub open spec fn with_turn(h: Heard, text: Seq<char>, now: u64) -> Heard {
    Heard {
        committed: joined(h.committed, text),
        pending: Seq::empty(),
        turns: counted(h.turns),
        speech_open: false,
        last: Some(now),
        seen: true,
    }
}

/// Everything heard as one text.
pub open spec fn resolved(h: Heard) -> Seq<char> {
    joined(h.committed, h.pending)
}

/// A notification: its method, its parameters, and when it came.
pub struct Event {
    pub method: Seq<char>,
    pub params: Tree,
    pub at: u64,
}

/// The notification carries a piece of the user's own speech.
pub open spec fn user_delta(method: Seq<char>, params: Tree) -> bool {
    method == "thread/realtime/transcript/delta"@ && json::text_member(params, "role"@) == Some(
        "user"@,
    )
}

/// What is known after a notification.
pub open spec fn heard_next(h: Heard, e: Event) -> Heard {
    if user_delta(e.method, e.params) {
        match json::text_member(e.params, "delta"@) {
            Some(d) => with_delta(h, d, e.at),
            None => h,
        }
    } else if e.method == "thread/realtime/transcript/done"@ {
        match json::text_member(e.params, "text"@) {
            Some(t) => with_turn(h, t, e.at),
            None => h,
        }
    } else if e.method == "thread/realtime/speech/started"@ {
        Heard { speech_open: true, ..h }
    } else {
        h
    }
}

/// What is known after a run of notifications.
pub open spec fn heard_all(h: Heard, events: Seq<Event>) -> Heard
    decreases events.len(),
{
    if events.len() == 0 {
        h
    } else {
        heard_next(heard_all(h, events.drop_last()), events.last())
    }
}

/// The transcript of a finished turn that a notification carries.
pub open spec fn turn_in(e: Event) -> Option<Seq<char>> {
    if !user_delta(e.method, e.params) && e.method == "thread/realtime/transcript/done"@ {
        json::text_member(e.params, "text"@)
    } else {
        None
    }
}

/// The transcripts of the finished turns in a run of notifications, in order.
pub open spec fn turns_in(events: Seq<Event>) -> Seq<Seq<char>>
    decreases events.len(),
{
    if events.len() == 0 {
        Seq::empty()
    } else {
        let before = turns_in(events.drop_last());
        match turn_in(events.last()) {
            Some(t) => before.push(t),
            None => before,
        }
    }
}

/// Segments joined one after another.
pub open spec fn all_joined(segments: Seq<Seq<char>>) -> Seq<char>
    decreases segments.len(),
{
    if segments.len() == 0 {
        Seq::empty()
    } else {
        joined(all_joined(segments.drop_last()), segments.last())
    }
}

/// What stands after any run of notifications is the transcripts of the finished turns joined in
/// order, whatever deltas and other traffic came between them.
pub proof fn lemma_every_turn_is_kept(events: Seq<Event>)
    ensures
        heard_all(silence(), events).committed == all_joined(turns_in(events)),
    decreases events.len(),
{
    if events.len() > 0 {
        let before = events.drop_last();
        lemma_every_turn_is_kept(before);
        if let Some(t) = turn_in(events.last()) {
            let turns = turns_in(events);
            assert(turns.drop_last() =~= turns_in(before));
            assert(turns.last() == t);
        }
    }
}

proof fn lemma_occurs_in_longer(hay: Seq<char>, more: Seq<char>, needle: Seq<char>)
    requires
        occurs(hay, needle),
    ensures
        occurs(hay + more, needle),
{
    let i = choose|i: int| #[trigger] text::occurs_at(hay, needle, i);
    assert((hay + more).subrange(i, i + needle.len()) =~= hay.subrange(i, i + needle.len()));
    assert(text::occurs_at(hay + more, needle, i));
}

/// No finished turn is lost: each one's words stand in the joined text.
pub proof fn lemma_each_segment_is_in_the_text(segments: Seq<Seq<char>>, i: int)
    requires
        0 <= i < segments.len(),
    ensures
        occurs(all_joined(segments), trimmed(segments[i])),
    decreases segments.len(),
{
    let before = segments.drop_last();
    let out = all_joined(before);
    let t = trimmed(segments.last());
    if i < before.len() {
        lemma_each_segment_is_in_the_text(before, i);
        assert(before[i] == segments[i]);
        if t.len() > 0 && out.len() > 0 {
            lemma_occurs_in_longer(out, seq![' '] + t, trimmed(segments[i]));
            assert(out + (seq![' '] + t) =~= out.push(' ') + t);
        } else if t.len() > 0 {
            lemma_occurs_in_longer(out, t, trimmed(segments[i]));
            assert(out + t =~= t);
        }
    } else if t.len() == 0 {
        assert(out.subrange(0, 0) =~= t);
        assert(text::occurs_at(out, t, 0));
    } else if out.len() == 0 {
        assert(t.subrange(0, t.len() as int) =~= t);
        assert(text::occurs_at(t, t, 0));
    } else {
        let all = out.push(' ') + t;
        let k = out.len() as int + 1;
        assert(all.subrange(k, k + t.len()) =~= t);
        assert(text::occurs_at(all, t, k));
    }
}

/// A turn's own transcript takes the place of its deltas: what they were leaves no trace.
pub proof fn lemma_turn_overrides_its_deltas(
    h: Heard,
    deltas: Seq<char>,
    text: Seq<char>,
    now: u64,
)
    ensures
        with_turn(Heard { pending: deltas, ..h }, text, now) == with_turn(h, text, now),
        resolved(with_turn(h, text, now)) == joined(h.committed, text),
{
    assert(trimmed(Seq::<char>::empty()) =~= Seq::empty());
}

/// A notification other than the user's own transcript and the start of speech, the assistant's
/// words among them, changes nothing: neither the text nor the clocks.
pub proof fn lemma_unrelated_changes_nothing(h: Heard, e: Event)
    requires
        e.method != "thread/realtime/transcript/done"@,
        e.method != "thread/realtime/speech/started"@,
        e.method != "thread/realtime/transcript/delta"@ || json::text_member(e.params, "role"@)
            != Some("user"@),
    ensures
        heard_next(h, e) == h,
{
}

/// The start of speech is no transcript event: it moves none of the clocks.
pub proof fn lemma_speech_start_moves_no_clock(h: Heard, e: Event)
    requires
        e.method == "thread/realtime/speech/started"@,
    ensures
        heard_next(h, e) == (Heard { speech_open: true, ..h }),
{
    reveal_strlit("thread/realtime/speech/started");
    reveal_strlit("thread/realtime/transcript/delta");
    reveal_strlit("thread/realtime/transcript/done");
    assert("thread/realtime/speech/started"@.len() == 30);
    assert("thread/realtime/transcript/delta"@.len() == 32);
    assert("thread/realtime/transcript/done"@.len() == 31);
}

/// Whether a notification is a piece of the user's own speech.
pub fn is_user_transcript_delta(method: &str, params: &Json) -> (r: bool)
    ensures
        r == user_delta(method@, params.tree()),
{
    if !text::same(method, "thread/realtime/transcript/delta") {
        return false;
    }
    match params.get_str("role") {
        Some(role) => text::same(role, "user"),
        None => false,
    }
}

/// Whether a notification is the transcript of a finished turn. Only the user's turns are
/// notified so.
pub fn is_user_transcript_done(method: &str) -> (r: bool)
    ensures
        r == (method@ == "thread/realtime/transcript/done"@),
{
    text::same(method, "thread/realtime/transcript/done")
}

/// Whether a notification says that the server heard speech begin.
pub fn is_speech_started(method: &str) -> (r: bool)
    ensures
        r == (method@ == "thread/realtime/speech/started"@),
{
    text::same(method, "thread/realtime/speech/started")
}

impl Incoming {
    /// Nothing heard.
    pub fn new() -> (r: Incoming)
        ensures
            r@ == silence(),
    {
        Incoming {
            committed: String::new(),
            pending: String::new(),
            turns: 0,
            speech_open: false,
            last: None,
            seen: false,
        }
    }

    /// Notes that a transcript event came.
    pub fn mark(&mut self, now: u64)
        ensures
            final(self)@ == (Heard { last: Some(now), seen: true, ..old(self)@ }),
    {
        self.seen = true;
        self.last = Some(now);
    }

    /// Closes the current turn with its transcript.
    pub fn finish_turn(&mut self, text: &str, now: u64)
        ensures
            final(self)@ == with_turn(old(self)@, text@, now),
    {
        self.pending = String::new();
        self.speech_open = false;
        self.turns = self.turns.saturating_add(1);
        append_segment(&mut self.committed, text);
        self.mark(now);
    }

    /// The finished turns and the turn in flight as one text.
    pub fn resolve(self) -> (r: String)
        ensures
            r@ == resolved(self@),
    {
        let mut out = self.committed;
        append_segment(&mut out, self.pending.as_str());
        out
    }

    /// Takes in one notification.
    pub fn observe(&mut self, n: &Notification, now: u64)
        ensures
            final(self)@ == heard_next(
                old(self)@,
                Event { method: n.method@, params: n.params.tree(), at: now },
            ),
    {
        let method = n.method.as_str();
        if is_user_transcript_delta(method, &n.params) {
            if let Some(delta) = n.params.get_str("delta") {
                self.pending.append(delta);
                self.mark(now);
            }
        } else if is_user_transcript_done(method) {
            if let Some(text) = n.params.get_str("text") {
                self.finish_turn(text, now);
            }
        } else if is_speech_started(method) {
            self.speech_open = true;
        }
    }
}

proof fn lemma_methods_of_a_transcript()
    ensures
        "thread/realtime/speech/started"@.len() == 30,
        "thread/realtime/transcript/delta"@.len() == 32,
        "thread/realtime/transcript/done"@.len() == 31,
{
    reveal_strlit("thread/realtime/speech/started");
    reveal_strlit("thread/realtime/transcript/delta");
    reveal_strlit("thread/realtime/transcript/done");
}

/// A piece of the user's speech is put behind the pieces before it, and is known to have come when
/// it came. It finishes nothing.
pub proof fn lemma_a_piece_follows_those_before(
    i: &mut Incoming,
    n: Notification,
    now: u64,
    piece: Seq<char>,
)
    requires
        call_ensures(Incoming::observe, (i, &n, now), ()),
        n.method@ == "thread/realtime/transcript/delta"@,
        json::text_member(n.params.tree(), "role"@) == Some("user"@),
        json::text_member(n.params.tree(), "delta"@) == Some(piece),
    ensures
        final(i).pending@ == old(i).pending@ + piece,
        final(i).committed@ == old(i).committed@,
        final(i).turns == old(i).turns,
        final(i).speech_open == old(i).speech_open,
        final(i).last == Some(now),
        final(i).seen,
{
    lemma_methods_of_a_transcript();
    assert(final(i)@.pending == final(i).pending@ && old(i)@.pending == old(i).pending@);
}

/// A finished turn closes itself: its text is joined to the turns before it in place of its pieces,
/// it is counted, no turn is open any more, and it is known to have come when it came.
pub proof fn lemma_a_finished_turn_is_closed(
    i: &mut Incoming,
    n: Notification,
    now: u64,
    said: Seq<char>,
)
    requires
        call_ensures(Incoming::observe, (i, &n, now), ()),
        n.method@ == "thread/realtime/transcript/done"@,
        json::text_member(n.params.tree(), "text"@) == Some(said),
    ensures
        final(i).pending@.len() == 0,
        !final(i).speech_open,
        old(i).turns < usize::MAX ==> final(i).turns == old(i).turns + 1,
        final(i).turns > 0,
        final(i).last == Some(now),
        final(i).seen,
        trimmed(said).len() > 0 && old(i).committed@.len() > 0 ==> final(i).committed@
            == old(i).committed@ + seq![' '] + trimmed(said),
        trimmed(said).len() > 0 && old(i).committed@.len() == 0 ==> final(i).committed@ == trimmed(
            said,
        ),
        trimmed(said).len() == 0 ==> final(i).committed@ == old(i).committed@,
{
    lemma_methods_of_a_transcript();
    assert(final(i)@.pending == final(i).pending@ && old(i)@.committed == old(i).committed@);
    assert(old(i).committed@.push(' ') =~= old(i).committed@ + seq![' ']);
}

/// The start of speech opens a turn, and does nothing else: no text changes and no clock moves.
pub proof fn lemma_speech_opens_a_turn(i: &mut Incoming, n: Notification, now: u64)
    requires
        call_ensures(Incoming::observe, (i, &n, now), ()),
        n.method@ == "thread/realtime/speech/started"@,
    ensures
        final(i).speech_open,
        final(i).committed@ == old(i).committed@,
        final(i).pending@ == old(i).pending@,
        final(i).turns == old(i).turns,
        final(i).last == old(i).last,
        final(i).seen == old(i).seen,
{
    lemma_methods_of_a_transcript();
    assert(final(i)@.committed == final(i).committed@ && final(i)@.pending == final(i).pending@);
    assert(old(i)@.committed == old(i).committed@ && old(i)@.pending == old(i).pending@);
}

/// Two turns of one hold make one text: the first, a space and the second, and behind them the
/// pieces of a turn that is not finished.
pub proof fn lemma_turns_make_one_text(a: Seq<char>, b: Seq<char>, piece: Seq<char>, at: u64)
    requires
        is_trimmed(a) && a.len() > 0,
        is_trimmed(b) && b.len() > 0,
        is_trimmed(piece) && piece.len() > 0,
    ensures
        ({
            let two = with_turn(with_turn(silence(), a, at), b, at);
            &&& resolved(two) == a + seq![' '] + b
            &&& resolved(with_delta(two, piece, at)) == a + seq![' '] + b + seq![' '] + piece
            &&& resolved(with_delta(silence(), piece, at)) == piece
        }),
{
    text::lemma_trimmed_keeps(a);
    text::lemma_trimmed_keeps(b);
    text::lemma_trimmed_keeps(piece);
    let empty = Seq::<char>::empty();
    assert(trimmed(empty) =~= empty);
    assert(empty + piece =~= piece);
    assert(a.push(' ') + b =~= a + seq![' '] + b);
    let two = a + seq![' '] + b;
    assert(two.push(' ') + piece =~= two + seq![' '] + piece);
}

// ---------------------------------------------------------------------------------------------
// Waiting for the transcript to settle
// ---------------------------------------------------------------------------------------------

/// How long a commit waits for the transcript after the audio stops, in milliseconds.
#[derive(Debug, Clone, Copy, PartialEq, Eq, Structural)]
pub struct Timings {
    /// The ceiling on the wait.
    pub deadline: u64,
    /// How long a turn's deltas may stall without its transcript.
    pub quiet: u64,
    /// How long an open turn is given to produce its transcript.
    pub open_turn: u64,
    /// How long after a finished turn the next may begin.
    pub settle: u64,
    /// How long the first transcript event may take where no turn is open.
    pub no_event: u64,
    /// The time between two looks.
    pub poll: u64,
}

/// The windows in use.
pub open spec fn default_timings() -> Timings {
    Timings {
        deadline: 10_000,
        quiet: 900,
        open_turn: 5_000,
        settle: 300,
        no_event: 1_500,
        poll: 25,
    }
}

impl Default for Timings {
    fn default() -> (r: Timings)
        ensures
            r == default_timings(),
    {
        Timings {
            deadline: 10_000,
            quiet: 900,
            open_turn: 5_000,
            settle: 300,
            no_event: 1_500,
            poll: 25,
        }
    }
}

/// No window in use hides another: settling is the quickest way out, an open turn outlasts the
/// grace for a silent session, and the deadline outlasts an open turn.
pub proof fn lemma_default_timings_are_ordered()
    ensures
        ({
            let t = default_timings();
            t.settle < t.quiet && t.no_event < t.open_turn && t.open_turn < t.deadline && 0
                < t.poll
        }),
{
}

/// Why a wait ended.
#[derive(Debug, Clone, Copy, PartialEq, Eq, Structural)]
pub enum Settled {
    /// The ceiling was reached.
    Deadline,
    /// An open turn was never transcribed.
    OpenTurn,
    /// Not one transcript event came.
    NoEvent,
    /// The deltas of a turn stalled.
    Quiet,
    /// Every turn is finished and none has begun since.
    AllTurns,
}

/// The time from one instant to another, none where the other is earlier.
pub open spec fn since(then: u64, now: u64) -> u64 {
    if now < then {
        0
    } else {
        (now - then) as u64
    }
}

/// The time without a transcript event, counted from the start of the wait where none came.
pub open spec fn idle_for(h: Heard, start: u64, now: u64) -> u64 {
    match h.last {
        Some(last) => since(last, now),
        None => since(start, now),
    }
}

/// Whether, and why, a wait that began at `start` ends at `now`.
pub open spec fn settled(h: Heard, t: Timings, start: u64, now: u64) -> Option<Settled> {
    let elapsed = since(start, now);
    let idle = idle_for(h, start, now);
    if elapsed >= t.deadline {
        Some(Settled::Deadline)
    } else if h.speech_open {
        if idle >= t.open_turn {
            Some(Settled::OpenTurn)
        } else {
            None
        }
    } else if !h.seen && elapsed >= t.no_event {
        Some(Settled::NoEvent)
    } else if trimmed(h.pending).len() > 0 {
        if idle >= t.quiet {
            Some(Settled::Quiet)
        } else {
            None
        }
    } else if h.turns > 0 && idle >= t.settle {
        Some(Settled::AllTurns)
    } else {
        None
    }
}

/// A wait is over at its deadline, whatever the server keeps sending.
pub proof fn lemma_wait_is_bounded(h: Heard, t: Timings, start: u64, now: u64)
    requires
        now >= start + t.deadline,
    ensures
        settled(h, t, start, now) == Some(Settled::Deadline),
{
}

/// A turn whose audio was accepted is waited for until its own window or the deadline is over:
/// neither the grace for a silent session nor the settling time ends the wait before.
pub proof fn lemma_open_turn_outranks_other_windows(h: Heard, t: Timings, start: u64, now: u64)
    requires
        h.speech_open,
        since(start, now) < t.deadline,
        idle_for(h, start, now) < t.open_turn,
    ensures
        settled(h, t, start, now) is None,
{
}

/// A turn that is never transcribed ends the wait at its own window, before the deadline.
pub proof fn lemma_open_turn_is_bounded(h: Heard, t: Timings, start: u64, now: u64)
    requires
        h.speech_open,
        h.last is None,
        t.open_turn <= since(start, now) < t.deadline,
    ensures
        settled(h, t, start, now) == Some(Settled::OpenTurn),
{
}

/// A wait goes on as long as every window is open: nothing is committed early.
pub proof fn lemma_nothing_settles_early(h: Heard, t: Timings, start: u64, now: u64)
    requires
        since(start, now) < t.deadline,
        idle_for(h, start, now) < t.settle,
        t.settle <= t.quiet,
        t.settle <= t.open_turn,
        h.seen || since(start, now) < t.no_event,
    ensures
        settled(h, t, start, now) is None,
{
}

/// When a wait for a transcript ends, and why. At the deadline, whatever else holds. Before it,
/// with a turn open, only when that turn's own time is over. With none open: where not one transcript
/// event came, when the grace for that is over; where pieces of a turn stand there, when they have
/// stalled; and where turns are finished and nothing stands there, when none has begun for a while.
pub proof fn lemma_when_a_wait_ends(
    state: DictateState,
    t: Timings,
    start: u64,
    now: u64,
    r: Option<Settled>,
)
    requires
        call_ensures(DictateState::await_transcript, (&state, t, start, now), r),
        start <= now,
        state.incoming.last matches Some(last) ==> last <= now,
    ensures
        ({
            let i = state.incoming;
            let waited = now - start;
            let idle = match i.last {
                Some(last) => now - last,
                None => now - start,
            };
            let before = waited < t.deadline;
            let silent = !i.seen && waited >= t.no_event;
            let pieces = trimmed(i.pending@).len() > 0;
            &&& r == Some(Settled::Deadline) <==> !before
            &&& r == Some(Settled::OpenTurn) <==> before && i.speech_open && idle >= t.open_turn
            &&& r == Some(Settled::NoEvent) <==> before && !i.speech_open && silent
            &&& r == Some(Settled::Quiet) <==> before && !i.speech_open && !silent && pieces && idle
                >= t.quiet
            &&& r == Some(Settled::AllTurns) <==> before && !i.speech_open && !silent && !pieces
                && i.turns > 0 && idle >= t.settle
        }),
{
    assert(state.incoming@.pending == state.incoming.pending@);
}

/// With the windows in use, a transcript that is owed is waited for through five seconds, and no
/// longer: a grace of a second and a half ends only a wait for which nothing is owed and to which
/// nothing came. A stalled turn is given nine tenths of a second, the next turn three tenths, and
/// nothing more than ten seconds.
pub proof fn lemma_how_long_a_transcript_is_waited_for(
    state: DictateState,
    t: Timings,
    start: u64,
    now: u64,
    r: Option<Settled>,
)
    requires
        call_ensures(<Timings as Default>::default, (), t),
        call_ensures(DictateState::await_transcript, (&state, t, start, now), r),
        start <= now,
    ensures
        state.incoming.speech_open && state.incoming.last is None ==> (r is None <==> now - start
            < 5_000),
        !state.incoming.speech_open && !state.incoming.seen && state.incoming.turns == 0 && trimmed(
            state.incoming.pending@,
        ).len() == 0 ==> (r is None <==> now - start < 1_500),
        !state.incoming.speech_open && state.incoming.seen && trimmed(
            state.incoming.pending@,
        ).len() > 0 && state.incoming.last == Some(start) ==> (r is None <==> now - start < 900),
        !state.incoming.speech_open && state.incoming.seen && trimmed(
            state.incoming.pending@,
        ).len() == 0 && state.incoming.turns > 0 && state.incoming.last == Some(start) ==> (r
            is None <==> now - start < 300),
        now - start >= 10_000 ==> r == Some(Settled::Deadline),
        now - start < 10_000 ==> r != Some(Settled::Deadline),
        t.poll == 25,
{
    assert(state.incoming@.pending == state.incoming.pending@);
}

/// Collects a dictation and commits it.
#[derive(Debug, Clone)]
pub struct DictateState {
    pub incoming: Incoming,
    pub listening: bool,
    /// The source whose notifications are taken in.
    pub accumulator: Option<u64>,
    /// The number of the last source.
    pub issued: u64,
}

impl DictateState {
    /// Nothing heard, and no source.
    pub fn new() -> (r: DictateState)
        ensures
            r.incoming@ == silence(),
            !r.listening,
            r.accumulator is None,
            r.issued == 0,
    {
        DictateState { incoming: Incoming::new(), listening: false, accumulator: None, issued: 0 }
    }

    pub fn is_listening(&self) -> (r: bool)
        ensures
            r == self.listening,
    {
        self.listening
    }

    /// Begins a dictation with a new source, whose number it returns. What was heard before is
    /// gone, and the source before is retired.
    pub fn start_listening(&mut self) -> (r: u64)
        ensures
            final(self).incoming@ == silence(),
            final(self).listening,
            final(self).accumulator == Some(r),
            final(self).issued == r,
            r == vstd::wrapping::u64_specs::wrapping_add(old(self).issued, 1),
            r != old(self).issued,
    {
        self.issued = self.issued.wrapping_add(1);
        self.incoming = Incoming::new();
        self.listening = true;
        self.accumulator = Some(self.issued);
        self.issued
    }

    /// Takes in a notification from a source. One from a retired source changes nothing.
    pub fn accumulate(&mut self, source: u64, n: &Notification, now: u64)
        ensures
            final(self).incoming@ == (if old(self).accumulator == Some(source) {
                heard_next(
                    old(self).incoming@,
                    Event { method: n.method@, params: n.params.tree(), at: now },
                )
            } else {
                old(self).incoming@
            }),
            final(self).listening == old(self).listening,
            final(self).accumulator == old(self).accumulator,
            final(self).issued == old(self).issued,
    {
        if let Some(current) = self.accumulator {
            if current == source {
                self.incoming.observe(n, now);
            }
        }
    }

    /// Ends the listening. The result says whether there is a transcript to wait for: without a
    /// source the commit is immediate.
    pub fn begin_finish(&mut self) -> (r: bool)
        ensures
            !final(self).listening,
            r == (old(self).accumulator is Some),
            final(self).incoming@ == old(self).incoming@,
            final(self).accumulator == old(self).accumulator,
            final(self).issued == old(self).issued,
    {
        self.listening = false;
        self.accumulator.is_some()
    }

    /// Whether the wait that began at `start` is over. Where it is not, look again after
    /// `t.poll`.
    pub fn await_transcript(&self, t: Timings, start: u64, now: u64) -> (r: Option<Settled>)
        ensures
            r == settled(self.incoming@, t, start, now),
    {
        let elapsed: u64 = now.saturating_sub(start);
        if elapsed >= t.deadline {
            return Some(Settled::Deadline);
        }
        let idle: u64 = match self.incoming.last {
            Some(last) => now.saturating_sub(last),
            None => elapsed,
        };
        if self.incoming.speech_open {
            if idle >= t.open_turn {
                return Some(Settled::OpenTurn);
            }
        } else if !self.incoming.seen && elapsed >= t.no_event {
            return Some(Settled::NoEvent);
        } else if !text::is_blank(self.incoming.pending.as_str()) {
            if idle >= t.quiet {
                return Some(Settled::Quiet);
            }
        } else if self.incoming.turns > 0 && idle >= t.settle {
            return Some(Settled::AllTurns);
        }
        None
    }

    /// Takes what was heard and judges it, once the wait is over. Nothing stays behind, and the
    /// source is retired.
    pub fn finish(&mut self, filter: bool) -> (r: Committed)
        ensures
            r@ == judged(resolved(old(self).incoming@), filter),
            final(self).incoming@ == silence(),
            !final(self).listening,
            final(self).accumulator is None,
            final(self).issued == old(self).issued,
    {
        self.listening = false;
        self.accumulator = None;
        let mut heard = Incoming::new();
        std::mem::swap(&mut heard, &mut self.incoming);
        classify(heard.resolve().as_str(), filter)
    }

    /// [`Self::finish`] with no other transcript to prefer.
    pub fn stop_listening(&mut self, filter: bool) -> (r: Committed)
        ensures
            r@ == judged(resolved(old(self).incoming@), filter),
            final(self).incoming@ == silence(),
            !final(self).listening,
            final(self).accumulator is None,
            final(self).issued == old(self).issued,
    {
        self.stop_listening_with(None, filter)
    }

    /// As [`Self::finish`], but a transcript from elsewhere is preferred where it is not blank.
    pub fn stop_listening_with(&mut self, preferred: Option<&str>, filter: bool) -> (r: Committed)
        ensures
            r@ == preferred_or(
                match preferred {
                    Some(p) => Some(p@),
                    None => None,
                },
                resolved(old(self).incoming@),
                filter,
            ),
            final(self).incoming@ == silence(),
            !final(self).listening,
            final(self).accumulator is None,
            final(self).issued == old(self).issued,
    {
        let fallback = self.finish(filter);
        match preferred {
            Some(text) => {
                if text::is_blank(text) {
                    fallback
                } else {
                    classify(text, filter)
                }
            },
            None => fallback,
        }
    }

    /// Ends the dictation with nothing to type.
    pub fn abort(&mut self)
        ensures
            final(self).incoming@ == silence(),
            !final(self).listening,
            final(self).accumulator is None,
            final(self).issued == old(self).issued,
    {
        self.listening = false;
        self.accumulator = None;
        self.incoming = Incoming::new();
    }

    /// Notes that audio was committed, so that its transcript is owed.
    pub fn expect_turn(&mut self)
        ensures
            final(self).incoming@ == (Heard { speech_open: true, ..old(self).incoming@ }),
            final(self).listening == old(self).listening,
            final(self).accumulator == old(self).accumulator,
            final(self).issued == old(self).issued,
    {
        self.incoming.speech_open = true;
    }

    /// The text heard so far.
    pub fn current_buffer(&self) -> (r: String)
        ensures
            r@ == resolved(self.incoming@),
    {
        let mut out = text::copy(self.incoming.committed.as_str());
        append_segment(&mut out, self.incoming.pending.as_str());
        out
    }
}

impl Default for DictateState {
    fn default() -> (r: DictateState)
        ensures
            r.incoming@ == silence(),
            !r.listening,
            r.accumulator is None,
            r.issued == 0,
    {
        DictateState::new()
    }
}

/// A turn that is owed keeps the wait open where without it the wait would be over: only the turn's
/// own time or the deadline ends it, and the transcript of the turn closes it again.
pub proof fn lemma_a_turn_that_is_owed_is_waited_for(
    state: &mut DictateState,
    waiting: DictateState,
    t: Timings,
    start: u64,
    now: u64,
    r: Option<Settled>,
)
    requires
        call_ensures(DictateState::expect_turn, (state,), ()),
        waiting == *final(state),
        call_ensures(DictateState::await_transcript, (&waiting, t, start, now), r),
    ensures
        r != Some(Settled::NoEvent) && r != Some(Settled::Quiet) && r != Some(Settled::AllTurns),
        waiting.incoming@.committed == old(state).incoming@.committed,
        waiting.incoming@.pending == old(state).incoming@.pending,
        waiting.incoming@.turns == old(state).incoming@.turns,
        waiting.incoming@.last == old(state).incoming@.last,
        waiting.incoming@.seen == old(state).incoming@.seen,
        waiting.accumulator == old(state).accumulator,
        waiting.listening == old(state).listening,
{
    assert(waiting.incoming@.speech_open == waiting.incoming.speech_open);
}

/// A dictation that begins hears its own source only: what was heard before is gone, and a
/// notification from another source changes nothing.
pub proof fn lemma_a_dictation_hears_its_own_source(
    begun: &mut DictateState,
    fed: &mut DictateState,
    source: u64,
    other: u64,
    n: Notification,
    now: u64,
)
    requires
        call_ensures(DictateState::start_listening, (begun,), source),
        *old(fed) == *final(begun),
        other != source,
        call_ensures(DictateState::accumulate, (fed, other, &n, now), ()),
    ensures
        final(begun).listening,
        source != old(begun).issued,
        resolved(final(begun).incoming@).len() == 0,
        final(begun).incoming@.turns == 0 && !final(begun).incoming@.speech_open,
        !final(begun).incoming@.seen && final(begun).incoming@.last is None,
        final(fed).incoming@ == final(begun).incoming@,
        final(fed).accumulator == Some(source),
{
    assert(trimmed(Seq::<char>::empty()) =~= Seq::empty());
}

/// What a dictation heard is committed once: the end takes all of it, and a second end, or one
/// after an abort, finds nothing.
pub proof fn lemma_a_dictation_is_committed_once(
    first: &mut DictateState,
    second: &mut DictateState,
    aborted: &mut DictateState,
    after: &mut DictateState,
    filter: bool,
    a: Committed,
    b: Committed,
    c: Committed,
)
    requires
        call_ensures(DictateState::stop_listening, (first, filter), a),
        *old(second) == *final(first),
        call_ensures(DictateState::stop_listening, (second, filter), b),
        call_ensures(DictateState::abort, (aborted,), ()),
        *old(after) == *final(aborted),
        call_ensures(DictateState::stop_listening, (after, filter), c),
    ensures
        a@ == judged(joined(old(first).incoming.committed@, old(first).incoming.pending@), filter),
        b is Empty,
        c is Empty,
        !final(first).listening && final(first).accumulator is None,
        !final(aborted).listening && final(aborted).accumulator is None,
{
    lemma_silence_commits_as_empty(filter);
    assert(old(first).incoming@.committed == old(first).incoming.committed@);
}

/// A transcript from elsewhere that says something is all that counts, whatever was heard; one that
/// is missing or blank does not count at all. Either way it is judged like any other.
pub proof fn lemma_a_preferred_transcript_counts(
    a: &mut DictateState,
    b: &mut DictateState,
    c: &mut DictateState,
    preferred: &str,
    filter: bool,
    with: Committed,
    without: Committed,
    judged_alone: Committed,
)
    requires
        *old(a) == *old(b),
        call_ensures(DictateState::stop_listening_with, (a, Some(preferred), filter), with),
        call_ensures(DictateState::stop_listening_with, (b, None::<&str>, filter), without),
        call_ensures(classify, (preferred, filter), judged_alone),
    ensures
        trimmed(preferred@).len() > 0 ==> with@ == judged_alone@,
        trimmed(preferred@).len() == 0 ==> with@ == without@,
        final(a).incoming@ == silence() && final(b).incoming@ == silence(),
{
}

/// The text heard so far, and what it comes to at the end, is the finished turns and behind them,
/// after one space, the pieces of the turn in flight.
pub proof fn lemma_the_text_heard_so_far(state: DictateState, r: String, whole: String)
    requires
        call_ensures(DictateState::current_buffer, (&state,), r),
        call_ensures(Incoming::resolve, (state.incoming,), whole),
    ensures
        r@ == whole@,
        ({
            let done = state.incoming.committed@;
            let rest = trimmed(state.incoming.pending@);
            &&& rest.len() == 0 ==> r@ == done
            &&& done.len() == 0 && rest.len() > 0 ==> r@ == rest
            &&& done.len() > 0 && rest.len() > 0 ==> r@ == done + seq![' '] + rest
        }),
{
    let done = state.incoming.committed@;
    let rest = trimmed(state.incoming.pending@);
    assert(state.incoming@.committed == done);
    assert(state.incoming@.pending == state.incoming.pending@);
    assert(done.push(' ') + rest =~= done + seq![' '] + rest);
}

/// An end waits exactly where there is a source that may still say something.
pub proof fn lemma_an_end_waits_for_its_source(state: &mut DictateState, r: bool)
    requires
        call_ensures(DictateState::begin_finish, (state,), r),
    ensures
        r <==> old(state).accumulator is Some,
        !final(state).listening,
        final(state).accumulator == old(state).accumulator,
        final(state).incoming@ == old(state).incoming@,
{
}

/// The verdict on a preferred transcript, or on what was heard where that is missing or blank.
pub open spec fn preferred_or(
    preferred: Option<Seq<char>>,
    heard: Seq<char>,
    filter: bool,
) -> Verdict {
    match preferred {
        Some(text) if trimmed(text).len() > 0 => judged(text, filter),
        _ => judged(heard, filter),
    }
}

/// Nothing heard is nothing typed: an aborted dictation, or one never begun, commits as empty.
pub proof fn lemma_silence_commits_as_empty(filter: bool)
    ensures
        judged(resolved(silence()), filter) == Verdict::Empty,
{
    assert(trimmed(Seq::<char>::empty()) =~= Seq::empty());
}

// ---------------------------------------------------------------------------------------------
// Putting the text at the cursor
// ---------------------------------------------------------------------------------------------

/// How a text is put at the cursor.
#[derive(Debug, Clone, PartialEq, Eq)]
pub enum Injection {
    /// There is nothing to do.
    Nothing,
    /// Type the text.
    Type(String),
    /// Paste the text, and afterwards restore the clipboard or not.
    Paste { text: String, restore: bool },
}

/// The text with the space that may follow a dictation.
pub open spec fn spaced(text: Seq<char>, trailing_space: bool) -> Seq<char> {
    if trailing_space {
        text.push(' ')
    } else {
        text
    }
}

/// How a text is put at the cursor, under the given settings.
pub fn inject_text(
    text: &str,
    mode: InjectionMode,
    append_trailing_space: bool,
    restore_clipboard: bool,
) -> (r: Injection)
    ensures
        match r {
            Injection::Nothing => mode == InjectionMode::Type && spaced(
                text@,
                append_trailing_space,
            ).len() == 0,
            Injection::Type(t) => mode == InjectionMode::Type && t@.len() > 0 && t@ == spaced(
                text@,
                append_trailing_space,
            ),
            Injection::Paste { text: t, restore } => mode == InjectionMode::Clipboard && t@
                == spaced(text@, append_trailing_space) && restore == restore_clipboard,
        },
{
    let mut out = text::copy(text);
    if append_trailing_space {
        out.push(' ');
    }
    match mode {
        InjectionMode::Type => {
            if out.as_str().unicode_len() == 0 {
                Injection::Nothing
            } else {
                Injection::Type(out)
            }
        },
        InjectionMode::Clipboard => Injection::Paste { text: out, restore: restore_clipboard },
    }
}

/// The space after a dictation is the only thing added: what may be typed safely still may.
pub proof fn lemma_injected_has_no_keys(text: Seq<char>, trailing_space: bool)
    requires
        no_keys(text),
    ensures
        no_keys(spaced(text, trailing_space)),
{
}

/// The text that an injection test injects.
pub fn test_inject(text: &str) -> (r: Result<String, String>)
    ensures
        r is Ok <==> sanitized(text@).len() > 0,
        r matches Ok(s) ==> s@ == sanitized(text@),
        r matches Err(e) ==> e@ == "injection text is empty after sanitize"@,
{
    let safe = sanitize_for_injection(text);
    if safe.as_str().unicode_len() == 0 {
        return Err(text::copy("injection text is empty after sanitize"));
    }
    Ok(safe)
}

/// What is put at the cursor is the text, with one space behind it exactly where that is set, typed
/// or pasted as is set; the clipboard is put back exactly where that is set. Nothing is done only
/// where there is nothing to type.
pub proof fn lemma_the_text_is_put_at_the_cursor(
    text: &str,
    mode: InjectionMode,
    space: bool,
    restore: bool,
    r: Injection,
)
    requires
        call_ensures(inject_text, (text, mode, space, restore), r),
    ensures
        r is Paste <==> mode == InjectionMode::Clipboard,
        r is Nothing <==> mode == InjectionMode::Type && text@.len() == 0 && !space,
        r matches Injection::Type(t) ==> t@ == text@ + (if space {
            seq![' ']
        } else {
            Seq::empty()
        }),
        r matches Injection::Paste { text: t, restore: back } ==> back == restore && t@ == text@ + (
        if space {
            seq![' ']
        } else {
            Seq::empty()
        }),
{
    assert(text@.push(' ') =~= text@ + seq![' ']);
    assert(text@ + Seq::<char>::empty() =~= text@);
}

/// An injection test injects what a dictation of the same words would type.
pub proof fn lemma_a_test_injects_what_is_typed(
    text: &str,
    safe: String,
    r: Result<String, String>,
)
    requires
        call_ensures(sanitize_for_injection, (text,), safe),
        call_ensures(test_inject, (text,), r),
    ensures
        r is Ok <==> safe@.len() > 0,
        r matches Ok(s) ==> s@ == safe@,
{
}

} // verus!
