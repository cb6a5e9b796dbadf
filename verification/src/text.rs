//! Texts as sequences of characters: trimming, searching, joining, numbers.

use vstd::prelude::*;

verus! {

/// `String::push` appends one character at the end of the text.
pub assume_specification[ String::push ](s: &mut String, c: char)
    ensures
        final(s)@ == old(s)@.push(c),
;

/// The characters with Unicode's `White_Space` property.
pub open spec fn is_space(c: char) -> bool {
    ||| '\u{09}' <= c <= '\u{0d}'
    ||| c == ' '
    ||| c == '\u{85}'
    ||| c == '\u{a0}'
    ||| c == '\u{1680}'
    ||| '\u{2000}' <= c <= '\u{200a}'
    ||| c == '\u{2028}'
    ||| c == '\u{2029}'
    ||| c == '\u{202f}'
    ||| c == '\u{205f}'
    ||| c == '\u{3000}'
}

/// The characters of Unicode's general category `Cc`: the two blocks of control codes.
pub open spec fn is_cc(c: char) -> bool {
    c <= '\u{1f}' || '\u{7f}' <= c <= '\u{9f}'
}

pub open spec fn all_space(s: Seq<char>) -> bool {
    forall|i: int| 0 <= i < s.len() ==> is_space(#[trigger] s[i])
}

pub open spec fn trim_start(s: Seq<char>) -> Seq<char>
    decreases s.len(),
{
    if s.len() > 0 && is_space(s[0]) {
        trim_start(s.drop_first())
    } else {
        s
    }
}

pub open spec fn trim_end(s: Seq<char>) -> Seq<char>
    decreases s.len(),
{
    if s.len() > 0 && is_space(s.last()) {
        trim_end(s.drop_last())
    } else {
        s
    }
}

/// A text without the white space at its two ends.
pub open spec fn trimmed(s: Seq<char>) -> Seq<char> {
    trim_end(trim_start(s))
}

/// No white space at either end.
pub open spec fn is_trimmed(s: Seq<char>) -> bool {
    s.len() > 0 ==> !is_space(s[0]) && !is_space(s.last())
}

pub open spec fn occurs_at(hay: Seq<char>, needle: Seq<char>, i: int) -> bool {
    0 <= i && i + needle.len() <= hay.len() && hay.subrange(i, i + needle.len() as int) == needle
}

/// `needle` stands somewhere in `hay`.
pub open spec fn occurs(hay: Seq<char>, needle: Seq<char>) -> bool {
    exists|i: int| #[trigger] occurs_at(hay, needle, i)
}

pub open spec fn ascii_lower(c: char) -> char {
    if 'A' <= c <= 'Z' {
        (c as u32 + 32) as char
    } else {
        c
    }
}

/// Equal but for the case of ASCII letters.
pub open spec fn same_ignoring_ascii_case(a: Seq<char>, b: Seq<char>) -> bool {
    a.len() == b.len() && forall|i: int|
        0 <= i < a.len() ==> ascii_lower(#[trigger] a[i]) == ascii_lower(b[i])
}

proof fn lemma_trim_start(s: Seq<char>, i: int)
    requires
        0 <= i <= s.len(),
        forall|j: int| 0 <= j < i ==> is_space(#[trigger] s[j]),
        i < s.len() ==> !is_space(s[i]),
    ensures
        trim_start(s) == s.skip(i),
    decreases i,
{
    if i > 0 {
        let t = s.drop_first();
        assert forall|j: int| 0 <= j < i - 1 implies is_space(#[trigger] t[j]) by {
            assert(t[j] == s[j + 1]);
        }
        lemma_trim_start(t, i - 1);
        assert(t.skip(i - 1) =~= s.skip(i));
    } else {
        assert(s.skip(0) =~= s);
    }
}

proof fn lemma_trim_end(s: Seq<char>, i: int)
    requires
        0 <= i <= s.len(),
        forall|j: int| i <= j < s.len() ==> is_space(#[trigger] s[j]),
        i > 0 ==> !is_space(s[i - 1]),
    ensures
        trim_end(s) == s.take(i),
    decreases s.len() - i,
{
    if i < s.len() {
        let t = s.drop_last();
        assert(s.last() == s[s.len() - 1]);
        lemma_trim_end(t, i);
        assert(t.take(i) =~= s.take(i));
    } else {
        assert(s.take(i) =~= s);
    }
}

/// Trimming cuts out one stretch of the text: what stands before and after it is white space,
/// and neither of its ends is.
pub proof fn lemma_trimmed_is_a_stretch(s: Seq<char>) -> (r: (int, int))
    ensures
        0 <= r.0 <= r.1 <= s.len(),
        trimmed(s) == s.subrange(r.0, r.1),
        forall|j: int| 0 <= j < r.0 ==> is_space(#[trigger] s[j]),
        forall|j: int| r.1 <= j < s.len() ==> is_space(#[trigger] s[j]),
        r.0 < r.1 ==> !is_space(s[r.0]) && !is_space(s[r.1 - 1]),
        r.0 == r.1 ==> r.1 == s.len(),
    decreases s.len(),
{
    if s.len() == 0 {
        (0, 0)
    } else if is_space(s[0]) {
        let t = s.drop_first();
        let (a, b) = lemma_trimmed_is_a_stretch(t);
        assert(t.subrange(a, b) =~= s.subrange(a + 1, b + 1));
        assert forall|j: int| 0 <= j < a + 1 implies is_space(#[trigger] s[j]) by {
            if j > 0 {
                assert(t[j - 1] == s[j]);
            }
        }
        assert forall|j: int| b + 1 <= j < s.len() implies is_space(#[trigger] s[j]) by {
            assert(t[j - 1] == s[j]);
        }
        (a + 1, b + 1)
    } else {
        let b = lemma_trim_end_is_a_prefix(s);
        assert(s.take(b) =~= s.subrange(0, b));
        (0, b)
    }
}

proof fn lemma_trim_end_is_a_prefix(s: Seq<char>) -> (b: int)
    ensures
        0 <= b <= s.len(),
        trim_end(s) == s.take(b),
        forall|j: int| b <= j < s.len() ==> is_space(#[trigger] s[j]),
        b > 0 ==> !is_space(s[b - 1]),
        s.len() > 0 && !is_space(s[0]) ==> b > 0,
    decreases s.len(),
{
    if s.len() > 0 && is_space(s.last()) {
        let t = s.drop_last();
        let b = lemma_trim_end_is_a_prefix(t);
        assert(t.take(b) =~= s.take(b));
        assert forall|j: int| b <= j < s.len() implies is_space(#[trigger] s[j]) by {
            if j < s.len() - 1 {
                assert(t[j] == s[j]);
            }
        }
        b
    } else {
        assert(s.take(s.len() as int) =~= s);
        s.len() as int
    }
}

/// A text with no white space at its ends is left as it is.
pub proof fn lemma_trimmed_keeps(s: Seq<char>)
    requires
        is_trimmed(s),
    ensures
        trimmed(s) == s,
{
}

/// What trimming leaves has no white space at its ends.
pub proof fn lemma_trimmed_is_trimmed(s: Seq<char>)
    ensures
        is_trimmed(trimmed(s)),
{
    let (a, b) = lemma_trimmed_is_a_stretch(s);
}

/// Trimming twice is trimming once.
pub proof fn lemma_trimmed_idempotent(s: Seq<char>)
    ensures
        trimmed(trimmed(s)) == trimmed(s),
{
    lemma_trimmed_is_trimmed(s);
}

/// Trimming leaves nothing exactly when there was only white space.
pub proof fn lemma_trimmed_empty(s: Seq<char>)
    ensures
        trimmed(s).len() == 0 <==> all_space(s),
{
    let (a, b) = lemma_trimmed_is_a_stretch(s);
    if a < b {
        assert(!is_space(s[a]));
    }
}

/// The characters of a text, in order.
pub fn chars_of(s: &str) -> (r: Vec<char>)
    ensures
        r@ == s@,
{
    let mut out: Vec<char> = Vec::new();
    for c in it: s.chars()
        invariant
            out@ == s@.take(it.index()),
            it.seq() == s@,
    {
        out.push(c);
    }
    out
}

/// The text made of these characters.
pub fn string_of(v: &[char]) -> (r: String)
    ensures
        r@ == v@,
{
    let mut out = String::new();
    for i in 0..v.len()
        invariant
            out@ == v@.take(i as int),
    {
        out.push(v[i]);
        assert(v@.take(i + 1) =~= v@.take(i as int).push(v@[i as int]));
    }
    assert(v@.take(v@.len() as int) =~= v@);
    out
}

/// A copy of a text.
pub fn copy(s: &str) -> (r: String)
    ensures
        r@ == s@,
{
    s.to_owned()
}

/// Two texts put one after the other.
pub fn join(a: &str, b: &str) -> (r: String)
    ensures
        r@ == a@ + b@,
{
    let mut out = a.to_owned();
    out.append(b);
    out
}

/// Whether two texts are the same.
pub fn same(a: &str, b: &str) -> (r: bool)
    ensures
        r == (a@ == b@),
{
    a.to_owned() == b.to_owned()
}

/// Whether a character has the `White_Space` property.
pub fn is_whitespace(c: char) -> (r: bool)
    ensures
        r == is_space(c),
{
    ('\u{09}' <= c && c <= '\u{0d}') || c == ' ' || c == '\u{85}' || c == '\u{a0}' || c
        == '\u{1680}' || ('\u{2000}' <= c && c <= '\u{200a}') || c == '\u{2028}' || c == '\u{2029}'
        || c == '\u{202f}' || c == '\u{205f}' || c == '\u{3000}'
}

/// Whether a character is a control code.
pub fn is_control(c: char) -> (r: bool)
    ensures
        r == is_cc(c),
{
    c <= '\u{1f}' || ('\u{7f}' <= c && c <= '\u{9f}')
}

/// The text without the white space at its two ends.
pub fn trim(s: &str) -> (r: &str)
    ensures
        r@ == trimmed(s@),
{
    let v = chars_of(s);
    let n: usize = v.len();
    let mut i: usize = 0;
    while i < n && is_whitespace(v[i])
        invariant
            n == v.len(),
            i <= n,
            forall|j: int| 0 <= j < i ==> is_space(#[trigger] v@[j]),
        decreases n - i,
    {
        i = i + 1;
    }
    let mut k: usize = n;
    while k > i && is_whitespace(v[k - 1])
        invariant
            n == v.len(),
            i <= k <= n,
            forall|j: int| k <= j < n ==> is_space(#[trigger] v@[j]),
        decreases k,
    {
        k = k - 1;
    }
    proof {
        lemma_trim_start(s@, i as int);
        let t = s@.skip(i as int);
        assert forall|j: int| k - i <= j < t.len() implies is_space(#[trigger] t[j]) by {
            assert(t[j] == v@[j + i]);
        }
        lemma_trim_end(t, k - i);
        assert(t.take(k - i) =~= s@.subrange(i as int, k as int));
    }
    s.substring_char(i, k)
}

/// Whether there is nothing but white space.
pub fn is_blank(s: &str) -> (r: bool)
    ensures
        r == (trimmed(s@).len() == 0),
{
    trim(s).is_empty()
}

/// Whether `needle` stands somewhere in `hay`.
pub fn contains(hay: &str, needle: &str) -> (r: bool)
    ensures
        r == occurs(hay@, needle@),
{
    let h = chars_of(hay);
    let p = chars_of(needle);
    if p.len() > h.len() {
        return false;
    }
    let last: usize = h.len() - p.len();
    let mut i: usize = 0;
    while i <= last
        invariant
            h@ == hay@,
            p@ == needle@,
            last == h.len() - p.len(),
            i <= last,
            forall|j: int| 0 <= j < i ==> !#[trigger] occurs_at(hay@, needle@, j),
        decreases last - i,
    {
        let mut k: usize = 0;
        while k < p.len() && h[i + k] == p[k]
            invariant
                h@ == hay@,
                p@ == needle@,
                last == h.len() - p.len(),
                i <= last,
                k <= p.len(),
                forall|j: int| 0 <= j < k ==> h@[i + j] == #[trigger] p@[j],
            decreases p.len() - k,
        {
            k = k + 1;
        }
        if k == p.len() {
            assert(hay@.subrange(i as int, i + needle@.len() as int) =~= needle@);
            assert(occurs_at(hay@, needle@, i as int));
            return true;
        }
        assert(!occurs_at(hay@, needle@, i as int)) by {
            assert(hay@.subrange(i as int, i + needle@.len() as int)[k as int] == h@[i + k]);
        }
        if i == last {
            return false;
        }
        i = i + 1;
    }
    false
}

fn lower_ascii(c: char) -> (r: char)
    ensures
        r == ascii_lower(c),
{
    if 'A' <= c && c <= 'Z' {
        ((c as u8) + 32) as char
    } else {
        c
    }
}

/// Whether two texts are equal but for the case of ASCII letters.
pub fn eq_ignore_ascii_case(a: &str, b: &str) -> (r: bool)
    ensures
        r == same_ignoring_ascii_case(a@, b@),
{
    let x = chars_of(a);
    let y = chars_of(b);
    if x.len() != y.len() {
        return false;
    }
    for i in 0..x.len()
        invariant
            x@ == a@,
            y@ == b@,
            x.len() == y.len(),
            forall|j: int| 0 <= j < i ==> ascii_lower(#[trigger] x@[j]) == ascii_lower(y@[j]),
    {
        if lower_ascii(x[i]) != lower_ascii(y[i]) {
            return false;
        }
    }
    true
}

/// What `str::to_lowercase` makes of a text.
pub uninterp spec fn lowercased(s: Seq<char>) -> Seq<char>;

/// `str::to_lowercase`: the lower-case form of the text, which its characters alone decide.
#[verifier::external_body]
pub(crate) fn to_lowercase(s: &str) -> (r: String)
    ensures
        r@ == lowercased(s@),
{
    s.to_lowercase()
}

/// Where a character first stands.
pub open spec fn find(s: Seq<char>, c: char) -> Option<int>
    decreases s.len(),
{
    if s.len() == 0 {
        None
    } else if s[0] == c {
        Some(0int)
    } else {
        match find(s.drop_first(), c) {
            Some(i) => Some(i + 1),
            None => None,
        }
    }
}

proof fn lemma_find(s: Seq<char>, c: char, i: int)
    requires
        0 <= i <= s.len(),
        forall|j: int| 0 <= j < i ==> #[trigger] s[j] != c,
        i < s.len() ==> s[i] == c,
    ensures
        find(s, c) == (if i < s.len() {
            Some(i)
        } else {
            None
        }),
    decreases i,
{
    if i > 0 {
        let t = s.drop_first();
        assert forall|j: int| 0 <= j < i - 1 implies #[trigger] t[j] != c by {
            assert(t[j] == s[j + 1]);
        }
        lemma_find(t, c, i - 1);
    }
}

/// The place of the first `c` at or after `from`, or the length where there is none.
pub fn find_from(v: &[char], from: usize, c: char) -> (r: usize)
    requires
        from <= v@.len(),
    ensures
        from <= r <= v@.len(),
        find(v@.skip(from as int), c) == (if r < v@.len() {
            Some(r - from)
        } else {
            None
        }),
{
    let mut i: usize = from;
    while i < v.len() && v[i] != c
        invariant
            from <= i <= v@.len(),
            forall|j: int| from <= j < i ==> #[trigger] v@[j] != c,
        decreases v@.len() - i,
    {
        i = i + 1;
    }
    proof {
        let t = v@.skip(from as int);
        assert forall|j: int| 0 <= j < i - from implies #[trigger] t[j] != c by {
            assert(t[j] == v@[j + from]);
        }
        lemma_find(t, c, i - from);
    }
    i
}

/// The second of the parts that `c` splits a text into.
pub open spec fn second_part(s: Seq<char>, c: char) -> Option<Seq<char>> {
    match find(s, c) {
        None => None,
        Some(i) => {
            let rest = s.skip(i + 1);
            Some(
                match find(rest, c) {
                    Some(k) => rest.take(k),
                    None => rest,
                },
            )
        },
    }
}

/// The second of the parts that `c` splits the text into, if it splits it at all.
pub fn split_second(s: &str, c: char) -> (r: Option<&str>)
    ensures
        r is Some <==> second_part(s@, c) is Some,
        r matches Some(t) ==> second_part(s@, c) == Some(t@),
{
    let v = chars_of(s);
    assert(v@.skip(0) =~= s@);
    let i: usize = find_from(&v, 0, c);
    if i == v.len() {
        return None;
    }
    let k: usize = find_from(&v, i + 1, c);
    let part = s.substring_char(i + 1, k);
    assert(part@ =~= s@.skip(i + 1).take(k - i - 1));
    Some(part)
}

pub open spec fn digit(d: int) -> char {
    (('0' as u32) + d) as char
}

/// A natural number in decimal digits, without leading zeros.
pub open spec fn digits(n: nat) -> Seq<char>
    decreases n,
{
    if n < 10 {
        seq![digit(n as int)]
    } else {
        digits(n / 10).push(digit((n % 10) as int))
    }
}

/// An integer in decimal.
pub open spec fn decimal(n: int) -> Seq<char> {
    if n < 0 {
        seq!['-'] + digits((-n) as nat)
    } else {
        digits(n as nat)
    }
}

/// A natural number in decimal digits.
pub fn write_u64(n: u64) -> (r: String)
    ensures
        r@ == decimal(n as int),
    decreases n,
{
    let d: u8 = (n % 10) as u8;
    let c: char = (48u8 + d) as char;
    if n < 10 {
        let mut s = String::new();
        s.push(c);
        assert(s@ =~= seq![c]);
        s
    } else {
        let mut s = write_u64(n / 10);
        s.push(c);
        s
    }
}

/// An integer in decimal.
pub fn write_i64(n: i64) -> (r: String)
    ensures
        r@ == decimal(n as int),
{
    if n < 0 {
        let m: u64 = if n == i64::MIN {
            0x8000_0000_0000_0000
        } else {
            (-n) as u64
        };
        let mut s = String::new();
        s.push('-');
        assert(s@ =~= seq!['-']);
        s.append(write_u64(m).as_str());
        s
    } else {
        write_u64(n as u64)
    }
}

pub open spec fn is_digit(c: char) -> bool {
    '0' <= c <= '9'
}

pub open spec fn all_digits(s: Seq<char>) -> bool {
    forall|i: int| 0 <= i < s.len() ==> is_digit(#[trigger] s[i])
}

/// The number that a run of decimal digits stands for.
pub open spec fn number(s: Seq<char>) -> nat
    decreases s.len(),
{
    if s.len() == 0 {
        0
    } else {
        number(s.drop_last()) * 10 + ((s.last() as u32) - ('0' as u32)) as nat
    }
}

/// What a text says as an unsigned number: an optional `+`, then at least one digit and nothing
/// but digits, of a number that fits in 64 bits.
pub open spec fn unsigned(s: Seq<char>) -> Option<u64> {
    let t = if s.len() > 0 && s[0] == '+' {
        s.drop_first()
    } else {
        s
    };
    if t.len() > 0 && all_digits(t) && number(t) <= u64::MAX {
        Some(number(t) as u64)
    } else {
        None
    }
}

proof fn lemma_number_grows(s: Seq<char>, i: int)
    requires
        0 <= i <= s.len(),
        all_digits(s),
    ensures
        number(s.take(i)) <= number(s),
    decreases s.len() - i,
{
    if i < s.len() {
        let t = s.take(i + 1);
        assert(t.drop_last() =~= s.take(i));
        assert(is_digit(s[i]));
        assert(number(t) == number(s.take(i)) * 10 + ((s[i] as u32) - ('0' as u32)) as nat);
        lemma_number_grows(s, i + 1);
    } else {
        assert(s.take(i) =~= s);
    }
}

/// Reads an unsigned decimal number.
pub fn read_u64(s: &str) -> (r: Option<u64>)
    ensures
        r == unsigned(s@),
{
    let v = chars_of(s);
    let from: usize = if v.len() > 0 && v[0] == '+' {
        1
    } else {
        0
    };
    let ghost t = s@.skip(from as int);
    assert(from == 1 ==> t =~= s@.drop_first());
    assert(from == 0 ==> t =~= s@);
    if v.len() == from {
        return None;
    }
    let mut n: u64 = 0;
    let mut i: usize = from;
    assert(t.take(0) =~= Seq::<char>::empty());
    while i < v.len()
        invariant
            from <= i <= v@.len(),
            v@ == s@,
            t == s@.skip(from as int),
            v@.len() > from,
            unsigned(s@) == (if t.len() > 0 && all_digits(t) && number(t) <= u64::MAX {
                Some(number(t) as u64)
            } else {
                None
            }),
            all_digits(t.take(i - from)),
            n == number(t.take(i - from)),
        decreases v@.len() - i,
    {
        let c = v[i];
        assert(t[i - from] == c);
        if !('0' <= c && c <= '9') {
            assert(!is_digit(t[i - from]));
            return None;
        }
        let d: u64 = (c as u8 - 48u8) as u64;
        let ghost next = t.take(i - from + 1);
        assert(next.drop_last() =~= t.take(i - from));
        assert(next.last() == c);
        assert(number(next) == n * 10 + d);
        assert(all_digits(next)) by {
            assert forall|j: int| 0 <= j < next.len() implies is_digit(#[trigger] next[j]) by {
                if j < i - from {
                    assert(next[j] == t.take(i - from)[j]);
                }
            }
        }
        if n > (u64::MAX - d) / 10 {
            proof {
                if all_digits(t) {
                    lemma_number_grows(t, i - from + 1);
                }
            }
            return None;
        }
        n = n * 10 + d;
        i = i + 1;
    }
    assert(t.take(t.len() as int) =~= t);
    Some(n)
}

/// The characters that count as white space, by their numbers.
pub proof fn lemma_what_white_space_is(c: char, r: bool)
    requires
        call_ensures(is_whitespace, (c,), r),
    ensures
        ({
            let n = c as int;
            r <==> (9 <= n <= 13 || n == 32 || n == 0x85 || n == 0xa0 || n == 0x1680 || 0x2000 <= n
                <= 0x200a || n == 0x2028 || n == 0x2029 || n == 0x202f || n == 0x205f || n
                == 0x3000)
        }),
{
}

/// The characters that count as control codes, by their numbers.
pub proof fn lemma_what_a_control_code_is(c: char, r: bool)
    requires
        call_ensures(is_control, (c,), r),
    ensures
        r <==> ((c as int) < 32 || 127 <= c as int <= 159),
{
}

/// Trimming takes off white space at the two ends, all of it, and nothing else.
pub proof fn lemma_trimming_takes_off_the_padding(
    front: Seq<char>,
    core: Seq<char>,
    back: Seq<char>,
    s: &str,
    r: &str,
)
    requires
        call_ensures(trim, (s,), r),
        s@ == front + core + back,
        all_space(front),
        all_space(back),
        core.len() > 0,
        !is_space(core[0]) && !is_space(core.last()),
    ensures
        r@ == core,
{
    let (a, b) = lemma_trimmed_is_a_stretch(s@);
    let n = front.len() as int;
    let m = n + core.len();
    assert(s@[n] == core[0] && s@[m - 1] == core[core.len() - 1]);
    if a == b {
        assert(is_space(s@[n]));
    }
    if a > n {
        assert(is_space(s@[n]));
    }
    if a < n {
        assert(s@[a] == front[a]);
        assert(!is_space(s@[a]));
    }
    if b < m {
        assert(is_space(s@[m - 1]));
    }
    if b > m {
        assert(s@[b - 1] == back[b - 1 - m]);
        assert(!is_space(s@[b - 1]));
    }
    assert(r@ =~= core);
}

/// A text contains whatever stands in it, wherever that is, and nothing that is longer than itself.
pub proof fn lemma_a_text_contains_its_parts(
    front: Seq<char>,
    part: &str,
    back: Seq<char>,
    whole: &str,
    r: bool,
    q: bool,
)
    requires
        whole@ == front + part@ + back,
        call_ensures(contains, (whole, part), r),
        call_ensures(contains, (part, whole), q),
    ensures
        r,
        q <==> front.len() + back.len() == 0,
{
    let n = front.len() as int;
    assert(whole@.subrange(n, n + part@.len()) =~= part@);
    assert(occurs_at(whole@, part@, n));
    if front.len() + back.len() == 0 {
        assert(part@.subrange(0, 0 + whole@.len() as int) =~= whole@);
        assert(occurs_at(part@, whole@, 0));
    }
}

/// What a text contains stands in it somewhere, character for character.
pub proof fn lemma_what_is_contained_stands_there(hay: &str, needle: &str, r: bool)
    requires
        call_ensures(contains, (hay, needle), r),
    ensures
        r ==> exists|i: int|
            0 <= i <= hay@.len() - needle@.len() && #[trigger] hay@.subrange(
                i,
                i + needle@.len(),
            ) == needle@,
{
    if r {
        let i = choose|i: int| #[trigger] occurs_at(hay@, needle@, i);
        assert(hay@.subrange(i, i + needle@.len()) == needle@);
    }
}

pub(crate) proof fn lemma_second_of_three(
    first: Seq<char>,
    second: Seq<char>,
    rest: Seq<char>,
    c: char,
)
    requires
        !first.contains(c),
        !second.contains(c),
    ensures
        second_part(first.push(c) + second.push(c) + rest, c) == Some(second),
{
    let n = first.len() as int;
    let s = first.push(c) + second.push(c) + rest;
    assert forall|j: int| 0 <= j < n implies #[trigger] s[j] != c by {
        assert(s[j] == first[j]);
    }
    lemma_find(s, c, n);
    let t = s.skip(n + 1);
    assert forall|j: int| 0 <= j < second.len() implies #[trigger] t[j] != c by {
        assert(t[j] == second[j]);
    }
    lemma_find(t, c, second.len() as int);
    assert(t.take(second.len() as int) =~= second);
}

/// The second part of a text is what stands between its first two separators, or behind the only
/// one; without a separator there is none.
pub proof fn lemma_the_second_part(
    first: Seq<char>,
    second: Seq<char>,
    rest: Seq<char>,
    c: char,
    whole: &str,
    r: Option<&str>,
)
    requires
        !first.contains(c),
        !second.contains(c),
        call_ensures(split_second, (whole, c), r),
    ensures
        whole@ == first.push(c) + second.push(c) + rest ==> (r matches Some(t) && t@ == second),
        whole@ == first.push(c) + second ==> (r matches Some(t) && t@ == second),
        whole@ == first ==> r is None,
{
    let n = first.len() as int;
    lemma_second_of_three(first, second, rest, c);
    if whole@ == first.push(c) + second {
        let s = whole@;
        assert forall|j: int| 0 <= j < n implies #[trigger] s[j] != c by {
            assert(s[j] == first[j]);
        }
        lemma_find(s, c, n);
        let t = s.skip(n + 1);
        assert(t =~= second);
        assert forall|j: int| 0 <= j < second.len() implies #[trigger] t[j] != c by {
            assert(t[j] == second[j]);
        }
        lemma_find(t, c, second.len() as int);
    }
    if whole@ == first {
        assert forall|j: int| 0 <= j < n implies #[trigger] whole@[j] != c by {
            assert(first[j] != c);
        }
        lemma_find(whole@, c, n);
    }
}

proof fn lemma_digits_are_a_number(n: nat)
    ensures
        digits(n).len() > 0,
        all_digits(digits(n)),
        number(digits(n)) == n,
        n > 0 ==> digits(n)[0] != '0',
    decreases n,
{
    let d = digits(n);
    if n < 10 {
        assert(d.drop_last() =~= Seq::empty());
        assert(d.last() == digit(n as int));
        assert(number(d.drop_last()) == 0);
    } else {
        lemma_digits_are_a_number(n / 10);
        let e = digits(n / 10);
        assert(d.drop_last() =~= e);
        assert(d.last() == digit((n % 10) as int));
        assert(d[0] == e[0]);
        assert forall|i: int| 0 <= i < d.len() implies is_digit(#[trigger] d[i]) by {
            if i < e.len() {
                assert(d[i] == e[i]);
            }
        }
    }
}

/// A number that is written reads back, with a sign in front or without, and is written without
/// leading zeros.
pub proof fn lemma_a_number_reads_back(n: u64, text: &str, written: String, r: Option<u64>)
    requires
        call_ensures(write_u64, (n,), written),
        text@ == written@ || text@ == seq!['+'] + written@,
        call_ensures(read_u64, (text,), r),
    ensures
        r == Some(n),
        n > 0 ==> written@[0] != '0',
        n == 0 ==> written@.len() == 1,
{
    lemma_digits_are_a_number(n as nat);
    assert(is_digit(written@[0]));
    if text@ == seq!['+'] + written@ {
        assert(text@[0] == '+');
        assert(text@.drop_first() =~= written@);
    }
}

/// What holds anything but digits behind an optional sign, or nothing there, is no number.
pub proof fn lemma_what_is_no_number(text: &str, i: int, r: Option<u64>)
    requires
        call_ensures(read_u64, (text,), r),
    ensures
        text@.len() == 0 ==> r is None,
        0 <= i < text@.len() && !is_digit(text@[i]) && !(i == 0 && text@[0] == '+') ==> r is None,
        text@ == seq!['+'] ==> r is None,
{
    if 0 <= i < text@.len() && !is_digit(text@[i]) && !(i == 0 && text@[0] == '+') {
        if text@[0] == '+' {
            assert(text@.drop_first()[i - 1] == text@[i]);
        }
    }
    if text@ == seq!['+'] {
        assert(text@.drop_first().len() == 0);
    }
}

/// A negative number is a minus sign and the number without it.
pub proof fn lemma_a_negative_number(n: u64, written: String, negative: String)
    requires
        0 < n <= i64::MAX,
        call_ensures(write_u64, (n,), written),
        call_ensures(write_i64, ((-(n as int)) as i64,), negative),
    ensures
        negative@ == seq!['-'] + written@,
{
}

} // verus!
