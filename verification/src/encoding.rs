//! Base64, as audio goes over the wire and as a token carries its payload.

use base64::Engine;
use vstd::prelude::*;

verus! {

/// The character of a 6-bit number. The last two differ between the two alphabets.
pub open spec fn symbol(v: int, url_safe: bool) -> char {
    if v < 26 {
        ('A' as u32 + v) as char
    } else if v < 52 {
        ('a' as u32 + (v - 26)) as char
    } else if v < 62 {
        ('0' as u32 + (v - 52)) as char
    } else if v == 62 {
        if url_safe {
            '-'
        } else {
            '+'
        }
    } else if url_safe {
        '_'
    } else {
        '/'
    }
}

/// A byte, zero behind the end.
pub open spec fn byte_or_zero(b: Seq<u8>, i: int) -> int {
    if i < b.len() {
        b[i] as int
    } else {
        0
    }
}

/// The 6-bit number at a place: three bytes give four numbers, high bits first.
pub open spec fn sextet(b: Seq<u8>, p: int) -> int {
    let i = p / 4 * 3;
    if p % 4 == 0 {
        byte_or_zero(b, i) / 4
    } else if p % 4 == 1 {
        byte_or_zero(b, i) % 4 * 16 + byte_or_zero(b, i + 1) / 16
    } else if p % 4 == 2 {
        byte_or_zero(b, i + 1) % 16 * 4 + byte_or_zero(b, i + 2) / 64
    } else {
        byte_or_zero(b, i + 2) % 64
    }
}

/// The number of characters that carry bits of `n` bytes.
pub open spec fn carriers(n: int) -> int {
    (4 * n + 2) / 3
}

/// Base64 in the standard alphabet, padded with `=` to a multiple of four characters.
pub open spec fn base64(b: Seq<u8>) -> Seq<char> {
    Seq::new(
        ((b.len() + 2) / 3 * 4) as nat,
        |p: int|
            if p < carriers(b.len() as int) {
                symbol(sextet(b, p), false)
            } else {
                '='
            },
    )
}

/// Base64 in the alphabet for URLs, without padding.
pub open spec fn base64url(b: Seq<u8>) -> Seq<char> {
    Seq::new(carriers(b.len() as int) as nat, |p: int| symbol(sextet(b, p), true))
}

/// The bytes that a text in base64 for URLs stands for, if it stands for any.
pub open spec fn base64url_bytes(s: Seq<char>) -> Option<Seq<u8>> {
    if exists|b: Seq<u8>| base64url(b) == s {
        Some(choose|b: Seq<u8>| base64url(b) == s)
    } else {
        None
    }
}

proof fn lemma_symbol_injective(v: int, w: int)
    requires
        0 <= v < 64,
        0 <= w < 64,
        symbol(v, true) == symbol(w, true),
    ensures
        v == w,
{
}

/// A text in base64 stands for one run of bytes only.
pub proof fn lemma_base64url_injective(a: Seq<u8>, b: Seq<u8>)
    requires
        base64url(a) == base64url(b),
    ensures
        a == b,
{
    let s = base64url(a);
    let t = base64url(b);
    assert(s.len() == t.len());
    let n = a.len() as int;
    let m = b.len() as int;
    assert(carriers(n) == carriers(m));
    assert(n == m);
    assert forall|i: int| 0 <= i < n implies a[i] == b[i] by {
        let p = i / 3 * 4 + i % 3;
        assert(p + 1 < carriers(n));
        assert(s[p] == t[p] && s[p + 1] == t[p + 1]);
        lemma_symbol_injective(sextet(a, p), sextet(b, p));
        lemma_symbol_injective(sextet(a, p + 1), sextet(b, p + 1));
        assert(p / 4 * 3 == i / 3 * 3);
        assert((p + 1) / 4 * 3 == i / 3 * 3);
    }
    assert(a =~= b);
}

/// Two runs of bytes never have one text in padded base64.
pub proof fn lemma_base64_injective(a: Seq<u8>, b: Seq<u8>)
    requires
        base64(a) == base64(b),
    ensures
        a == b,
{
    let s = base64(a);
    let t = base64(b);
    let n = a.len() as int;
    let m = b.len() as int;
    assert(s.len() == t.len());
    if carriers(n) < carriers(m) {
        assert(s[carriers(n)] == '=');
        assert(t[carriers(n)] == symbol(sextet(b, carriers(n)), false));
        lemma_sextet_is_small(b, carriers(n));
    }
    if carriers(m) < carriers(n) {
        assert(t[carriers(m)] == '=');
        assert(s[carriers(m)] == symbol(sextet(a, carriers(m)), false));
        lemma_sextet_is_small(a, carriers(m));
    }
    assert(n == m);
    assert forall|i: int| 0 <= i < n implies a[i] == b[i] by {
        let p = i / 3 * 4 + i % 3;
        assert(p + 1 < carriers(n));
        assert(s[p] == t[p] && s[p + 1] == t[p + 1]);
        lemma_sextet_is_small(a, p);
        lemma_sextet_is_small(a, p + 1);
        lemma_sextet_is_small(b, p);
        lemma_sextet_is_small(b, p + 1);
        assert(p / 4 * 3 == i / 3 * 3);
        assert((p + 1) / 4 * 3 == i / 3 * 3);
    }
    assert(a =~= b);
}

proof fn lemma_sextet_is_small(b: Seq<u8>, p: int)
    requires
        p >= 0,
    ensures
        0 <= sextet(b, p) < 64,
{
}

/// What each byte is, by the two numbers of six bits that carry it, high bits first.
pub proof fn lemma_bytes_are_carried_high_bits_first(b: Seq<u8>, i: int)
    requires
        0 <= i < b.len(),
    ensures
        ({
            let p = i / 3 * 4 + i % 3;
            b[i] == (if i % 3 == 0 {
                sextet(b, p) * 4 + sextet(b, p + 1) / 16
            } else if i % 3 == 1 {
                sextet(b, p) % 16 * 16 + sextet(b, p + 1) / 4
            } else {
                sextet(b, p) % 4 * 64 + sextet(b, p + 1)
            })
        }),
{
    let p = i / 3 * 4 + i % 3;
    assert(p / 4 * 3 == i / 3 * 3);
    assert((p + 1) / 4 * 3 == i / 3 * 3);
}

/// `base64`'s `STANDARD.encode`: the bytes in base64, padded. More than a quarter of the address
/// space is left out, where the text could not be allocated.
#[verifier::external_body]
pub(crate) fn encode_base64(b: &[u8]) -> (r: String)
    requires
        b@.len() <= usize::MAX / 4,
    ensures
        r@ == base64(b@),
{
    base64::engine::general_purpose::STANDARD.encode(b)
}

/// `base64`'s `URL_SAFE_NO_PAD.decode`: it takes exactly the texts that its own encoding gives,
/// and gives back what was encoded. It refuses padding, other characters, a length that cannot
/// be, and bits behind the last byte that are not zero.
#[verifier::external_body]
fn url_safe_decode(s: &str) -> (r: Option<Vec<u8>>)
    ensures
        match r {
            Some(b) => base64url(b@) == s@,
            None => forall|b: Seq<u8>| base64url(b) != s@,
        },
{
    match base64::engine::general_purpose::URL_SAFE_NO_PAD.decode(s) {
        Ok(b) => Some(b),
        Err(_) => None,
    }
}

/// The bytes that a text in base64 for URLs stands for.
pub fn decode_base64url(s: &str) -> (r: Option<Vec<u8>>)
    ensures
        r is Some <==> base64url_bytes(s@) is Some,
        r matches Some(b) ==> base64url_bytes(s@) == Some(b@),
{
    let r = url_safe_decode(s);
    proof {
        if r is Some {
            let b = r->Some_0@;
            let c = choose|c: Seq<u8>| base64url(c) == s@;
            assert(base64url(b) == s@);
            assert(base64url(c) == s@);
            lemma_base64url_injective(b, c);
        }
    }
    r
}

/// What was encoded comes back.
pub proof fn lemma_base64url_round_trip(b: Seq<u8>)
    ensures
        base64url_bytes(base64url(b)) == Some(b),
{
    let s = base64url(b);
    let c = choose|c: Seq<u8>| base64url(c) == s;
    assert(base64url(c) == s);
    lemma_base64url_injective(b, c);
}

} // verus!
