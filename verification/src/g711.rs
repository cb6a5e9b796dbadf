//! G.711 mu-law encoding.
//!
//! A sample's magnitude is clipped and biased, so that it lies in one of eight segments, each
//! twice as wide as the one before. A byte holds the sign, the segment and which sixteenth of
//! the segment the magnitude falls in, all bits inverted.

use vstd::prelude::*;

use crate::pcm;
use vstd::arithmetic::power2::{lemma2_to64, pow2};

verus! {

pub const MULAW_MAX: i32 = 32_635;

pub const MULAW_BIAS: i32 = 0x84;

pub open spec fn abs(n: int) -> int {
    if n < 0 {
        -n
    } else {
        n
    }
}

/// The clipped and biased magnitude of a sample.
pub open spec fn biased(s: int) -> int {
    MULAW_BIAS + if abs(s) > MULAW_MAX {
        MULAW_MAX as int
    } else {
        abs(s)
    }
}

/// Where segment `e` begins: 128, and twice as far for each segment. The last one ends at 32768.
pub open spec fn segment_start(e: int) -> int {
    if e <= 0 {
        128
    } else if e == 1 {
        256
    } else if e == 2 {
        512
    } else if e == 3 {
        1024
    } else if e == 4 {
        2048
    } else if e == 5 {
        4096
    } else if e == 6 {
        8192
    } else if e == 7 {
        16384
    } else {
        32768
    }
}

/// The segment that a biased magnitude lies in.
pub open spec fn segment_of(m: int) -> int {
    if m < 256 {
        0
    } else if m < 512 {
        1
    } else if m < 1024 {
        2
    } else if m < 2048 {
        3
    } else if m < 4096 {
        4
    } else if m < 8192 {
        5
    } else if m < 16384 {
        6
    } else {
        7
    }
}

/// How wide a sixteenth of segment `e` is.
pub open spec fn step(e: int) -> int {
    segment_start(e) / 16
}

/// Which sixteenth of its segment a biased magnitude falls in.
pub open spec fn sixteenth_of(m: int) -> int {
    (m - segment_start(segment_of(m))) / step(segment_of(m))
}

/// The mu-law byte of a sample.
pub open spec fn mulaw(s: int) -> int {
    let sign = if s < 0 {
        128int
    } else {
        0
    };
    255 - (sign + 16 * segment_of(biased(s)) + sixteenth_of(biased(s)))
}

/// The sample that a mu-law byte stands for: the middle of its sixteenth, with the bias taken
/// off again.
pub open spec fn decoded(byte: int) -> int {
    let c = 255 - byte;
    let e = (c % 128) / 16;
    let m = segment_start(e) + (c % 16) * step(e) + step(e) / 2 - MULAW_BIAS;
    if c >= 128 {
        -m
    } else {
        m
    }
}

proof fn lemma_sixteenth(m: int, e: int)
    requires
        128 <= m < 32768,
        e == segment_of(m),
    ensures
        segment_start(e) <= m,
        16 * step(e) == segment_start(e),
        step(e) > 0,
        step(e) % 2 == 0,
        ({
            let q = (m - segment_start(e)) / step(e);
            0 <= q < 16 && q * step(e) <= m - segment_start(e) < q * step(e) + step(e)
        }),
{
    if e == 0 {
        assert(step(e) == 8);
    } else if e == 1 {
        assert(step(e) == 16);
    } else if e == 2 {
        assert(step(e) == 32);
    } else if e == 3 {
        assert(step(e) == 64);
    } else if e == 4 {
        assert(step(e) == 128);
    } else if e == 5 {
        assert(step(e) == 256);
    } else if e == 6 {
        assert(step(e) == 512);
    } else {
        assert(step(e) == 1024);
    }
}

/// A sample and its decoded form differ by no more than half of a sixteenth of its segment,
/// which is at most one part in 32 of the biased magnitude.
pub proof fn lemma_quantization_error(s: int)
    requires
        -MULAW_MAX <= s <= MULAW_MAX,
    ensures
        32 * abs(decoded(mulaw(s)) - s) <= abs(s) + MULAW_BIAS,
{
    let m = biased(s);
    let e = segment_of(m);
    let q = sixteenth_of(m);
    assert(q == (m - segment_start(e)) / step(e));
    lemma_sixteenth(m, e);
    let c = 255 - mulaw(s);
    assert(c % 16 == q && (c % 128) / 16 == e && (c >= 128 <==> s < 0));
}

/// A sample and its negative differ in the sign bit alone.
pub proof fn lemma_mirrored(s: int)
    requires
        s > 0,
    ensures
        mulaw(-s) == mulaw(s) - 128,
{
}

/// Beyond the clipping level every sample is encoded like the level itself.
pub proof fn lemma_clips(s: int)
    ensures
        s >= MULAW_MAX ==> mulaw(s) == mulaw(MULAW_MAX as int),
        s <= -MULAW_MAX ==> mulaw(s) == mulaw(-MULAW_MAX as int),
{
}

/// Of two samples of one sign the louder never has the larger byte.
pub proof fn lemma_monotone(a: int, b: int)
    requires
        0 <= a <= b,
    ensures
        mulaw(b) <= mulaw(a),
        b > 0 && a > 0 ==> mulaw(-b) <= mulaw(-a),
{
    let x = biased(a);
    let y = biased(b);
    let e = segment_of(x);
    let f = segment_of(y);
    assert(sixteenth_of(x) == (x - segment_start(e)) / step(e));
    assert(sixteenth_of(y) == (y - segment_start(f)) / step(f));
    lemma_sixteenth(x, e);
    lemma_sixteenth(y, f);
    if e == f {
        vstd::arithmetic::div_mod::lemma_div_is_ordered(
            x - segment_start(e),
            y - segment_start(e),
            step(e),
        );
    }
}

/// The mu-law byte of one sample.
pub fn mulaw_encode(sample: i16) -> (r: u8)
    ensures
        r == mulaw(sample as int),
{
    let negative = sample < 0;
    let magnitude: i32 = if negative {
        -(sample as i32)
    } else {
        sample as i32
    };
    let clipped: i32 = if magnitude > MULAW_MAX {
        MULAW_MAX
    } else {
        magnitude
    };
    let m: i32 = clipped + MULAW_BIAS;
    let mut e: u8 = 7;
    let mut start: i32 = 0x4000;
    while e > 0 && m < start
        invariant
            e <= 7,
            start == segment_start(e as int),
            128 <= start <= 16384,
            m == biased(sample as int),
            128 <= m < segment_start(e + 1),
        decreases e,
    {
        e = e - 1;
        start = start / 2;
    }
    proof {
        lemma_sixteenth(m as int, e as int);
    }
    let sixteenth: u8 = ((m - start) / (start / 16)) as u8;
    let sign: u8 = if negative {
        0x80
    } else {
        0
    };
    255 - (sign + 16 * e + sixteenth)
}

/// Encodes a block of little-endian PCM16. What `out` held before is dropped, and so is an odd
/// last byte.
pub fn encode_pcm16le(pcm: &[u8], out: &mut Vec<u8>)
    ensures
        final(out)@.len() == pcm::sample_count(pcm@),
        forall|i: int|
            0 <= i < pcm::sample_count(pcm@) ==> #[trigger] final(out)@[i] == mulaw(
                pcm::sample_at(pcm@, i),
            ),
{
    out.clear();
    let len: usize = pcm.len();
    let n: usize = len / 2;
    for i in 0..n
        invariant
            len == pcm@.len(),
            n == len / 2,
            out@.len() == i,
            forall|j: int| 0 <= j < i ==> #[trigger] out@[j] == mulaw(pcm::sample_at(pcm@, j)),
    {
        out.push(mulaw_encode(pcm::from_le_bytes(pcm[2 * i], pcm[2 * i + 1])));
    }
}

/// A byte tells the sign of its sample in its highest bit, which is set where the sample is not
/// negative, and in the three below it how loud the sample is: each of the eight steps is twice as
/// far up as the one before, and the loudest has the lowest number.
pub proof fn lemma_what_a_byte_tells(s: i16, r: u8)
    requires
        call_ensures(mulaw_encode, (s,), r),
    ensures
        ({
            let loud = 132 + if abs(s as int) > 32_635 {
                32_635
            } else {
                abs(s as int)
            };
            let step = 7 - r as int % 128 / 16;
            &&& r >= 128 <==> s >= 0
            &&& 0 <= step <= 7
            &&& 128 * pow2(step as nat) <= loud < 256 * pow2(step as nat)
            &&& (15 - r as int % 16) * (8 * pow2(step as nat)) <= loud - 128 * pow2(step as nat)
                < (16 - r as int % 16) * (8 * pow2(step as nat))
        }),
{
    let m = biased(s as int);
    let e = segment_of(m);
    lemma_sixteenth(m, e);
    let q = sixteenth_of(m);
    assert(q == (m - segment_start(e)) / step(e));
    lemma_segments_double(e);
    let c = 255 - r as int;
    assert(c % 16 == q && (c % 128) / 16 == e && (c >= 128 <==> s < 0));
    assert(r as int % 128 / 16 == 7 - e);
    assert(r as int % 16 == 15 - q);
    let p = pow2(e as nat) as int;
    assert(segment_start(e) <= m < 2 * segment_start(e));
    assert(q * step(e) <= m - segment_start(e) < q * step(e) + step(e));
    assert((q + 1) * step(e) == q * step(e) + step(e)) by (nonlinear_arith);
    assert(128 * p <= m < 256 * p);
    assert(q * (8 * p) <= m - 128 * p < (q + 1) * (8 * p));
}

proof fn lemma_segments_double(e: int)
    requires
        0 <= e <= 7,
    ensures
        segment_start(e) == 128 * pow2(e as nat),
        step(e) == 8 * pow2(e as nat),
        e < 7 ==> segment_start(e + 1) == 256 * pow2(e as nat),
{
    lemma2_to64();
}

/// A block is encoded sample by sample, in order, whatever the buffer held before.
pub proof fn lemma_a_block_is_encoded_in_order(
    pcm: &[u8],
    out: &mut Vec<u8>,
    i: int,
    s: i16,
    byte: u8,
)
    requires
        call_ensures(encode_pcm16le, (pcm, out), ()),
        0 <= i < pcm@.len() / 2,
        call_ensures(pcm::from_le_bytes, (pcm@[2 * i], pcm@[2 * i + 1]), s),
        call_ensures(mulaw_encode, (s,), byte),
    ensures
        final(out)@.len() == pcm@.len() / 2,
        final(out)@[i] == byte,
{
}

} // verus!
