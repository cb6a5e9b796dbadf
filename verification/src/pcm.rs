//! 16-bit little-endian PCM: bytes to samples and back.

use vstd::prelude::*;

verus! {

/// The signed sample that two little-endian bytes stand for.
pub open spec fn sample(lo: u8, hi: u8) -> int {
    let u = lo + 256 * hi;
    if u >= 32768 {
        u - 65536
    } else {
        u
    }
}

/// How many whole samples a run of bytes holds. An odd last byte belongs to none.
pub open spec fn sample_count(pcm: Seq<u8>) -> nat {
    pcm.len() / 2
}

/// The `i`-th sample of a run of bytes.
pub open spec fn sample_at(pcm: Seq<u8>, i: int) -> int {
    sample(pcm[2 * i], pcm[2 * i + 1])
}

/// The low byte of a sample's two's complement form.
pub open spec fn low_byte(s: int) -> u8 {
    (s % 256) as u8
}

/// The high byte of a sample's two's complement form.
pub open spec fn high_byte(s: int) -> u8 {
    ((s / 256) % 256) as u8
}

/// The little-endian bytes of a run of samples.
pub open spec fn bytes_of(samples: Seq<i16>) -> Seq<u8> {
    Seq::new(
        2 * samples.len(),
        |k: int|
            if k % 2 == 0 {
                low_byte(samples[k / 2] as int)
            } else {
                high_byte(samples[k / 2] as int)
            },
    )
}

/// Reading back the bytes of a sample gives the sample.
pub proof fn lemma_sample_round_trip(s: i16)
    ensures
        sample(low_byte(s as int), high_byte(s as int)) == s,
{
}

/// Reading back the bytes of a run of samples gives the samples, all of them and no other.
pub proof fn lemma_bytes_round_trip(samples: Seq<i16>)
    ensures
        sample_count(bytes_of(samples)) == samples.len(),
        forall|i: int|
            0 <= i < samples.len() ==> #[trigger] sample_at(bytes_of(samples), i) == samples[i],
{
    let b = bytes_of(samples);
    assert forall|i: int| 0 <= i < samples.len() implies #[trigger] sample_at(b, i)
        == samples[i] by {
        assert((2 * i) / 2 == i && (2 * i) % 2 == 0);
        assert((2 * i + 1) / 2 == i && (2 * i + 1) % 2 == 1);
        lemma_sample_round_trip(samples[i]);
    }
}

/// The signed sample of two little-endian bytes.
pub fn from_le_bytes(lo: u8, hi: u8) -> (r: i16)
    ensures
        r == sample(lo, hi),
{
    let u: i32 = lo as i32 + 256 * (hi as i32);
    if u >= 32768 {
        (u - 65536) as i16
    } else {
        u as i16
    }
}

/// The two little-endian bytes of a sample.
pub fn to_le_bytes(s: i16) -> (r: (u8, u8))
    ensures
        r.0 == low_byte(s as int),
        r.1 == high_byte(s as int),
{
    let u: u32 = if s < 0 {
        (s as i32 + 65536) as u32
    } else {
        s as u32
    };
    ((u % 256) as u8, (u / 256) as u8)
}

/// The little-endian bytes of a run of samples, in order.
pub fn to_bytes(samples: &[i16]) -> (r: Vec<u8>)
    ensures
        r@ == bytes_of(samples@),
{
    let mut out: Vec<u8> = Vec::new();
    for i in 0..samples.len()
        invariant
            out@ =~= bytes_of(samples@.take(i as int)),
    {
        let (lo, hi) = to_le_bytes(samples[i]);
        out.push(lo);
        out.push(hi);
        proof {
            let a = samples@.take(i as int);
            let b = samples@.take(i + 1);
            assert forall|k: int| 0 <= k < 2 * b.len() implies #[trigger] out@[k] == bytes_of(
                b,
            )[k] by {
                if k < 2 * i {
                    assert(out@[k] == bytes_of(a)[k]);
                    assert(a[k / 2] == b[k / 2]);
                } else {
                    assert(k / 2 == i);
                }
            }
        }
    }
    assert(samples@.take(samples@.len() as int) =~= samples@);
    out
}

/// Two bytes stand for the sample that their number is, the low byte first, taken as signed; and the
/// bytes of a sample stand for it again.
pub proof fn lemma_the_low_byte_comes_first(lo: u8, hi: u8, r: i16, back: (u8, u8))
    requires
        call_ensures(from_le_bytes, (lo, hi), r),
        call_ensures(to_le_bytes, (r,), back),
    ensures
        hi < 128 ==> r == lo + 256 * hi,
        hi >= 128 ==> r == lo + 256 * hi - 65536,
        back.0 == lo && back.1 == hi,
{
    let u = lo + 256 * hi;
    assert(u % 256 == lo && u / 256 == hi);
    if hi >= 128 {
        assert((u - 65536) % 256 == lo);
        assert((u - 65536) / 256 == hi - 256);
    }
}

/// Samples are written one after another, two bytes each.
pub proof fn lemma_samples_are_written_in_order(samples: &[i16], r: Vec<u8>, i: int, pair: (u8, u8))
    requires
        call_ensures(to_bytes, (samples,), r),
        0 <= i < samples@.len(),
        call_ensures(to_le_bytes, (samples@[i],), pair),
    ensures
        r@.len() == 2 * samples@.len(),
        r@[2 * i] == pair.0 && r@[2 * i + 1] == pair.1,
{
    assert((2 * i) / 2 == i && (2 * i) % 2 == 0);
    assert((2 * i + 1) / 2 == i && (2 * i + 1) % 2 == 1);
}

} // verus!
