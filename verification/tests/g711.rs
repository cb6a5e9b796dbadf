use codex_mic::g711::{encode_pcm16le, mulaw_encode, MULAW_BIAS, MULAW_MAX};

fn mulaw_decode(byte: u8) -> i16 {
    let b = !byte;
    let sign = b & 0x80;
    let exp = (b >> 4) & 0x07;
    let mant = b & 0x0f;
    let mut s = ((i32::from(mant) << 1) | 0x21) << (exp + 2);
    s -= MULAW_BIAS;
    if sign != 0 {
        -s as i16
    } else {
        s as i16
    }
}

#[test]
fn silence_encodes_to_0xff() {
    assert_eq!(mulaw_encode(0), 0xff);
}

#[test]
fn full_scale_clamps_instead_of_overflowing() {
    let a = mulaw_encode(32_767);
    let b = mulaw_encode(MULAW_MAX as i16);
    assert_eq!(a, b);
    let c = mulaw_encode(-32_768);
    let d = mulaw_encode(-(MULAW_MAX as i16));
    assert_eq!(c, d);
}

#[test]
fn roundtrip_stays_within_quantization_error() {
    for &s in &[0i16, 100, -100, 500, -500, 2_000, -2_000, 8_000, -8_000, 20_000] {
        let decoded = mulaw_decode(mulaw_encode(s));
        let err = (i32::from(decoded) - i32::from(s)).abs();
        let tolerance = (i32::from(s).abs() / 8) + 100;
        assert!(
            err <= tolerance,
            "sample {s} decoded to {decoded}, error {err} > {tolerance}"
        );
    }
}

#[test]
fn block_encoder_matches_byte_count() {
    let pcm: Vec<u8> = (0..320i16).flat_map(|s| (s - 160).to_le_bytes()).collect();
    let mut out = Vec::new();
    encode_pcm16le(&pcm, &mut out);
    assert_eq!(out.len(), 320);
}

#[test]
fn known_bytes_of_known_samples() {
    for (sample, byte) in [
        (0i16, 0xffu8),
        (-1, 0x7f),
        (1000, 0xce),
        (-1000, 0x4e),
        (32_635, 0x80),
        (-32_635, 0x00),
    ] {
        assert_eq!(mulaw_encode(sample), byte, "{sample}");
    }
}

#[test]
fn louder_samples_never_decode_quieter() {
    let mut last = mulaw_decode(mulaw_encode(0));
    for s in 1..=i16::MAX {
        let d = mulaw_decode(mulaw_encode(s));
        assert!(d >= last);
        last = d;
    }
}

#[test]
fn negative_samples_mirror_positive_ones() {
    for s in 1..=i16::MAX {
        assert_eq!(mulaw_encode(s) & 0x7f, mulaw_encode(-s) & 0x7f);
        assert_ne!(mulaw_encode(s), mulaw_encode(-s));
    }
}

#[test]
fn block_encoder_drops_old_content_and_an_odd_byte() {
    let mut out = vec![1, 2, 3];
    encode_pcm16le(&[0, 0, 7], &mut out);
    assert_eq!(out, vec![0xff]);
}
