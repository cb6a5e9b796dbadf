use codex_mic::pcm::{from_le_bytes, to_bytes, to_le_bytes};

#[test]
fn samples_become_bytes_and_come_back() {
    for s in i16::MIN..=i16::MAX {
        let (lo, hi) = to_le_bytes(s);
        assert_eq!([lo, hi], s.to_le_bytes());
        assert_eq!(from_le_bytes(lo, hi), s);
    }
    assert_eq!(to_bytes(&[1, -2]), [1, 0, 0xfe, 0xff]);
    assert!(to_bytes(&[]).is_empty());
}
