use base64::Engine;
use codex_mic::encoding::decode_base64url;

#[test]
fn encoded_bytes_come_back() {
    let engine = base64::engine::general_purpose::URL_SAFE_NO_PAD;
    for n in 0..20usize {
        let bytes: Vec<u8> = (0..n).map(|i| (i * 89 + 250) as u8).collect();
        let text = engine.encode(&bytes);
        assert_eq!(decode_base64url(&text), Some(bytes));
    }
    assert_eq!(decode_base64url("-_8"), Some(vec![0xfb, 0xff]));
}

#[test]
fn only_what_can_be_encoded_is_decoded() {
    for text in ["A", "AAAAA", "AA==", "A+A", "A/A", "AB", "AAB", "A A", "한", "AAA\n"] {
        assert_eq!(decode_base64url(text), None, "{text:?}");
    }
    assert_eq!(decode_base64url(""), Some(vec![]));
}
