use sekou_taisei::encoding::{decode_base64, encode_base64};

#[test]
fn base64_of_ascii_and_japanese() {
    assert_eq!(encode_base64("Man"), Some("TWFu".to_string()));
    assert_eq!(encode_base64("Ma"), Some("TWE=".to_string()));
    assert_eq!(encode_base64("M"), Some("TQ==".to_string()));
    assert_eq!(encode_base64(""), Some("".to_string()));
    assert_eq!(encode_base64("日本"), Some("5pel5pys".to_string()));
}

#[test]
fn base64_round_trip() {
    for s in ["", "a", "施工体制", "{\"project_name\":\"現場\"}"] {
        let e = encode_base64(s).unwrap();
        assert_eq!(decode_base64(&e), Some(s.to_string()));
    }
}

#[test]
fn invalid_base64_or_utf8() {
    assert_eq!(decode_base64("!!!"), None);
    assert_eq!(decode_base64("/w=="), None);
    assert_eq!(decode_base64("TWFu"), Some("Man".to_string()));
}

#[test]
fn only_canonical_base64_decodes() {
    assert_eq!(decode_base64("QQ=="), Some("A".to_string()));
    assert_eq!(decode_base64("QR=="), None);
    assert_eq!(decode_base64("QQ"), None);
    assert_eq!(decode_base64("QQ=="), decode_base64(&encode_base64("A").unwrap()));
    assert_eq!(decode_base64(""), Some(String::new()));
}
