use zerotier_utils::base64::{from_string, to_string};

#[test]
fn base64_encodes_without_padding() {
    assert_eq!(to_string(b""), "");
    assert_eq!(to_string(b"h"), "aA");
    assert_eq!(to_string(b"he"), "aGU");
    assert_eq!(to_string(b"hel"), "aGVs");
    assert_eq!(to_string(b"hello"), "aGVsbG8");
}

#[test]
fn base64_uses_the_url_safe_alphabet() {
    assert_eq!(to_string(&[0xfb, 0xff]), "-_8");
    assert_eq!(from_string(b"-_8"), Some(vec![0xfb, 0xff]));
    assert_eq!(from_string(b"+/8"), None);
}

#[test]
fn base64_decodes_and_refuses() {
    assert_eq!(from_string(b"aGVsbG8"), Some(b"hello".to_vec()));
    assert_eq!(from_string(b""), Some(Vec::new()));
    assert_eq!(from_string(b"aGVsbG8="), None);
    assert_eq!(from_string(b"!!!"), None);
    assert_eq!(from_string(b"a"), None);
}

#[test]
fn base64_round_trip() {
    let bytes: Vec<u8> = (0..=255).collect();
    for n in 0..bytes.len() {
        let text = to_string(&bytes[..n]);
        assert_eq!(from_string(text.as_bytes()), Some(bytes[..n].to_vec()));
    }
}
