use mqtt_auth::hex::decode_hex;

#[test]
fn decodes_hex_pairs() {
    assert_eq!(decode_hex("00ff10Ab"), Some(vec![0x00, 0xff, 0x10, 0xab]));
    assert_eq!(decode_hex(""), Some(vec![]));
    assert_eq!(decode_hex("abc"), None);
    assert_eq!(decode_hex("0g"), None);
    assert_eq!(decode_hex("zz"), None);
}
