use govee::base64::{base64_decode, base64_encode};

#[test]
fn texts_are_padded() {
    assert_eq!(base64_encode(b""), "");
    assert_eq!(base64_encode(b"f"), "Zg==");
    assert_eq!(base64_encode(b"fo"), "Zm8=");
    assert_eq!(base64_encode(b"foo"), "Zm9v");
    assert_eq!(base64_encode(&[0xfb, 0xff, 0xbf, 0x00]), "+/+/AA==");
    for n in 0..=255u8 {
        let data = vec![n, 255 - n, 7, n];
        assert_eq!(base64_decode(&base64_encode(&data)).unwrap(), data);
    }
}

#[test]
fn any_four_characters_may_end_in_padding() {
    assert_eq!(
        base64_decode("SGVsbA==byB3b3JsZA==").unwrap(),
        b"Hello world"
    );
    for bad in [
        "Q", "QQ", "QQQ", "QQ=Q", "Q===", "====", "QR==", "QUF=", "QQ=\u{e9}", "QQ-_", "Q Q=",
    ] {
        assert!(base64_decode(bad).is_err(), "{bad}");
    }
}
