use agl::encodings::{bytes_to_text, text_to_bytes, EncodingError, StringEncoding};

#[test]
fn text_encodings() {
    assert_eq!(text_to_bytes("abc".as_bytes(), None).unwrap(), &[97, 98, 99]);
    assert_eq!(text_to_bytes(&[1, 2, 3], None).unwrap(), &[1, 2, 3]);

    assert_eq!(text_to_bytes("абоба".as_bytes(), None).unwrap(), &[208, 176, 208, 177, 208, 190, 208, 177, 208, 176]);
    assert_eq!(text_to_bytes("абоба".as_bytes(), Some(b"cp1251")).unwrap(), &[224, 225, 238, 225, 224]);

    assert_eq!(bytes_to_text(&[97, 98, 99], None).unwrap(), b"abc");

    assert_eq!(bytes_to_text(&[208, 176, 208, 177, 208, 190, 208, 177, 208, 176], None).unwrap(), "абоба".as_bytes());
    assert_eq!(bytes_to_text(&[224, 225, 238, 225, 224], Some(b"cp1251")).unwrap(), "абоба".as_bytes());
}

#[test]
fn text_formats() {
    let encodings = [
        ("hex",                  "48656c6c6f2c20576f726c6421"),
        ("base16",               "48656c6c6f2c20576f726c6421"),
        ("base32",               "jbswy3dpfqqfo33snrscc==="),
        ("base32/pad",           "jbswy3dpfqqfo33snrscc==="),
        ("base32/nopad",         "jbswy3dpfqqfo33snrscc"),
        ("base32/hex-pad",       "91imor3f5gg5erridhi22==="),
        ("base32/hex-nopad",     "91imor3f5gg5erridhi22"),
        ("base64",               "SGVsbG8sIFdvcmxkIQ=="),
        ("base64/pad",           "SGVsbG8sIFdvcmxkIQ=="),
        ("base64/urlsafe-pad",   "SGVsbG8sIFdvcmxkIQ=="),
    ];

    for (name, value) in encodings {
        let encoding = StringEncoding::from_str(name).unwrap();
        let encoded = encoding.encode_bytes(b"Hello, World!").unwrap();
        let decoded = encoding.decode_bytes(value).unwrap();

        assert_eq!(encoded, value);
        assert_eq!(decoded.as_slice(), b"Hello, World!");
    }
}

#[test]
fn structured_encodings_take_no_bytes() {
    for name in ["json", "json/compact", "json/pretty", "bson", "toml", "toml/pretty", "yaml"] {
        let e = StringEncoding::from_str(name).unwrap();
        assert!(!e.is_byte_encoding());
        assert_eq!(e.encode_bytes(b"x"), Err(EncodingError::NotBytes));
        assert_eq!(e.decode_bytes("x"), Err(EncodingError::NotBytes));
    }
    assert_eq!(StringEncoding::from_str("json/pretty").unwrap(), StringEncoding::Json { pretty: true });
    assert_eq!(StringEncoding::from_str("base85"), Err(EncodingError::InvalidEncoding));
}

#[test]
fn invalid_texts_and_charsets() {
    let hex = StringEncoding::from_str("hex").unwrap();
    assert_eq!(hex.decode_bytes("abc"), Err(EncodingError::InvalidText));
    assert_eq!(hex.decode_bytes("zz"), Err(EncodingError::InvalidText));
    assert_eq!(hex.decode_bytes("FF00").unwrap(), vec![255, 0]);
    let b64 = StringEncoding::from_str("base64").unwrap();
    assert_eq!(b64.decode_bytes("@@@@"), Err(EncodingError::InvalidText));
    // Unpadded base64 of a length that needed padding is refused.
    let nopad = StringEncoding::from_str("base64/nopad").unwrap();
    assert_eq!(nopad.encode_bytes(b"Hello, World!").unwrap(), "SGVsbG8sIFdvcmxkIQ");
    assert_eq!(nopad.decode_bytes("SGVsbG8sIFdvcmxkIQ"), Err(EncodingError::InvalidText));
    assert_eq!(nopad.decode_bytes("YWJj").unwrap(), b"abc");
    assert_eq!(text_to_bytes(b"abc", Some(b"no-such-charset")), Err(EncodingError::InvalidCharset));
    assert_eq!(bytes_to_text(b"abc", Some(b"no-such-charset")), Err(EncodingError::InvalidCharset));
    assert_eq!(text_to_bytes(&[0xff, 0xfe, 0x41], Some(b"cp1251")), Err(EncodingError::NotUtf8));
}

#[test]
fn hex_round_trip() {
    let hex = StringEncoding::Base16;
    let data: Vec<u8> = (0u8..=255).collect();
    let text = hex.encode_bytes(&data).unwrap();
    assert_eq!(text.len(), 512);
    assert_eq!(hex.decode_bytes(&text).unwrap(), data);
    assert_eq!(hex.decode_bytes(&text.to_uppercase()).unwrap(), data);
}
