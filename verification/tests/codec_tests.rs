use siteproxy::codec::{encode, decode_url, DecodeError};

#[test]
fn encode_known_values() {
    assert_eq!(encode(b"AB"), b"4142".to_vec());
    assert_eq!(encode(&[0u8, 255u8]), b"00ff".to_vec());
    assert_eq!(encode(b""), b"".to_vec());
}

#[test]
fn encode_matches_hex_crate() {
    let inputs: Vec<Vec<u8>> = vec![
        b"".to_vec(),
        b"https://example.com/a?b=c".to_vec(),
        vec![0, 1, 2, 127, 128, 254, 255],
    ];
    for i in inputs {
        assert_eq!(encode(&i), hex::encode(&i).into_bytes());
    }
}

#[test]
fn round_trip_utf8_text() {
    let texts = ["", "hello", "https://ex.com/p\u{e4}ge?q=1", "\u{65e5}\u{672c}\u{8a9e}"];
    for t in texts {
        assert_eq!(decode_url(&encode(t.as_bytes())).unwrap(), t.as_bytes().to_vec());
    }
}

#[test]
fn decode_rejects_bad_hex() {
    assert_eq!(decode_url(b"zz"), Err(DecodeError::InvalidHex));
    assert_eq!(decode_url(b"abc"), Err(DecodeError::InvalidHex));
    assert_eq!(decode_url(b"4 42"), Err(DecodeError::InvalidHex));
}

#[test]
fn decode_rejects_non_utf8() {
    assert_eq!(decode_url(b"ff"), Err(DecodeError::InvalidUtf8));
    assert_eq!(decode_url(b"FF"), Err(DecodeError::InvalidUtf8));
    assert_eq!(decode_url(b"c328"), Err(DecodeError::InvalidUtf8));
}

#[test]
fn decode_accepts_uppercase_hex() {
    assert_eq!(decode_url(b"4142").unwrap(), b"AB".to_vec());
    assert_eq!(decode_url(b"4A").unwrap(), b"J".to_vec());
}

#[test]
fn decode_empty_token() {
    assert_eq!(decode_url(b"").unwrap(), b"".to_vec());
}

#[test]
fn decode_matches_hex_crate() {
    assert_eq!(decode_url(b"68656c6c6f").unwrap(), hex::decode("68656c6c6f").unwrap());
}
