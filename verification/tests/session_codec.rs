//! Sessions, text encodings and the authenticated codec, run against the
//! real cipher.

use distant::codec::{Codec, DecryptError, EncryptError, MAX_PLAINTEXT};
use distant::session::{FormatError, Session};
use distant::textenc::{dec5_decode, dec5_encode, hex_decode, hex_encode};
use distant::wire::{decode_frame_header, encode_frame, u32_to_be, u64_to_be};

fn test_key() -> Vec<u8> {
    (0u8..32).collect()
}

fn other_key() -> Vec<u8> {
    (100u8..132).collect()
}

fn test_prefix() -> Vec<u8> {
    (40u8..56).collect()
}

fn test_session() -> Session {
    Session { host: b"example.com".to_vec(), port: 8080, auth_key: test_key() }
}

#[test]
fn session_string_round_trip() {
    let s = test_session();
    let printed = s.to_shareable_string();
    let parsed = Session::parse(printed.as_str()).expect("round trip must parse");
    assert_eq!(parsed.host, s.host);
    assert_eq!(parsed.port, s.port);
    assert_eq!(parsed.auth_key, s.auth_key);
}

#[test]
fn session_round_trip_law_runs() {
    let s = test_session();
    assert!(distant::session::shareable_round_trip(&s));
}

#[test]
fn session_string_exact_format() {
    let s = Session { host: b"myhost".to_vec(), port: 8080, auth_key: vec![0u8; 32] };
    let printed = s.to_shareable_string();
    let mut want = String::from("myhost 08080 ");
    for _ in 0..64 {
        want.push('0');
    }
    assert_eq!(printed, want);
}

#[test]
fn session_parse_exact_fields() {
    let mut text = String::from("host.example 00443 ");
    text.push_str("000102030405060708090a0b0c0d0e0f101112131415161718191a1b1c1d1e1f");
    let parsed = Session::parse(text.as_str()).expect("well-formed string");
    assert_eq!(parsed.host, b"host.example".to_vec());
    assert_eq!(parsed.port, 443);
    let expected: Vec<u8> = (0u8..32).collect();
    assert_eq!(parsed.auth_key, expected);
}

#[test]
fn session_parse_errors() {
    assert!(matches!(Session::parse("tiny"), Err(FormatError::Length)));
    // 72 bytes but the separators are wrong.
    let no_delims = "x".repeat(72);
    assert!(matches!(Session::parse(no_delims.as_str()), Err(FormatError::Delimiter)));
    // A control character in the host field.
    let mut bad_host = String::from("ho\tst 08080 ");
    bad_host.push_str(&"0".repeat(64));
    assert!(matches!(Session::parse(bad_host.as_str()), Err(FormatError::Host)));
    // Five digits but too large for a port.
    let mut bad_port = String::from("myhost 99999 ");
    bad_port.push_str(&"0".repeat(64));
    assert!(matches!(Session::parse(bad_port.as_str()), Err(FormatError::Port)));
    // A non-digit in the port field.
    let mut bad_port2 = String::from("myhost 0x080 ");
    bad_port2.push_str(&"0".repeat(64));
    assert!(matches!(Session::parse(bad_port2.as_str()), Err(FormatError::Port)));
    // An uppercase character in the key field.
    let mut bad_key = String::from("myhost 08080 ");
    bad_key.push_str(&"0".repeat(63));
    bad_key.push('G');
    assert!(matches!(Session::parse(bad_key.as_str()), Err(FormatError::Key)));
}

#[test]
fn into_auth_key_moves_key() {
    let s = test_session();
    let k = s.into_auth_key();
    assert_eq!(k, test_key());
}

#[test]
fn hex_round_trip_and_errors() {
    let data = vec![0x00u8, 0xff, 0x1a, 0x7f];
    let hexed = hex_encode(&data);
    assert_eq!(hexed, b"00ff1a7f".to_vec());
    let back = hex_decode(&hexed, 0, 4).expect("valid hex");
    assert_eq!(back, data);
    // 'g' is not a hex digit.
    let bad = b"00ffgg00".to_vec();
    assert!(hex_decode(&bad, 0, 4).is_none());
    // Uppercase is refused: the canonical form is lowercase.
    let upper = b"00FF1A7F".to_vec();
    assert!(hex_decode(&upper, 0, 4).is_none());
}

#[test]
fn dec5_round_trip_and_errors() {
    assert_eq!(dec5_encode(8080), b"08080".to_vec());
    assert_eq!(dec5_encode(0), b"00000".to_vec());
    assert_eq!(dec5_encode(65535), b"65535".to_vec());
    assert_eq!(dec5_decode(&b"08080".to_vec(), 0), Some(8080));
    assert_eq!(dec5_decode(&b"65535".to_vec(), 0), Some(65535));
    // 65536 does not fit a port.
    assert_eq!(dec5_decode(&b"65536".to_vec(), 0), None);
    assert_eq!(dec5_decode(&b"1a234".to_vec(), 0), None);
}

#[test]
fn frame_header_round_trip() {
    let payload = b"hello frame".to_vec();
    let framed = encode_frame(&payload);
    assert_eq!(framed.len(), payload.len() + 4);
    let header: Vec<u8> = framed[..4].to_vec();
    assert_eq!(decode_frame_header(&header) as usize, payload.len());
    assert_eq!(&framed[4..], payload.as_slice());
}

#[test]
fn big_endian_exact_bytes() {
    assert_eq!(u32_to_be(0x0102_0304), vec![1, 2, 3, 4]);
    assert_eq!(u64_to_be(0x0102_0304_0506_0708), vec![1, 2, 3, 4, 5, 6, 7, 8]);
    assert_eq!(u32_to_be(0), vec![0, 0, 0, 0]);
}

#[test]
fn codec_round_trip() {
    let codec = Codec::new(test_key(), test_prefix());
    let frame = b"a secret message".to_vec();
    let ct = codec.encrypt(&frame, 7).expect("fits a frame");
    assert_eq!(ct.len(), frame.len() + 16);
    assert_ne!(&ct[..frame.len()], frame.as_slice());
    let pt = codec.decrypt(&ct, 7).expect("same key, same sequence");
    assert_eq!(pt, frame);
}

#[test]
fn codec_round_trip_law_runs() {
    let codec = Codec::new(test_key(), test_prefix());
    let frame = b"law".to_vec();
    assert_eq!(codec.round_trip(&frame, 3), frame);
}

#[test]
fn codec_rejects_tampering() {
    let codec = Codec::new(test_key(), test_prefix());
    let frame = b"do not touch".to_vec();
    let ct = codec.encrypt(&frame, 1).expect("fits a frame");
    // Flip one bit anywhere: decryption must fail, never return garbage.
    for i in 0..ct.len() {
        let mut bad = ct.clone();
        bad[i] ^= 0x01;
        assert_eq!(codec.decrypt(&bad, 1), Err(DecryptError::BadTag));
    }
}

#[test]
fn codec_rejects_wrong_sequence() {
    let codec = Codec::new(test_key(), test_prefix());
    let frame = b"sequence matters".to_vec();
    let ct = codec.encrypt(&frame, 5).expect("fits a frame");
    assert_eq!(codec.decrypt(&ct, 6), Err(DecryptError::BadTag));
    assert_eq!(codec.decrypt(&ct, 4), Err(DecryptError::BadTag));
}

#[test]
fn codec_rejects_wrong_key() {
    let codec = Codec::new(test_key(), test_prefix());
    let other = Codec::new(other_key(), test_prefix());
    let ct = codec.encrypt(&b"key matters".to_vec(), 0).expect("fits a frame");
    assert_eq!(other.decrypt(&ct, 0), Err(DecryptError::BadTag));
}

#[test]
fn codec_rejects_truncated() {
    let codec = Codec::new(test_key(), test_prefix());
    let short = vec![0u8; 15];
    assert_eq!(codec.decrypt(&short, 0), Err(DecryptError::Truncated));
}

#[test]
fn codec_rejects_oversize() {
    let codec = Codec::new(test_key(), test_prefix());
    let big = vec![0u8; MAX_PLAINTEXT + 1];
    assert_eq!(codec.encrypt(&big, 0), Err(EncryptError::TooLarge));
}

