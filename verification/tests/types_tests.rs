use concord::error::ErrorKind;
use concord::types::{Pubkey, ServerId};

#[test]
fn server_id_to_urlencoding_zero() {
    let id = ServerId::from_bytes([0u8; 8]);
    assert_eq!(id.to_urlencoding().unwrap(), "AAAAAAAAAAA%3D");
}

#[test]
fn server_id_urlencoding_roundtrip() {
    let id = ServerId::from_bytes([1, 2, 3, 4, 5, 6, 7, 8]);
    let text = id.to_urlencoding().unwrap();
    assert_eq!(text, "AQIDBAUGBwg%3D");
    let back = ServerId::from_urlencoding(text).unwrap();
    assert_eq!(back.to_bytes(), [1, 2, 3, 4, 5, 6, 7, 8]);
}

#[test]
fn server_id_from_urlencoding_plain_base64() {
    let id = ServerId::from_urlencoding("AQIDBAUGBwg=".to_string()).unwrap();
    assert_eq!(id.to_bytes(), [1, 2, 3, 4, 5, 6, 7, 8]);
}

#[test]
fn server_id_from_urlencoding_wrong_length() {
    let e = ServerId::from_urlencoding("AAAA".to_string()).unwrap_err();
    assert!(matches!(e.kind(), ErrorKind::TryFromSliceError(_)));
}

#[test]
fn server_id_from_urlencoding_not_base64() {
    let e = ServerId::from_urlencoding("%21%21%21%21".to_string()).unwrap_err();
    assert!(matches!(e.kind(), ErrorKind::DecodeError(_)));
}

#[test]
fn server_id_from_urlencoding_not_utf8() {
    let e = ServerId::from_urlencoding("%FF%FE".to_string()).unwrap_err();
    assert!(matches!(e.kind(), ErrorKind::FromUtf8Error(_)));
}

#[test]
fn server_id_base58() {
    let id = ServerId::from_bytes([1, 2, 3, 4, 5, 6, 7, 8]);
    assert_eq!(id.to_base58().unwrap(), "An6UebxCZd");
    let mut other = ServerId::from_bytes([0u8; 8]);
    assert_eq!(other.to_base58().unwrap(), "11111111");
    other.from_base58("An6UebxCZd".to_string()).unwrap();
    assert_eq!(other.to_bytes(), [1, 2, 3, 4, 5, 6, 7, 8]);
}

#[test]
fn server_id_from_base58_errors_leave_value() {
    let mut id = ServerId::from_bytes([9u8; 8]);
    let e = id.from_base58("0OIl".to_string()).unwrap_err();
    assert!(matches!(e.kind(), ErrorKind::Base58DecodeError(_)));
    assert_eq!(id.to_bytes(), [9u8; 8]);
    let e = id.from_base58("2".to_string()).unwrap_err();
    assert!(matches!(e.kind(), ErrorKind::TryFromSliceError(_)));
    assert_eq!(id.to_bytes(), [9u8; 8]);
}

#[test]
fn server_id_from_u64_big_endian() {
    let id = ServerId::from_u64(0x0102030405060708);
    assert_eq!(id.to_bytes(), [1, 2, 3, 4, 5, 6, 7, 8]);
}

#[test]
fn pubkey_urlencoding() {
    let k = Pubkey::from_bytes([255u8; 32]);
    let text = k.to_urlencoding().unwrap();
    assert_eq!(
        text,
        "%2F%2F%2F%2F%2F%2F%2F%2F%2F%2F%2F%2F%2F%2F%2F%2F%2F%2F%2F%2F%2F%2F%2F%2F%2F%2F%2F%2F%2F%2F%2F%2F%2F%2F%2F%2F%2F%2F%2F%2F%2F%2F8%3D"
    );
    let back = Pubkey::from_urlencoding(text).unwrap();
    assert_eq!(back.to_bytes(), [255u8; 32]);
}

#[test]
fn pubkey_from_urlencoding_wrong_length() {
    let e = Pubkey::from_urlencoding("AQIDBAUGBwg%3D".to_string()).unwrap_err();
    assert!(matches!(e.kind(), ErrorKind::TryFromSliceError(_)));
}

#[test]
fn pubkey_base58() {
    let mut bytes = [0u8; 32];
    for i in 0..32 {
        bytes[i] = i as u8;
    }
    let k = Pubkey::from_bytes(bytes);
    let text = k.to_base58().unwrap();
    assert_eq!(text, "1thX6LZfHDZZKUs92febYZhYRcXddmzfzF2NvTkPNE");
    let mut other = Pubkey::from_bytes([0u8; 32]);
    other.from_base58(text).unwrap();
    assert_eq!(other.to_bytes(), bytes);
}
