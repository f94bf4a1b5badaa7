use concord::sys::elapsed_millis;
use concord::auth::{
    auth_params, challenge_auth_params, challenge_reply, challenge_text, challenge_verified, decode_param,
    parse_token, token_matches,
};
use concord::config::{settings_from_args, ConcordConfig};
use concord::error::{read_error, ErrorKind};
use concord::ser::ReadError;
use concord::net::{
    client_header_end, find_bytes, get_request, invite_from_parts, listen_request, listen_target, parse_invite_url,
    post_request,
    ws_upgrade_request, ListenState,
};
use concord::persistence::{parse_interest_list, parse_unsigned, timeout_event, EVENT_TYPE_TIMEOUT};
use concord::webroot::{webroot_dirs, webroot_files, webroot_path};

const PK_FF: &str = "%2F%2F%2F%2F%2F%2F%2F%2F%2F%2F%2F%2F%2F%2F%2F%2F%2F%2F%2F%2F%2F%2F%2F%2F%2F%2F%2F%2F%2F%2F%2F%2F%2F%2F%2F%2F%2F%2F%2F%2F%2F%2F8%3D";
const ID_1_8: &str = "AQIDBAUGBwg%3D";

const SIGNER_PK: [u8; 32] = [
    3, 161, 7, 191, 243, 206, 16, 190, 29, 112, 221, 24, 231, 75, 192, 153, 103, 228, 214, 48, 155, 165, 13, 95, 29,
    220, 134, 100, 18, 85, 49, 184,
];
const SIGNATURE: [u8; 64] = [
    236, 7, 247, 117, 230, 145, 229, 246, 72, 203, 168, 124, 62, 88, 186, 167, 86, 210, 79, 214, 136, 23, 70, 158,
    113, 248, 0, 125, 90, 119, 93, 66, 129, 207, 106, 253, 53, 216, 40, 110, 44, 1, 79, 18, 145, 35, 147, 145, 120,
    207, 251, 246, 22, 193, 215, 46, 86, 169, 233, 35, 192, 95, 182, 15,
];
const SIGNER_PK_TEXT: &str = "A6EHv%2FPOEL4dcN0Y50vAmWfk1jCbpQ1fHdyGZBJVMbg%3D";
const SIGNATURE_TEXT: &str =
    "7Af3deaR5fZIy6h8Pli6p1bST9aIF0aecfgAfVp3XUKBz2r9NdgobiwBTxKRI5OReM%2F79hbB1y5WqekjwF%2B2Dw%3D%3D";

#[test]
fn parse_unsigned_cases() {
    assert_eq!(parse_unsigned("42", 100), Some(42));
    assert_eq!(parse_unsigned("+42", 100), Some(42));
    assert_eq!(parse_unsigned("0", 0), Some(0));
    assert_eq!(parse_unsigned("", 100), None);
    assert_eq!(parse_unsigned("+", 100), None);
    assert_eq!(parse_unsigned("-1", 100), None);
    assert_eq!(parse_unsigned("12a", 100), None);
    assert_eq!(parse_unsigned("256", 255), None);
    assert_eq!(parse_unsigned("255", 255), Some(255));
    assert_eq!(parse_unsigned("340282366920938463463374607431768211455", u128::MAX), Some(u128::MAX));
    assert_eq!(parse_unsigned("340282366920938463463374607431768211456", u128::MAX), None);
}

#[test]
fn timeout_event_fields() {
    let e = timeout_event(1234567);
    assert_eq!(e.etype, EVENT_TYPE_TIMEOUT);
    assert_eq!(e.timestamp, "1234567");
    assert_eq!(e.ebody, "");
    assert_eq!(e.user_pubkey, "");
    assert_eq!(e.server_pubkey, "");
    assert_eq!(e.server_id, "");
    assert_eq!(e.channel_id, "");
}

#[test]
fn interest_list_two_lines() {
    let content = format!(
        "server_pubkey={}&server_id={}\r\n\r\nserver_id={}&server_pubkey={}&channel_id=7&seqno=3",
        PK_FF, ID_1_8, "AAAAAAAAAAA%3D", PK_FF
    );
    let list = parse_interest_list(&content).unwrap();
    assert_eq!(list.len(), 2);
    assert_eq!(list[0].server_pubkey, [255u8; 32]);
    assert_eq!(list[0].server_id, [1, 2, 3, 4, 5, 6, 7, 8]);
    assert_eq!(list[0].channel_id, None);
    assert_eq!(list[1].server_id, [0u8; 8]);
    assert_eq!(list[1].channel_id, None);
}

#[test]
fn interest_list_empty() {
    assert_eq!(parse_interest_list("").unwrap().len(), 0);
    assert_eq!(parse_interest_list("\r\n\r\n").unwrap().len(), 0);
}

#[test]
fn interest_list_refusals() {
    let e = parse_interest_list(&format!("server_id={}", ID_1_8)).unwrap_err();
    assert!(matches!(e.kind(), ErrorKind::ApplicationError(_)));
    let e = parse_interest_list(&format!("server_pubkey={}", PK_FF)).unwrap_err();
    assert!(matches!(e.kind(), ErrorKind::ApplicationError(_)));
    let e = parse_interest_list(&format!("server_pubkey={}&server_id={}&channel_id=x", PK_FF, ID_1_8)).unwrap_err();
    assert!(matches!(e.kind(), ErrorKind::ParseIntError(_)));
    let e = parse_interest_list(&format!("server_pubkey={}&server_id={}&seqno=-1", PK_FF, ID_1_8)).unwrap_err();
    assert!(matches!(e.kind(), ErrorKind::ParseIntError(_)));
    let e = parse_interest_list(&format!("server_pubkey={}&server_id={}", ID_1_8, ID_1_8)).unwrap_err();
    assert!(matches!(e.kind(), ErrorKind::TryFromSliceError(_)));
    let e = parse_interest_list(&format!("server_pubkey={}&server_id=%21%21", PK_FF)).unwrap_err();
    assert!(matches!(e.kind(), ErrorKind::DecodeError(_)));
}

#[test]
fn interest_list_first_refusal_refuses_all() {
    let content = format!("server_pubkey={}&server_id={}\r\nnothing", PK_FF, ID_1_8);
    let e = parse_interest_list(&content).unwrap_err();
    assert!(matches!(e.kind(), ErrorKind::ApplicationError(_)));
}

#[test]
fn tokens() {
    assert_eq!(parse_token("12345"), 12345);
    assert_eq!(parse_token("abc"), 0);
    assert_eq!(parse_token(""), 0);
    assert_eq!(parse_token("340282366920938463463374607431768211455"), u128::MAX);
    assert_eq!(parse_token("340282366920938463463374607431768211456"), 0);
    assert!(token_matches("77", 77));
    assert!(!token_matches("78", 77));
    assert!(token_matches("junk", 0));
}

#[test]
fn token_text_parses_back() {
    let token: u128 = 98765432109876543210;
    assert_eq!(parse_token(&token.to_string()), token);
}

#[test]
fn auth_params_cookie_first() {
    let p = auth_params(
        Some("5".to_string()),
        "7".to_string(),
        "".to_string(),
        "".to_string(),
        ID_1_8.to_string(),
        Some([3u8; 32]),
    );
    assert_eq!(p.token, 5);
    assert_eq!(p.user_pubkey, [3u8; 32]);
    assert_eq!(p.server_pubkey, [3u8; 32]);
    assert_eq!(p.server_id, [1, 2, 3, 4, 5, 6, 7, 8]);
}

#[test]
fn auth_params_from_query() {
    let p = auth_params(None, "7".to_string(), PK_FF.to_string(), "garbage!".to_string(), "".to_string(), None);
    assert_eq!(p.token, 7);
    assert_eq!(p.user_pubkey, [255u8; 32]);
    assert_eq!(p.server_pubkey, [0u8; 32]);
    assert_eq!(p.server_id, [0u8; 8]);
}

#[test]
fn auth_params_wrong_length_is_zeros() {
    let p = auth_params(None, "x".to_string(), ID_1_8.to_string(), "".to_string(), PK_FF.to_string(), None);
    assert_eq!(p.token, 0);
    assert_eq!(p.user_pubkey, [0u8; 32]);
    assert_eq!(p.server_pubkey, [0u8; 32]);
    assert_eq!(p.server_id, [0u8; 8]);
}

#[test]
fn challenge_text_encoding() {
    assert_eq!(challenge_text([1, 2, 3, 4, 5, 6, 7, 8]), ID_1_8);
}

#[test]
fn decode_param_cases() {
    assert_eq!(decode_param(ID_1_8, 8).unwrap(), vec![1, 2, 3, 4, 5, 6, 7, 8]);
    assert!(matches!(decode_param(ID_1_8, 32).unwrap_err().kind(), ErrorKind::TryFromSliceError(_)));
    assert!(matches!(decode_param("%21", 8).unwrap_err().kind(), ErrorKind::DecodeError(_)));
    assert!(matches!(decode_param("%FF", 8).unwrap_err().kind(), ErrorKind::FromUtf8Error(_)));
}

#[test]
fn signed_challenge_verifies() {
    let (k, c, s) = challenge_auth_params(SIGNER_PK_TEXT, ID_1_8, SIGNATURE_TEXT).unwrap();
    assert_eq!(k, SIGNER_PK);
    assert_eq!(c, [1, 2, 3, 4, 5, 6, 7, 8]);
    assert_eq!(s, SIGNATURE);
    assert!(challenge_verified(&k, &c, &s));
}

#[test]
fn altered_challenge_does_not_verify() {
    assert!(!challenge_verified(&SIGNER_PK, &[1, 2, 3, 4, 5, 6, 7, 9], &SIGNATURE));
    let mut sig = SIGNATURE;
    sig[0] ^= 1;
    assert!(!challenge_verified(&SIGNER_PK, &[1, 2, 3, 4, 5, 6, 7, 8], &sig));
    assert!(!challenge_verified(&[0u8; 32], &[1, 2, 3, 4, 5, 6, 7, 8], &SIGNATURE));
}

#[test]
fn challenge_auth_params_errors() {
    let e = challenge_auth_params(ID_1_8, ID_1_8, SIGNATURE_TEXT).unwrap_err();
    assert!(matches!(e.kind(), ErrorKind::TryFromSliceError(_)));
    let e = challenge_auth_params(SIGNER_PK_TEXT, "%21", SIGNATURE_TEXT).unwrap_err();
    assert!(matches!(e.kind(), ErrorKind::DecodeError(_)));
    let e = challenge_auth_params(SIGNER_PK_TEXT, ID_1_8, ID_1_8).unwrap_err();
    assert!(matches!(e.kind(), ErrorKind::TryFromSliceError(_)));
}

#[test]
fn challenge_reply_cases() {
    let a = challenge_reply(&Some("12".to_string())).unwrap();
    assert!(a.pubkey.0.is_none());
    assert!(a.signature.0.is_none());
    assert_eq!(a.token.0.unwrap().0, 12);
    let a = challenge_reply(&None).unwrap();
    assert!(a.token.0.is_none());
    let e = challenge_reply(&Some("x12".to_string())).unwrap_err();
    assert!(matches!(e.kind(), ErrorKind::ParseIntError(_)));
}

#[test]
fn invite_urls() {
    let r = parse_invite_url("http://abcdef.onion/i/123").unwrap().unwrap();
    assert_eq!(r.0, "abcdef.onion");
    assert_eq!(r.1, 123);
    assert!(parse_invite_url("http://abcdef.onion/x/123").unwrap().is_none());
    assert!(parse_invite_url("mailto:someone").unwrap().is_none());
    let e = parse_invite_url("not a url").unwrap_err();
    assert!(matches!(e.kind(), ErrorKind::ApplicationError(_)));
    let e = parse_invite_url("http://abcdef.onion/i/abc").unwrap_err();
    assert!(matches!(e.kind(), ErrorKind::ParseIntError(_)));
}

#[test]
fn find_bytes_cases() {
    assert_eq!(find_bytes(b"abcabc", b"ca"), Some(2));
    assert_eq!(find_bytes(b"abcabc", b"abc"), Some(0));
    assert_eq!(find_bytes(b"abc", b""), Some(0));
    assert_eq!(find_bytes(b"abc", b"abcd"), None);
    assert_eq!(find_bytes(b"abc", b"x"), None);
}

#[test]
fn listen_reply_in_pieces() {
    let mut st = ListenState::new();
    assert!(st.listen_step(b"HTTP/1.1 200 OK\r\nX: y").unwrap().is_none());
    assert!(st.listen_step(b"\r\n\r\n[1,").unwrap().is_none());
    let got = st.listen_step(b"2]//-----ENDJSON-----").unwrap();
    assert_eq!(got.unwrap(), "[1,2]");
    // the last two dashes of the marker stay in front of the next batch
    let got = st.listen_step(b"[3]//-----ENDJSON-----").unwrap();
    assert_eq!(got.unwrap(), "--[3]");
}

#[test]
fn listen_reply_headers_only_once() {
    let mut st = ListenState::new();
    let got = st.listen_step(b"H\r\n\r\nx\r\n\r\ny//-----ENDJSON-----").unwrap();
    assert_eq!(got.unwrap(), "x\r\n\r\ny");
}

#[test]
fn listen_reply_not_utf8() {
    let mut st = ListenState::new();
    let e = st.listen_step(&[0xff, 0xfe]).unwrap_err();
    assert!(matches!(e.kind(), ErrorKind::Utf8Error(_)));
}

#[test]
fn requests() {
    assert_eq!(
        listen_request("/listen?listener_id=5", "abc"),
        "POST /listen?listener_id=5 HTTP/1.1\r\nConnection: Close\r\nContent-Length: 3\r\nHost: localhost\r\n\r\nabc"
    );
    assert_eq!(get_request("/x"), "GET /x HTTP/1.1\r\nConnection: Close\r\nHost: localhost\r\n\r\n");
    assert_eq!(
        post_request("/y", &[1, 2]),
        b"POST /y HTTP/1.1\r\nConnection: Close\r\nHost: localhost\r\nContent-Length: 2\r\n\r\n\x01\x02".to_vec()
    );
    assert_eq!(
        ws_upgrade_request("a2V5"),
        "GET /ws HTTP/1.1\r\nHost: localhost\r\nUpgrade: websocket\r\nSec-WebSocket-Key: a2V5\r\n\r\n"
    );
}

#[test]
fn listen_targets() {
    let (h, p) = listen_target("http://abc.onion/listen?listener_id=9").unwrap();
    assert_eq!(h, "abc.onion");
    assert_eq!(p, "/listen?listener_id=9");
    let (h, p) = listen_target("http://abc.onion/listen").unwrap();
    assert_eq!(h, "abc.onion");
    assert_eq!(p, "/listen?");
    let (h, _) = listen_target("mailto:x").unwrap();
    assert_eq!(h, "notfound");
    let e = listen_target("::").unwrap_err();
    assert!(matches!(e.kind(), ErrorKind::TorError(_)));
}

#[test]
fn websocket_header_end() {
    let buf = b"HTTP/1.1 101\r\n\r\nrest";
    assert_eq!(client_header_end(buf, buf.len()), Some(16));
    assert_eq!(client_header_end(buf, 15), None);
}

#[test]
fn settings() {
    assert_eq!(settings_from_args(None, None, None), Some((1234, 8093, "~/.concord".to_string())));
    assert_eq!(
        settings_from_args(Some("9050".to_string()), Some("80".to_string()), Some("/tmp/c".to_string())),
        Some((9050, 80, "/tmp/c".to_string()))
    );
    assert_eq!(settings_from_args(Some("65536".to_string()), None, None), None);
    assert_eq!(settings_from_args(None, Some("x".to_string()), None), None);
}

#[test]
fn config_default() {
    let c = ConcordConfig::default();
    assert_eq!(c.tor_port, 19901);
    assert_eq!(c.port, 9919);
    assert_eq!(c.host, "127.0.0.1");
    assert_eq!(c.root_dir, "~/.concord");
    let d = c.duplicate();
    assert_eq!(d.root_dir, "~/.concord");
}

#[test]
fn webroot() {
    let files = webroot_files();
    assert_eq!(files.len(), 24);
    assert_eq!(files[21], ("images/creative-commons.png", "favicon.ico"));
    assert_eq!(files[23], ("images/creative-commons.png", "favicon-16x16.ico"));
    assert_eq!(files[0], ("jquery-3.6.0.min.js", "js/jquery-3.6.0.min.js"));
    assert_eq!(files[8], ("index.html", "index.html"));
    assert_eq!(webroot_path("/r", "index.html"), "/r/www/index.html");
    let dirs = webroot_dirs("/r");
    assert_eq!(dirs.len(), 4);
    assert_eq!(dirs[0], "/r/www/js");
}

#[test]
fn error_kind_text() {
    assert_eq!(ErrorKind::IOError("disk full".to_string()).to_string(), "IO Error: disk full");
    assert_eq!(ErrorKind::LMDBError("x".to_string()).to_string(), "LMDB err: x");
    assert_eq!(ErrorKind::NotAuthorized("".to_string()).to_string(), "Not Auth Error: ");
    assert_eq!(ErrorKind::SerdeJsonError("eof".to_string()).to_string(), "SerdeJsonError: eof");
}

#[test]
fn invite_from_url_parts() {
    let r = invite_from_parts(Some("host".to_string()), "/i/77".to_string()).unwrap().unwrap();
    assert_eq!(r, ("host".to_string(), 77));
    assert!(invite_from_parts(None, "/i/77".to_string()).unwrap().is_none());
    assert!(invite_from_parts(Some("host".to_string()), "/j/77".to_string()).unwrap().is_none());
    assert!(matches!(
        invite_from_parts(Some("host".to_string()), "/i/x".to_string()).unwrap_err().inner,
        ErrorKind::ParseIntError(_)
    ));
}

#[test]
fn read_error_messages() {
    assert_eq!(
        read_error(ReadError::UnknownEventType).inner,
        ErrorKind::CorruptedData("corrupted data in EventBody".to_string())
    );
    assert_eq!(read_error(ReadError::UnexpectedEof).inner, ErrorKind::UnexpectedEof("unexpected end of data".to_string()));
}

#[test]
fn elapsed_time_wraps_like_unsigned_subtraction() {
    assert_eq!(elapsed_millis(10, 3), 7);
    assert_eq!(elapsed_millis(3, 3), 0);
    assert_eq!(elapsed_millis(5, 7), u128::MAX - 1);
    assert_eq!(elapsed_millis(0, u128::MAX), 1);
}
