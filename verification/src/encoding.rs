//! Text encodings of identifiers: base64, percent-encoding and base58.

use vstd::prelude::*;
use vstd::utf8::*;

verus! {

/// The standard base64 text, with padding, of `bytes`.
pub uninterp spec fn base64_text(bytes: Seq<u8>) -> Seq<char>;

/// The bytes whose standard base64 text is `text`, when it is one.
pub uninterp spec fn base64_bytes(text: Seq<char>) -> Option<Seq<u8>>;

/// The base58 text (Bitcoin alphabet) of `bytes`.
pub uninterp spec fn base58_text(bytes: Seq<u8>) -> Seq<char>;

/// The bytes whose base58 text (Bitcoin alphabet) is `text`, when it is one.
pub uninterp spec fn base58_bytes(text: Seq<char>) -> Option<Seq<u8>>;

/// The string that `text` percent-decodes to, when the decoded bytes are UTF-8.
pub uninterp spec fn url_decoded(text: Seq<char>) -> Option<Seq<char>>;

/// The bytes left as they are by percent-encoding.
pub open spec fn is_unreserved(b: u8) -> bool {
    (48 <= b <= 57) || (65 <= b <= 90) || (97 <= b <= 122) || b == 45 || b == 46 || b == 95
        || b == 126
}

/// The upper-case hex digit of `d`, for `d < 16`.
pub open spec fn hex_digit(d: u8) -> char {
    if d < 10 {
        (48 + d) as char
    } else {
        (55 + d) as char
    }
}

/// The percent-encoding of one byte.
pub open spec fn percent_encode_byte(b: u8) -> Seq<char> {
    if is_unreserved(b) {
        seq![b as char]
    } else {
        seq!['%', hex_digit(b / 16), hex_digit(b % 16)]
    }
}

/// The percent-encoding of `bytes`: each byte but an ASCII letter, digit,
/// `-`, `.`, `_` or `~` becomes `%` and two upper-case hex digits.
pub open spec fn percent_encode(bytes: Seq<u8>) -> Seq<char>
    decreases bytes.len(),
{
    if bytes.len() == 0 {
        Seq::empty()
    } else {
        percent_encode(bytes.drop_last()) + percent_encode_byte(bytes.last())
    }
}

/// Base64 text of `bytes`.
///
/// Calls `base64::encode` (standard alphabet, padded). The contract names
/// the text, and claims that `base64::decode` gives the bytes back from it.
#[verifier::external_body]
pub(crate) fn b64_encode(bytes: &[u8]) -> (res: String)
    ensures
        res@ == base64_text(bytes@),
        base64_bytes(res@) == Some(bytes@),
{
    base64::encode(bytes)
}

/// The bytes of a base64 text.
///
/// Calls `base64::decode` (standard alphabet, padded). The contract names
/// the bytes, and says that the call fails exactly when there are none; the
/// error carries the message of the crate's error.
#[verifier::external_body]
pub(crate) fn b64_decode(text: &str) -> (res: Result<Vec<u8>, String>)
    ensures
        match base64_bytes(text@) {
            Some(b) => res matches Ok(v) && v@ == b,
            None => res is Err,
        },
{
    match base64::decode(text) {
        Ok(v) => Ok(v),
        Err(e) => Err(e.to_string()),
    }
}

/// Percent-encoding of a string.
///
/// Calls `urlencoding::encode`, which percent-encodes every UTF-8 byte of
/// `text` but ASCII letters, digits, `-`, `.`, `_` and `~`, with upper-case
/// hex digits; the contract states that, and claims that
/// `urlencoding::decode` gives `text` back.
#[verifier::external_body]
pub(crate) fn url_encode(text: &str) -> (res: String)
    ensures
        res@ == percent_encode(encode_utf8(text@)),
        url_decoded(res@) == Some(text@),
{
    urlencoding::encode(text).to_string()
}

/// Percent-decoding of a string.
///
/// Calls `urlencoding::decode`. The contract names the result, and says
/// that the call fails exactly when there is none (the decoded bytes are
/// not UTF-8); the error carries the message of the crate's error.
#[verifier::external_body]
pub(crate) fn url_decode(text: &str) -> (res: Result<String, String>)
    ensures
        match url_decoded(text@) {
            Some(t) => res matches Ok(s) && s@ == t,
            None => res is Err,
        },
{
    match urlencoding::decode(text) {
        Ok(s) => Ok(s.to_string()),
        Err(e) => Err(e.to_string()),
    }
}

/// Base58 text of `bytes`.
///
/// Calls `bs58::encode(..).into_string()`. The contract names the text, and
/// claims that `bs58::decode(..).into_vec()` gives the bytes back from it.
#[verifier::external_body]
pub(crate) fn b58_encode(bytes: &[u8]) -> (res: String)
    ensures
        res@ == base58_text(bytes@),
        base58_bytes(res@) == Some(bytes@),
{
    bs58::encode(bytes).into_string()
}

/// The bytes of a base58 text.
///
/// Calls `bs58::decode(..).into_vec()`. The contract names the bytes, and
/// says that the call fails exactly when there are none; the error carries
/// the message of the crate's error.
#[verifier::external_body]
pub(crate) fn b58_decode(text: &str) -> (res: Result<Vec<u8>, String>)
    ensures
        match base58_bytes(text@) {
            Some(b) => res matches Ok(v) && v@ == b,
            None => res is Err,
        },
{
    match bs58::decode(text).into_vec() {
        Ok(v) => Ok(v),
        Err(e) => Err(e.to_string()),
    }
}

/// The character of the decimal digit `d`.
pub open spec fn digit_char(d: nat) -> char {
    (d + 48) as char
}

/// The decimal digits of `n`, most significant first, without sign or
/// padding.
pub open spec fn decimal(n: nat) -> Seq<char>
    decreases n,
{
    if n < 10 {
        seq![digit_char(n)]
    } else {
        decimal(n / 10).push(digit_char(n % 10))
    }
}

/// The decimal digit `d` as text.
fn digit_text(d: u128) -> (s: String)
    requires
        d < 10,
    ensures
        s@ == seq![digit_char(d as nat)],
{
    proof {
        reveal_strlit("0");
        reveal_strlit("1");
        reveal_strlit("2");
        reveal_strlit("3");
        reveal_strlit("4");
        reveal_strlit("5");
        reveal_strlit("6");
        reveal_strlit("7");
        reveal_strlit("8");
        reveal_strlit("9");
    }
    let t = if d == 0 {
        "0"
    } else if d == 1 {
        "1"
    } else if d == 2 {
        "2"
    } else if d == 3 {
        "3"
    } else if d == 4 {
        "4"
    } else if d == 5 {
        "5"
    } else if d == 6 {
        "6"
    } else if d == 7 {
        "7"
    } else if d == 8 {
        "8"
    } else {
        "9"
    };
    let s = t.to_owned();
    assert(s@ =~= seq![digit_char(d as nat)]);
    s
}

/// The decimal text of `n`: its digits, most significant first, with no
/// sign, padding or leading zero.
pub(crate) fn u128_to_decimal(n: u128) -> (s: String)
    ensures
        s@ == decimal(n as nat),
    decreases n,
{
    if n < 10 {
        digit_text(n)
    } else {
        let mut s = u128_to_decimal(n / 10);
        let d = digit_text(n % 10);
        s.append(d.as_str());
        assert(s@ =~= decimal((n / 10) as nat).push(digit_char((n % 10) as nat)));
        s
    }
}

} // verus!
