//! Signing in: the parameters a session is checked with, the text a
//! challenge is handed out as, and the check of a signed challenge.

use crate::encoding::{decimal, base64_bytes, base64_text, b64_decode, b64_encode, percent_encode, url_decode, url_decoded, url_encode};
use crate::ds::{DSContext, authorization, create_auth_challenge_outcome, validate_challenge_outcome};
use crate::kv::{committed, is_lmdb_error};
use crate::error::{Error, ErrorKind};
use crate::persistence::{lemma_decimal_digits, spec_parse_unsigned};
use crate::persistence::parse_unsigned;
use crate::protocol::AuthEvent;
use crate::store::{AUTH_FLAG_MEMBER, AUTH_FLAG_OWNER, TOKEN_EXPIRATION};
use crate::types::{IdTextFailure, Pubkey, SerOption, ServerId, U128, id_failure_kind, spec_id_from_urlencoding};
use ed25519_dalek::Verifier;
use vstd::prelude::*;
use vstd::utf8::*;

verus! {

/// What a session is checked with: the user, the server, the token, and the
/// server's identifier.
#[derive(Debug, Clone, Copy)]
pub struct AuthParams {
    pub user_pubkey: [u8; 32],
    pub server_pubkey: [u8; 32],
    pub token: u128,
    pub server_id: [u8; 8],
}

/// `n` zero bytes.
pub open spec fn zeros(n: nat) -> Seq<u8> {
    Seq::new(n, |i: int| 0u8)
}

/// The `n` bytes that percent-encoded base64 text gives, or `n` zero bytes
/// when it gives none or another number: text that does not percent-decode
/// counts as empty.
pub open spec fn key_or_zeros(text: Seq<char>, n: nat) -> Seq<u8> {
    let t = match url_decoded(text) {
        Some(t) => t,
        None => Seq::empty(),
    };
    match base64_bytes(t) {
        Some(b) => if b.len() == n {
            b
        } else {
            zeros(n)
        },
        None => zeros(n),
    }
}

/// The `N` bytes that percent-encoded base64 text gives, or zeros.
fn bytes_or_zeros(text: &str, n: usize) -> (b: Vec<u8>)
    ensures
        b@ == key_or_zeros(text@, n as nat),
{
    let t = match url_decode(text) {
        Ok(t) => t,
        Err(_) => String::new(),
    };
    let mut zero: Vec<u8> = Vec::new();
    let mut i: usize = 0;
    while i < n
        invariant
            i <= n,
            zero@ == zeros(i as nat),
        decreases n - i,
    {
        zero.push(0);
        assert(zero@ =~= zeros((i + 1) as nat));
        i = i + 1;
    }
    match b64_decode(t.as_str()) {
        Ok(b) => if b.len() == n {
            b
        } else {
            zero
        },
        Err(_) => zero,
    }
}

/// The first 32 bytes of `b`, which has 32.
fn to_array32(b: &Vec<u8>) -> (a: [u8; 32])
    requires
        b@.len() == 32,
    ensures
        a@ == b@,
{
    let mut a = [0u8; 32];
    let mut i: usize = 0;
    while i < 32
        invariant
            i <= 32,
            b@.len() == 32,
            a@.len() == 32,
            a@.take(i as int) =~= b@.take(i as int),
        decreases 32 - i,
    {
        a[i] = b[i];
        assert(a@.take(i + 1) =~= b@.take(i + 1));
        i = i + 1;
    }
    assert(a@.take(a@.len() as int) =~= a@);
    assert(b@.take(b@.len() as int) =~= b@);
    assert(a@ =~= b@);
    a
}

/// The first 8 bytes of `b`, which has 8.
fn to_array8(b: &Vec<u8>) -> (a: [u8; 8])
    requires
        b@.len() == 8,
    ensures
        a@ == b@,
{
    let mut a = [0u8; 8];
    let mut i: usize = 0;
    while i < 8
        invariant
            i <= 8,
            b@.len() == 8,
            a@.len() == 8,
            a@.take(i as int) =~= b@.take(i as int),
        decreases 8 - i,
    {
        a[i] = b[i];
        assert(a@.take(i + 1) =~= b@.take(i + 1));
        i = i + 1;
    }
    assert(a@.take(a@.len() as int) =~= a@);
    assert(b@.take(b@.len() as int) =~= b@);
    assert(a@ =~= b@);
    a
}

/// A token given as text: its number, or 0 when it is not one.
pub open spec fn token_of(text: Seq<char>) -> u128 {
    match spec_parse_unsigned(text, u128::MAX as nat) {
        Some(v) => v as u128,
        None => 0,
    }
}

/// A token given as text: its number, or 0 when it is not one.
pub fn parse_token(text: &str) -> (t: u128)
    ensures
        t == token_of(text@),
{
    match parse_unsigned(text, 0xffff_ffff_ffff_ffff_ffff_ffff_ffff_ffff) {
        Some(v) => v,
        None => 0,
    }
}

/// The text of an optional string.
pub open spec fn opt_text(o: Option<String>) -> Option<Seq<char>> {
    match o {
        Some(c) => Some(c@),
        None => None,
    }
}

/// The bytes of an optional key.
pub open spec fn opt_key(o: Option<[u8; 32]>) -> Option<Seq<u8>> {
    match o {
        Some(k) => Some(k@),
        None => None,
    }
}

/// What a request's session is checked with: the user's key, the server's
/// key, the token and the server's identifier. The token comes from the
/// `auth` cookie, else from the query; the keys from the query when given
/// there, else the key the connection came with, else zeros; and the
/// server's identifier from the query.
pub open spec fn params_of(
    cookie: Option<Seq<char>>,
    token_query: Seq<char>,
    user_pubkey_query: Seq<char>,
    server_pubkey_query: Seq<char>,
    server_id_query: Seq<char>,
    conn_pubkey: Option<Seq<u8>>,
) -> (Seq<u8>, Seq<u8>, u128, Seq<u8>) {
    let default_key = match conn_pubkey {
        Some(k) => k,
        None => zeros(32),
    };
    (
        if user_pubkey_query.len() != 0 {
            key_or_zeros(user_pubkey_query, 32)
        } else {
            default_key
        },
        if server_pubkey_query.len() != 0 {
            key_or_zeros(server_pubkey_query, 32)
        } else {
            default_key
        },
        token_of(
            match cookie {
                Some(c) => c,
                None => token_query,
            },
        ),
        key_or_zeros(server_id_query, 8),
    )
}

/// What a request's session is checked with; see [`params_of`].
pub fn auth_params(
    cookie: Option<String>,
    token_query: String,
    user_pubkey_query: String,
    server_pubkey_query: String,
    server_id_query: String,
    conn_pubkey: Option<[u8; 32]>,
) -> (p: AuthParams)
    ensures
        (p.user_pubkey@, p.server_pubkey@, p.token, p.server_id@) == params_of(
            opt_text(cookie),
            token_query@,
            user_pubkey_query@,
            server_pubkey_query@,
            server_id_query@,
            opt_key(conn_pubkey),
        ),
{
    let token_text = match cookie {
        Some(c) => c,
        None => token_query,
    };
    let default_key = match conn_pubkey {
        Some(k) => k,
        None => [0u8; 32],
    };
    assert(conn_pubkey is None ==> default_key@ =~= zeros(32));
    let user_pubkey = if user_pubkey_query.as_str().unicode_len() != 0 {
        to_array32(&bytes_or_zeros(user_pubkey_query.as_str(), 32))
    } else {
        default_key
    };
    let server_pubkey = if server_pubkey_query.as_str().unicode_len() != 0 {
        to_array32(&bytes_or_zeros(server_pubkey_query.as_str(), 32))
    } else {
        default_key
    };
    let server_id = to_array8(&bytes_or_zeros(server_id_query.as_str(), 8));
    AuthParams { user_pubkey, server_pubkey, token: parse_token(token_text.as_str()), server_id }
}

/// Checks that a request's session may act with the roles `auth_flag`:
/// its parameters are read as [`auth_params`] says, and checked against the
/// store as [`DSContext::is_authorized`] does.
pub fn check_auth(
    ds_context: &DSContext,
    cookie: Option<String>,
    token_query: String,
    user_pubkey_query: String,
    server_pubkey_query: String,
    server_id_query: String,
    conn_pubkey: Option<[u8; 32]>,
    auth_flag: u64,
) -> (res: Result<(), Error>)
    ensures
        ({
            let p = params_of(
                opt_text(cookie),
                token_query@,
                user_pubkey_query@,
                server_pubkey_query@,
                server_id_query@,
                opt_key(conn_pubkey),
            );
            (res matches Err(e) && is_lmdb_error(e)) || exists|m: Map<Seq<u8>, Seq<u8>>, t: Option<u128>|
                #[trigger] authorization(m, p.0, p.1, p.2, p.3, auth_flag as u128, t, res)
        }),
{
    let ghost pp = params_of(
        opt_text(cookie),
        token_query@,
        user_pubkey_query@,
        server_pubkey_query@,
        server_id_query@,
        opt_key(conn_pubkey),
    );
    let p = auth_params(cookie, token_query, user_pubkey_query, server_pubkey_query, server_id_query, conn_pubkey);
    assert(pp == (p.user_pubkey@, p.server_pubkey@, p.token, p.server_id@));
    let r = ds_context.is_authorized(p.user_pubkey, p.server_pubkey, p.token, p.server_id, auth_flag as u128);
    proof {
        if !(r is Err && is_lmdb_error(r->Err_0)) {
            let (m, t) = choose|m: Map<Seq<u8>, Seq<u8>>, t: Option<u128>|
                #[trigger] authorization(m, p.user_pubkey@, p.server_pubkey@, p.token, p.server_id@, auth_flag as u128, t, r);
            assert(authorization(m, pp.0, pp.1, pp.2, pp.3, auth_flag as u128, t, r));
        }
    }
    r
}

/// The text a challenge is handed out as: its base64, percent-encoded.
pub fn challenge_text(challenge: [u8; 8]) -> (s: String)
    ensures
        s@ == percent_encode(encode_utf8(base64_text(challenge@))),
{
    let t = b64_encode(challenge.as_slice());
    url_encode(t.as_str())
}

/// The bytes of percent-encoded base64 text, which must be `n` of them.
pub fn decode_param(text: &str, n: usize) -> (res: Result<Vec<u8>, Error>)
    ensures
        match spec_id_from_urlencoding(text@, n as nat) {
            Ok(b) => res matches Ok(v) && v@ == b,
            Err(f) => res matches Err(e) && id_failure_kind(f, e.inner, false),
        },
{
    let t = match url_decode(text) {
        Ok(t) => t,
        Err(m) => {
            return Err(Error::new(ErrorKind::FromUtf8Error(m)));
        },
    };
    let b = match b64_decode(t.as_str()) {
        Ok(b) => b,
        Err(m) => {
            return Err(Error::new(ErrorKind::DecodeError(m)));
        },
    };
    if b.len() != n {
        return Err(Error::new(ErrorKind::TryFromSliceError("could not convert slice to array".to_owned())));
    }
    Ok(b)
}

/// The user's key, the challenge and the signature of a signed challenge,
/// each given as percent-encoded base64.
pub fn challenge_auth_params(user_pubkey: &str, challenge: &str, signature: &str) -> (res: Result<
    ([u8; 32], [u8; 8], [u8; 64]),
    Error,
>)
    ensures
        match (
            spec_id_from_urlencoding(user_pubkey@, 32),
            spec_id_from_urlencoding(challenge@, 8),
            spec_id_from_urlencoding(signature@, 64),
        ) {
            (Ok(k), Ok(c), Ok(s)) => res matches Ok(r) && r.0@ == k && r.1@ == c && r.2@ == s,
            (Err(f), _, _) => res matches Err(e) && id_failure_kind(f, e.inner, false),
            (Ok(_), Err(f), _) => res matches Err(e) && id_failure_kind(f, e.inner, false),
            (Ok(_), Ok(_), Err(f)) => res matches Err(e) && id_failure_kind(f, e.inner, false),
        },
{
    let k = decode_param(user_pubkey, 32)?;
    let c = decode_param(challenge, 8)?;
    let s = decode_param(signature, 64)?;
    let mut sig = [0u8; 64];
    let mut i: usize = 0;
    while i < 64
        invariant
            i <= 64,
            s@.len() == 64,
            sig@.len() == 64,
            sig@.take(i as int) =~= s@.take(i as int),
        decreases 64 - i,
    {
        sig[i] = s[i];
        assert(sig@.take(i + 1) =~= s@.take(i + 1));
        i = i + 1;
    }
    assert(sig@.take(64) =~= sig@);
    assert(s@.take(64) =~= s@);
    assert(sig@ =~= s@);
    Ok((to_array32(&k), to_array8(&c), sig))
}

/// Whether `sig` is a valid ed25519 signature of `msg` by the key `pubkey`:
/// the key must be a point of the curve and the signature well formed.
pub uninterp spec fn ed25519_valid(pubkey: Seq<u8>, msg: Seq<u8>, sig: Seq<u8>) -> bool;

/// Checks an ed25519 signature.
///
/// Calls `ed25519_dalek::PublicKey::from_bytes` on the key,
/// `ed25519::Signature::from_bytes` on the signature, and
/// `PublicKey::verify`; any of them failing makes the check fail. The
/// answer is a function of the three byte strings, named `ed25519_valid`.
#[verifier::external_body]
fn ed25519_verify(pubkey: &[u8; 32], msg: &[u8], sig: &[u8; 64]) -> (ok: bool)
    ensures
        ok == ed25519_valid(pubkey@, msg@, sig@),
{
    let key = match ed25519_dalek::PublicKey::from_bytes(pubkey) {
        Ok(k) => k,
        Err(_) => return false,
    };
    let signature = match ed25519_dalek::Signature::from_bytes(sig) {
        Ok(s) => s,
        Err(_) => return false,
    };
    key.verify(msg, &signature).is_ok()
}

/// Whether the challenge was signed by the user.
pub fn challenge_verified(user_pubkey: &[u8; 32], challenge: &[u8; 8], signature: &[u8; 64]) -> (ok: bool)
    ensures
        ok == ed25519_valid(user_pubkey@, challenge@, signature@),
{
    ed25519_verify(user_pubkey, challenge.as_slice(), signature)
}

/// Whether the token given as text is the one printed when the server
/// started.
pub fn token_matches(text: &str, auth_token: u128) -> (ok: bool)
    ensures
        ok == (token_of(text@) == auth_token),
{
    parse_token(text) == auth_token
}

/// The sign-in that answers a server's challenge: by token when one is
/// given, which must be a number, else with nothing.
pub fn challenge_reply(token: &Option<String>) -> (res: Result<AuthEvent, Error>)
    ensures
        match token {
            Some(t) => match spec_parse_unsigned(t@, u128::MAX as nat) {
                Some(v) => res matches Ok(a) && a@ == (None::<Seq<u8>>, Some(v as u128), None::<Seq<u8>>),
                None => res matches Err(e) && e.inner is ParseIntError,
            },
            None => res matches Ok(a) && a@ == (None::<Seq<u8>>, None::<u128>, None::<Seq<u8>>),
        },
{
    let token = match token {
        Some(t) => match parse_unsigned(t.as_str(), 0xffff_ffff_ffff_ffff_ffff_ffff_ffff_ffff) {
            Some(v) => SerOption(Some(U128(v))),
            None => {
                return Err(Error { inner: ErrorKind::ParseIntError("invalid token".to_owned()) });
            },
        },
        None => SerOption(None),
    };
    Ok(AuthEvent { pubkey: SerOption(None), signature: SerOption(None), token })
}

/// A session token handed out as text reads back as the same token: the
/// decimal text of a number parses as that number.
pub proof fn lemma_token_text_parses(token: u128)
    ensures
        token_of(decimal(token as nat)) == token,
        spec_parse_unsigned(decimal(token as nat), u128::MAX as nat) == Some(token as nat),
{
    lemma_decimal_digits(token as nat);
}

/// The owner's sign-in with the token printed when the server started: no
/// session when the token given is not that one; else a challenge for the
/// server's own key is stored and answered at once, giving a session that
/// does not expire.
pub fn owner_sign_in(ds: &DSContext, token: &str, auth_token: u128, local: [u8; 32]) -> (res: Result<
    Option<String>,
    Error,
>)
    ensures
        token_of(token@) != auth_token ==> res matches Ok(None),
        token_of(token@) == auth_token ==> (res matches Err(e) && is_lmdb_error(e)) || exists|
            c: [u8; 8],
            before: Map<Seq<u8>, Seq<u8>>,
            after: Map<Seq<u8>, Seq<u8>>,
            before2: Map<Seq<u8>, Seq<u8>>,
            after2: Map<Seq<u8>, Seq<u8>>,
            t: Option<u128>,
        |
            committed(before) && #[trigger] create_auth_challenge_outcome(before, after, local, Ok::<[u8; 8], Error>(c))
                && committed(after) && committed(before2) && #[trigger] validate_challenge_outcome(before2, after2, local, c, u128::MAX, t, res) && (res is Ok
                ==> committed(after2)),
{
    if !token_matches(token, auth_token) {
        return Ok(None);
    }
    let challenge = ds.create_auth_challenge(local)?;
    ds.validate_challenge(local, local, challenge, 0xffff_ffff_ffff_ffff_ffff_ffff_ffff_ffff, AUTH_FLAG_OWNER | AUTH_FLAG_MEMBER)
}

/// A new sign-in challenge for the user whose key is given as percent-encoded
/// base64: stored, then returned as percent-encoded base64.
pub fn new_challenge(ds: &DSContext, user_pubkey: &str) -> (res: Result<String, Error>)
    ensures
        match spec_id_from_urlencoding(user_pubkey@, 32) {
            Err(f) => res matches Err(e) && id_failure_kind(f, e.inner, false),
            Ok(k) => (res matches Err(e) && is_lmdb_error(e)) || exists|
                key: [u8; 32],
                c: [u8; 8],
                before: Map<Seq<u8>, Seq<u8>>,
                after: Map<Seq<u8>, Seq<u8>>,
            |
                key@ == k && committed(before) && #[trigger] create_auth_challenge_outcome(before, after, key, Ok::<[u8; 8], Error>(c))
                    && committed(after) && (res matches Ok(s) && s@ == percent_encode(encode_utf8(base64_text(c@)))),
        },
{
    let bytes = decode_param(user_pubkey, 32)?;
    let mut key = [0u8; 32];
    let mut i: usize = 0;
    while i < 32
        invariant
            bytes@.len() == 32,
            i <= 32,
            forall|j: int| 0 <= j < i ==> key@[j] == bytes@[j],
        decreases 32 - i,
    {
        key.set(i, bytes[i]);
        i = i + 1;
    }
    assert(key@ =~= bytes@);
    let challenge = ds.create_auth_challenge(key)?;
    Ok(challenge_text(challenge))
}

/// A user's sign-in with a signed challenge: the key, challenge and
/// signature are percent-encoded base64; no session when the signature is
/// not the user's signature of the challenge; else the session that
/// answering the challenge gives, with the token expiry.
pub fn challenge_sign_in(ds: &DSContext, local: [u8; 32], user_pubkey: &str, challenge: &str, signature: &str) -> (res:
    Result<Option<String>, Error>)
    ensures
        match (
            spec_id_from_urlencoding(user_pubkey@, 32),
            spec_id_from_urlencoding(challenge@, 8),
            spec_id_from_urlencoding(signature@, 64),
        ) {
            (Ok(k), Ok(c), Ok(s)) => if ed25519_valid(k, c, s) {
                (res matches Err(e) && is_lmdb_error(e)) || exists|
                    key: [u8; 32],
                    ch: [u8; 8],
                    before: Map<Seq<u8>, Seq<u8>>,
                    after: Map<Seq<u8>, Seq<u8>>,
                    t: Option<u128>,
                |
                    key@ == k && ch@ == c && committed(before) && #[trigger] validate_challenge_outcome(
                        before,
                        after,
                        key,
                        ch,
                        TOKEN_EXPIRATION,
                        t,
                        res,
                    ) && (res is Ok ==> committed(after))
            } else {
                res matches Ok(None)
            },
            (Err(f), _, _) => res matches Err(e) && id_failure_kind(f, e.inner, false),
            (Ok(_), Err(f), _) => res matches Err(e) && id_failure_kind(f, e.inner, false),
            (Ok(_), Ok(_), Err(f)) => res matches Err(e) && id_failure_kind(f, e.inner, false),
        },
{
    let (key, ch, sig) = challenge_auth_params(user_pubkey, challenge, signature)?;
    if !challenge_verified(&key, &ch, &sig) {
        return Ok(None);
    }
    ds.validate_challenge(key, local, ch, TOKEN_EXPIRATION, AUTH_FLAG_MEMBER)
}

} // verus!
