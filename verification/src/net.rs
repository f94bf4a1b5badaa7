//! Talking to other servers over Tor: the requests written, the long-poll
//! replies read back, and the invite links read.

use crate::encoding::{decimal, u128_to_decimal};
use crate::error::{Error, ErrorKind};
use crate::persistence::{parse_unsigned, spec_parse_unsigned};
use crate::ser::utf8_to_string;
use substring::Substring;
use vstd::prelude::*;
use vstd::string::StringExecFns;
use vstd::utf8::*;

verus! {

/// The parts of a URL that `url::Url::parse` gives, when it parses: the host
/// if there is one, the path, and the query if there is one.
pub uninterp spec fn url_parts(text: Seq<char>) -> Option<(Option<Seq<char>>, Seq<char>, Option<Seq<char>>)>;

/// The host, path and query of a URL.
///
/// Calls `url::Url::parse`; on success the host (as text), path and query
/// are copied out. What comes back is a function of the text, named
/// `url_parts`.
#[verifier::external_body]
fn parse_url(text: &str) -> (res: Option<(Option<String>, String, Option<String>)>)
    ensures
        match url_parts(text@) {
            Some((h, p, q)) => res matches Some((rh, rp, rq)) && rp@ == p && match (h, rh) {
                (Some(a), Some(b)) => b@ == a,
                (None, None) => true,
                _ => false,
            } && match (q, rq) {
                (Some(a), Some(b)) => b@ == a,
                (None, None) => true,
                _ => false,
            },
            None => res is None,
        },
{
    match url::Url::parse(text) {
        Ok(u) => Some((u.host().map(|h| h.to_string()), u.path().to_string(), u.query().map(|q| q.to_string()))),
        Err(_) => None,
    }
}

/// What `substring` gives: the characters from `start` to `end`, both cut
/// to the length of `s`; nothing when `end` is not past `start`.
pub open spec fn substring_spec(s: Seq<char>, start: nat, end: nat) -> Seq<char> {
    if end <= start {
        Seq::empty()
    } else {
        let a = if start <= s.len() {
            start
        } else {
            s.len()
        };
        let b = if end <= s.len() {
            end
        } else {
            s.len()
        };
        s.subrange(a as int, b as int)
    }
}

/// The characters of `s` from `start` to `end`.
///
/// Calls `Substring::substring` of the `substring` crate, which counts
/// characters, not bytes, and cuts both ends to the string's length.
#[verifier::external_body]
fn substring(s: &str, start: usize, end: usize) -> (r: String)
    ensures
        r@ == substring_spec(s@, start as nat, end as nat),
{
    s.substring(start, end).to_string()
}

/// The path of an invite link starts with `/i/`.
pub open spec fn is_invite_path(p: Seq<char>) -> bool {
    p.len() >= 3 && p[0] == '/' && p[1] == 'i' && p[2] == '/'
}

/// What an invite link with the host `host` and the path `path` names:
/// nothing if it has no host or its path does not start with `/i/`; else
/// the host and the invite number after `/i/`, which must be a number.
pub open spec fn spec_invite_from_parts(host: Option<Seq<char>>, path: Seq<char>) -> Result<Option<(Seq<char>, u128)>, ()> {
    match host {
        None => Ok(None),
        Some(h) => if !is_invite_path(path) {
            Ok(None)
        } else {
            match spec_parse_unsigned(substring_spec(path, 3, encode_utf8(path).len()), u128::MAX as nat) {
                Some(id) => Ok(Some((h, id as u128))),
                None => Err(()),
            }
        },
    }
}

/// What an invite link names (see [`spec_invite_from_parts`]), or nothing
/// when it is not a URL.
pub open spec fn spec_invite_url(text: Seq<char>) -> Option<Result<Option<(Seq<char>, u128)>, ()>> {
    match url_parts(text) {
        None => None,
        Some((host, path, _)) => Some(spec_invite_from_parts(host, path)),
    }
}

/// Whether the path starts with `/i/`.
fn starts_with_invite(p: &str) -> (r: bool)
    ensures
        r == is_invite_path(p@),
{
    if p.unicode_len() < 3 {
        return false;
    }
    p.get_char(0) == '/' && p.get_char(1) == 'i' && p.get_char(2) == '/'
}

/// Reads an invite link: the host it names (the server's onion address)
/// and the invite number; nothing when it is not an invite link.
pub fn parse_invite_url(invite_url: &str) -> (res: Result<Option<(String, u128)>, Error>)
    ensures
        match spec_invite_url(invite_url@) {
            None => res matches Err(e) && e.inner is ApplicationError,
            Some(Err(_)) => res matches Err(e) && e.inner is ParseIntError,
            Some(Ok(None)) => res matches Ok(None),
            Some(Ok(Some((h, id)))) => res matches Ok(Some((rh, rid))) && rh@ == h && rid == id,
        },
{
    let (host, path, _) = match parse_url(invite_url) {
        Some(parts) => parts,
        None => {
            return Err(Error { inner: ErrorKind::ApplicationError("invalid invite url".to_owned()) });
        },
    };
    invite_from_parts(host, path)
}

/// What an invite link with the host `host` (if any) and the path `path`
/// names; see [`spec_invite_from_parts`].
pub fn invite_from_parts(host: Option<String>, path: String) -> (res: Result<Option<(String, u128)>, Error>)
    ensures
        match spec_invite_from_parts(
            match host {
                Some(h) => Some(h@),
                None => None,
            },
            path@,
        ) {
            Err(_) => res matches Err(e) && e.inner is ParseIntError,
            Ok(None) => res matches Ok(None),
            Ok(Some((h, id))) => res matches Ok(Some((rh, rid))) && rh@ == h && rid == id,
        },
{
    let host = match host {
        Some(h) => h,
        None => {
            return Ok(None);
        },
    };
    if !starts_with_invite(path.as_str()) {
        return Ok(None);
    }
    let byte_len = path.as_str().as_bytes().len();
    let id_text = substring(path.as_str(), 3, byte_len);
    match parse_unsigned(id_text.as_str(), 0xffff_ffff_ffff_ffff_ffff_ffff_ffff_ffff) {
        Some(id) => Ok(Some((host, id))),
        None => Err(Error { inner: ErrorKind::ParseIntError("invalid invite id".to_owned()) }),
    }
}

/// The position at or after `k` where `pat` first occurs in `hay`.
pub open spec fn find_from(hay: Seq<u8>, pat: Seq<u8>, k: nat) -> Option<nat>
    decreases hay.len() + 1 - k,
{
    if k + pat.len() > hay.len() {
        None
    } else if hay.subrange(k as int, (k + pat.len()) as int) == pat {
        Some(k)
    } else {
        find_from(hay, pat, k + 1)
    }
}

/// A position found is one where the pattern occurs.
pub proof fn lemma_find_from(hay: Seq<u8>, pat: Seq<u8>, k: nat)
    ensures
        find_from(hay, pat, k) matches Some(i) ==> k <= i && i + pat.len() <= hay.len() && hay.subrange(
            i as int,
            (i + pat.len()) as int,
        ) == pat,
    decreases hay.len() + 1 - k,
{
    if k + pat.len() <= hay.len() && hay.subrange(k as int, (k + pat.len()) as int) != pat {
        lemma_find_from(hay, pat, k + 1);
    }
}

/// The position where `pat` first occurs in `hay`.
pub open spec fn spec_find(hay: Seq<u8>, pat: Seq<u8>) -> Option<nat> {
    find_from(hay, pat, 0)
}

/// The position where `pat` first occurs in `hay`.
pub fn find_bytes(hay: &[u8], pat: &[u8]) -> (r: Option<usize>)
    ensures
        match spec_find(hay@, pat@) {
            Some(i) => r == Some(i as usize),
            None => r is None,
        },
{
    let n = hay.len();
    let mut k: usize = 0;
    while k <= n && pat.len() <= n - k
        invariant
            n == hay@.len(),
            find_from(hay@, pat@, 0) == find_from(hay@, pat@, k as nat),
        decreases hay@.len() - k + 1,
    {
        let mut j: usize = 0;
        let mut same = true;
        while j < pat.len() && same
            invariant
                n == hay@.len(),
                k + pat@.len() <= hay@.len(),
                j <= pat@.len(),
                same <==> forall|t: int| 0 <= t < j ==> hay@[k + t] == pat@[t],
            decreases pat@.len() - j,
        {
            assert(k + j < hay@.len());
            if hay[k + j] != pat[j] {
                same = false;
            }
            j = j + 1;
        }
        if same {
            assert(hay@.subrange(k as int, k + pat@.len()) =~= pat@);
            return Some(k);
        }
        assert(hay@.subrange(k as int, k + pat@.len()) != pat@) by {
            let t = choose|t: int| 0 <= t < j && hay@[k + t] != pat@[t];
            assert(hay@.subrange(k as int, k + pat@.len())[t] == hay@[k + t]);
        }
        k = k + 1;
    }
    None
}

/// The end of the headers of an HTTP reply: `"\r\n\r\n"`.
pub open spec fn header_end() -> Seq<u8> {
    seq![13u8, 10, 13, 10]
}

/// The text that ends each batch of events in a long-poll reply:
/// `"//-----ENDJSON-----"`.
pub open spec fn end_marker() -> Seq<u8> {
    seq![47u8, 47, 45, 45, 45, 45, 45, 69, 78, 68, 74, 83, 79, 78, 45, 45, 45, 45, 45]
}

fn header_end_bytes() -> (b: Vec<u8>)
    ensures
        b@ == header_end(),
{
    let b: Vec<u8> = vec![13u8, 10, 13, 10];
    assert(b@ =~= header_end());
    b
}

fn end_marker_bytes() -> (b: Vec<u8>)
    ensures
        b@ == end_marker(),
{
    let b: Vec<u8> = vec![47u8, 47, 45, 45, 45, 45, 45, 69, 78, 68, 74, 83, 79, 78, 45, 45, 45, 45, 45];
    assert(b@ =~= end_marker());
    b
}

/// What is read of a long-poll reply so far: whether the headers are behind,
/// and the bytes not yet handed on.
pub struct ListenState {
    passed_headers: bool,
    data: Vec<u8>,
}

impl View for ListenState {
    type V = (bool, Seq<u8>);

    closed spec fn view(&self) -> (bool, Seq<u8>) {
        (self.passed_headers, self.data@)
    }
}

/// The state after the reply bytes `chunk` arrive in the state `(passed,
/// data)`, and what is handed on: the text of a batch of events when one is
/// complete, or a failure when the bytes are not UTF-8. The headers are
/// skipped once; after a batch, the 17 bytes from its start of the end
/// marker are dropped with it.
pub open spec fn listen_step_spec(passed: bool, data: Seq<u8>, chunk: Seq<u8>) -> (bool, Seq<u8>, Result<
    Option<Seq<char>>,
    (),
>) {
    let d1 = data + chunk;
    if !valid_utf8(d1) {
        (passed, d1, Err(()))
    } else {
        let (p2, d2) = if !passed {
            match spec_find(d1, header_end()) {
                Some(e) => (true, d1.skip((e + 4) as int)),
                None => (false, d1),
            }
        } else {
            (true, d1)
        };
        if !valid_utf8(d2) {
            (p2, d2, Err(()))
        } else {
            match spec_find(d2, end_marker()) {
                Some(i) => if valid_utf8(d2.take(i as int)) {
                    (p2, d2.skip((i + 17) as int), Ok(Some(decode_utf8(d2.take(i as int)))))
                } else {
                    (p2, d2.skip((i + 17) as int), Err(()))
                },
                None => (p2, d2, Ok(None)),
            }
        }
    }
}

/// The bytes of `v` from `start` on.
fn tail(v: &Vec<u8>, start: usize) -> (t: Vec<u8>)
    requires
        start <= v@.len(),
    ensures
        t@ == v@.skip(start as int),
{
    let mut t: Vec<u8> = Vec::new();
    let mut i: usize = start;
    while i < v.len()
        invariant
            start <= i <= v@.len(),
            t@ == v@.subrange(start as int, i as int),
        decreases v@.len() - i,
    {
        t.push(v[i]);
        assert(t@ =~= v@.subrange(start as int, i + 1));
        i = i + 1;
    }
    assert(v@.skip(start as int) =~= v@.subrange(start as int, v@.len() as int));
    t
}

/// The bytes of `v` before `end`.
fn head(v: &Vec<u8>, end: usize) -> (h: Vec<u8>)
    requires
        end <= v@.len(),
    ensures
        h@ == v@.take(end as int),
{
    let mut h: Vec<u8> = Vec::new();
    let mut i: usize = 0;
    while i < end
        invariant
            i <= end <= v@.len(),
            h@ == v@.take(i as int),
        decreases end - i,
    {
        h.push(v[i]);
        assert(h@ =~= v@.take(i + 1));
        i = i + 1;
    }
    h
}

impl ListenState {
    /// Nothing read yet.
    pub fn new() -> (s: ListenState)
        ensures
            s@ == (false, Seq::<u8>::empty()),
    {
        ListenState { passed_headers: false, data: Vec::new() }
    }

    /// Takes in the reply bytes `chunk`; hands on the text of a batch of
    /// events if one is complete. See [`listen_step_spec`].
    pub fn listen_step(&mut self, chunk: &[u8]) -> (res: Result<Option<String>, Error>)
        ensures
            ({
                let (p, d, r) = listen_step_spec(old(self)@.0, old(self)@.1, chunk@);
                &&& final(self)@ == (p, d)
                &&& match r {
                    Ok(Some(t)) => res matches Ok(Some(s)) && s@ == t,
                    Ok(None) => res matches Ok(None),
                    Err(_) => res matches Err(e) && e.inner is Utf8Error,
                }
            }),
    {
        let mut i: usize = 0;
        while i < chunk.len()
            invariant
                i <= chunk@.len(),
                self.passed_headers == old(self)@.0,
                self.data@ == old(self)@.1 + chunk@.take(i as int),
            decreases chunk@.len() - i,
        {
            self.data.push(chunk[i]);
            assert(chunk@.take(i + 1) =~= chunk@.take(i as int).push(chunk@[i as int]));
            i = i + 1;
        }
        assert(chunk@.take(chunk@.len() as int) =~= chunk@);
        if utf8_to_string(self.data.as_slice()).is_none() {
            return Err(Error { inner: ErrorKind::Utf8Error("invalid utf-8 in reply".to_owned()) });
        }
        if !self.passed_headers {
            let he = header_end_bytes();
            proof {
                lemma_find_from(self.data@, header_end(), 0);
            }
            let len = self.data.len();
            match find_bytes(self.data.as_slice(), he.as_slice()) {
                Some(e) => {
                    assert(e + 4 <= len);
                    self.passed_headers = true;
                    let rest = tail(&self.data, e + 4);
                    self.data = rest;
                },
                None => {},
            }
        }
        if utf8_to_string(self.data.as_slice()).is_none() {
            return Err(Error { inner: ErrorKind::Utf8Error("invalid utf-8 in reply".to_owned()) });
        }
        let em = end_marker_bytes();
        proof {
            lemma_find_from(self.data@, end_marker(), 0);
        }
        let len = self.data.len();
        match find_bytes(self.data.as_slice(), em.as_slice()) {
            Some(index) => {
                assert(index + 19 <= len);
                let json = head(&self.data, index);
                let rest = tail(&self.data, index + 17);
                self.data = rest;
                match utf8_to_string(json.as_slice()) {
                    Some(s) => Ok(Some(s)),
                    None => Err(Error { inner: ErrorKind::Utf8Error("invalid utf-8 in reply".to_owned()) }),
                }
            },
            None => Ok(None),
        }
    }
}

/// The request that starts a long poll: a POST of `post_data` to `path`.
pub fn listen_request(path: &str, post_data: &str) -> (r: String)
    ensures
        r@ == "POST "@ + path@ + " HTTP/1.1\r\nConnection: Close\r\nContent-Length: "@ + decimal(
            encode_utf8(post_data@).len(),
        ) + "\r\nHost: localhost\r\n\r\n"@ + post_data@,
{
    let len = post_data.as_bytes().len();
    let mut r = "POST ".to_owned();
    r.append(path);
    r.append(" HTTP/1.1\r\nConnection: Close\r\nContent-Length: ");
    r.append(u128_to_decimal(len as u128).as_str());
    r.append("\r\nHost: localhost\r\n\r\n");
    r.append(post_data);
    r
}

/// A GET request for `path`.
pub fn get_request(path: &str) -> (r: String)
    ensures
        r@ == "GET "@ + path@ + " HTTP/1.1\r\nConnection: Close\r\nHost: localhost\r\n\r\n"@,
{
    let mut r = "GET ".to_owned();
    r.append(path);
    r.append(" HTTP/1.1\r\nConnection: Close\r\nHost: localhost\r\n\r\n");
    r
}

/// A POST request of `data` to `path`: the headers, then the data.
pub fn post_request(path: &str, data: &[u8]) -> (r: Vec<u8>)
    ensures
        r@ == encode_utf8(
            "POST "@ + path@ + " HTTP/1.1\r\nConnection: Close\r\nHost: localhost\r\nContent-Length: "@ + decimal(
                data@.len(),
            ) + "\r\n\r\n"@,
        ) + data@,
{
    let mut headers = "POST ".to_owned();
    headers.append(path);
    headers.append(" HTTP/1.1\r\nConnection: Close\r\nHost: localhost\r\nContent-Length: ");
    headers.append(u128_to_decimal(data.len() as u128).as_str());
    headers.append("\r\n\r\n");
    let hb = headers.as_str().as_bytes();
    let mut r: Vec<u8> = Vec::new();
    let mut i: usize = 0;
    while i < hb.len()
        invariant
            i <= hb@.len(),
            r@ == hb@.take(i as int),
        decreases hb@.len() - i,
    {
        r.push(hb[i]);
        assert(r@ =~= hb@.take(i + 1));
        i = i + 1;
    }
    assert(hb@.take(hb@.len() as int) =~= hb@);
    let mut j: usize = 0;
    let ghost h = r@;
    while j < data.len()
        invariant
            j <= data@.len(),
            r@ == h + data@.take(j as int),
        decreases data@.len() - j,
    {
        r.push(data[j]);
        assert(r@ =~= h + data@.take(j + 1));
        j = j + 1;
    }
    assert(data@.take(data@.len() as int) =~= data@);
    r
}

/// Where a long poll goes: the host of its URL, or `notfound`, and its path
/// with `?` and its query, which may be empty.
pub fn listen_target(url: &str) -> (res: Result<(String, String), Error>)
    ensures
        match url_parts(url@) {
            Some((h, p, q)) => res matches Ok((rh, rp)) && rh@ == match h {
                Some(x) => x,
                None => "notfound"@,
            } && rp@ == p + "?"@ + match q {
                Some(x) => x,
                None => ""@,
            },
            None => res matches Err(e) && e.inner is TorError,
        },
{
    let (host, path, query) = match parse_url(url) {
        Some(parts) => parts,
        None => {
            return Err(Error { inner: ErrorKind::TorError("url parse error".to_owned()) });
        },
    };
    let host = match host {
        Some(h) => h,
        None => "notfound".to_owned(),
    };
    let mut p = path;
    p.append("?");
    match query {
        Some(q) => p.append(q.as_str()),
        None => p.append(""),
    }
    Ok((host, p))
}

/// Where the headers of a websocket handshake reply end in the first
/// `filled` bytes of `buf`: just past the first `"\r\n\r\n"`.
pub fn client_header_end(buf: &[u8], filled: usize) -> (r: Option<usize>)
    requires
        filled <= buf@.len(),
    ensures
        match spec_find(buf@.take(filled as int), header_end()) {
            Some(i) => r == Some((i + 4) as usize),
            None => r is None,
        },
{
    let mut prefix: Vec<u8> = Vec::new();
    let mut i: usize = 0;
    while i < filled
        invariant
            i <= filled <= buf@.len(),
            prefix@ == buf@.take(i as int),
        decreases filled - i,
    {
        prefix.push(buf[i]);
        assert(prefix@ =~= buf@.take(i + 1));
        i = i + 1;
    }
    let he = header_end_bytes();
    proof {
        lemma_find_from(prefix@, header_end(), 0);
    }
    let len = prefix.len();
    match find_bytes(prefix.as_slice(), he.as_slice()) {
        Some(e) => {
            assert(e + 4 <= len);
            Some(e + 4)
        },
        None => None,
    }
}

/// The handshake that opens a websocket to another server, with the key
/// `sec_key` (base64).
pub fn ws_upgrade_request(sec_key: &str) -> (r: String)
    ensures
        r@ == "GET /ws HTTP/1.1\r\nHost: localhost\r\nUpgrade: websocket\r\nSec-WebSocket-Key: "@ + sec_key@
            + "\r\n\r\n"@,
{
    let mut r = "GET /ws HTTP/1.1\r\nHost: localhost\r\nUpgrade: websocket\r\nSec-WebSocket-Key: ".to_owned();
    r.append(sec_key);
    r.append("\r\n\r\n");
    r
}

} // verus!
