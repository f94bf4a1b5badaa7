//! Long-poll listening: the events handed to listeners, and the interest
//! lists that listeners send.

use crate::context::{Interest, InterestModel, remote_line, remote_post_data_spec};
use crate::encoding::{base64_bytes, base64_text, decimal, digit_char, hex_digit, is_unreserved, percent_encode, percent_encode_byte, u128_to_decimal, url_decoded};
use crate::error::{Error, ErrorKind};
use crate::ser::views;
use crate::types::{IdTextFailure, Pubkey, ServerId, id_failure_kind, spec_id_from_urlencoding};
use vstd::prelude::*;
use vstd::string::StrSliceExecFns;
use vstd::utf8::*;

verus! {

/// The type of an event that carries a message.
pub const EVENT_TYPE_MESSAGE: u16 = 1;

/// The type of the event that tells a listener to reconnect.
pub const EVENT_TYPE_TIMEOUT: u16 = 4;

/// An event handed to a listener, as text fields.
#[derive(Debug)]
pub struct Event {
    pub etype: u16,
    pub ebody: String,
    pub timestamp: String,
    pub user_pubkey: String,
    pub server_pubkey: String,
    pub server_id: String,
    pub channel_id: String,
}

/// The model of a listener event: its type, then its text fields in order.
pub type EventModel = (u16, Seq<char>, Seq<char>, Seq<char>, Seq<char>, Seq<char>, Seq<char>);

impl View for Event {
    type V = EventModel;

    open spec fn view(&self) -> EventModel {
        (
            self.etype,
            self.ebody@,
            self.timestamp@,
            self.user_pubkey@,
            self.server_pubkey@,
            self.server_id@,
            self.channel_id@,
        )
    }
}

impl Event {
    /// A copy of this event.
    pub fn duplicate(&self) -> (e: Event)
        ensures
            e@ == self@,
    {
        Event {
            etype: self.etype,
            ebody: self.ebody.clone(),
            timestamp: self.timestamp.clone(),
            user_pubkey: self.user_pubkey.clone(),
            server_pubkey: self.server_pubkey.clone(),
            server_id: self.server_id.clone(),
            channel_id: self.channel_id.clone(),
        }
    }
}

/// Copies of `events`, in order.
pub fn duplicate_events(events: &Vec<Event>) -> (copies: Vec<Event>)
    ensures
        copies@.len() == events@.len(),
        forall|i: int| 0 <= i < events@.len() ==> #[trigger] copies@[i]@ == events@[i]@,
{
    let mut copies: Vec<Event> = Vec::new();
    let mut i: usize = 0;
    while i < events.len()
        invariant
            i <= events@.len(),
            copies@.len() == i,
            forall|j: int| 0 <= j < i ==> #[trigger] copies@[j]@ == events@[j]@,
        decreases events@.len() - i,
    {
        copies.push(events[i].duplicate());
        i = i + 1;
    }
    copies
}

/// The event that tells a listener that nothing came and it should listen
/// again: empty but for its type and the time, in decimal milliseconds.
pub fn timeout_event(time_now: u128) -> (e: Event)
    ensures
        e@ == (
            EVENT_TYPE_TIMEOUT,
            ""@,
            decimal(time_now as nat),
            ""@,
            ""@,
            ""@,
            ""@,
        ),
{
    Event {
        etype: EVENT_TYPE_TIMEOUT,
        ebody: "".to_owned(),
        timestamp: u128_to_decimal(time_now),
        user_pubkey: "".to_owned(),
        server_pubkey: "".to_owned(),
        server_id: "".to_owned(),
        channel_id: "".to_owned(),
    }
}

/// The pieces of `s` between occurrences of `c`, from left to right, as
/// `str::split` with a character gives them.
pub open spec fn split_char(s: Seq<char>, c: char) -> Seq<Seq<char>>
    decreases s.len(),
{
    if s.len() == 0 {
        seq![Seq::empty()]
    } else {
        let prev = split_char(s.drop_last(), c);
        if s.last() == c {
            prev.push(Seq::empty())
        } else {
            prev.update(prev.len() - 1, prev.last().push(s.last()))
        }
    }
}

/// The pieces of `s` between occurrences of `"\r\n"`, from left to right.
pub open spec fn split_crlf(s: Seq<char>) -> Seq<Seq<char>>
    decreases s.len(),
{
    if s.len() < 2 {
        seq![s]
    } else if s[0] == '\r' && s[1] == '\n' {
        seq![Seq::empty()] + split_crlf(s.skip(2))
    } else {
        let rest = split_crlf(s.skip(1));
        rest.update(0, seq![s[0]] + rest[0])
    }
}

/// The key-value pairs of a query string: the pieces between `&` that hold
/// an `=`, each split into what comes before the first `=` and what comes
/// between it and the next `=` or the end.
pub open spec fn query_pairs(s: Seq<char>) -> Seq<(Seq<char>, Seq<char>)> {
    split_char(s, '&').filter(|p: Seq<char>| split_char(p, '=').len() >= 2).map_values(
        |p: Seq<char>| (split_char(p, '=')[0], split_char(p, '=')[1]),
    )
}

/// The pieces of `s` between occurrences of `"\r\n"`.
///
/// Calls `str::split` with the pattern `"\r\n"`, which finds the pattern
/// from left to right, and copies each piece into a `String`.
#[verifier::external_body]
fn split_lines(s: &str) -> (pieces: Vec<String>)
    ensures
        pieces@.len() == split_crlf(s@).len(),
        forall|i: int| 0 <= i < pieces@.len() ==> #[trigger] pieces@[i]@ == split_crlf(s@)[i],
{
    s.split("\r\n").map(|p| p.to_string()).collect()
}

/// The key-value pairs of a query string.
///
/// Calls `querystring::querify`, which splits on `&`, keeps the pieces that
/// split on `=` into at least two parts, and pairs the first two parts; the
/// pairs are copied into `String`s.
#[verifier::external_body]
fn querify(s: &str) -> (pairs: Vec<(String, String)>)
    ensures
        pairs@.len() == query_pairs(s@).len(),
        forall|i: int| 0 <= i < pairs@.len() ==> (#[trigger] pairs@[i].0@, pairs@[i].1@) == query_pairs(s@)[i],
{
    querystring::querify(s).into_iter().map(|(k, v)| (k.to_string(), v.to_string())).collect()
}

/// The value given last for `key` among `pairs`, if any.
pub open spec fn query_value(pairs: Seq<(Seq<char>, Seq<char>)>, key: Seq<char>) -> Option<Seq<char>>
    decreases pairs.len(),
{
    if pairs.len() == 0 {
        None
    } else if pairs.last().0 == key {
        Some(pairs.last().1)
    } else {
        query_value(pairs.drop_last(), key)
    }
}

/// The value given last for `key` among `pairs`, if any.
fn query_get(pairs: &Vec<(String, String)>, key: &str) -> (v: Option<String>)
    ensures
        match query_value(pairs@.map_values(|p: (String, String)| (p.0@, p.1@)), key@) {
            Some(s) => v matches Some(t) && t@ == s,
            None => v is None,
        },
{
    let ghost ps = pairs@.map_values(|p: (String, String)| (p.0@, p.1@));
    let key_s = key.to_owned();
    let mut i: usize = pairs.len();
    assert(ps.take(pairs@.len() as int) =~= ps);
    while i > 0
        invariant
            i <= pairs@.len(),
            key_s@ == key@,
            ps == pairs@.map_values(|p: (String, String)| (p.0@, p.1@)),
            query_value(ps, key@) == query_value(ps.take(i as int), key@),
        decreases i,
    {
        assert(ps.take(i as int).drop_last() =~= ps.take(i - 1));
        assert(ps.take(i as int).last() == ps[i - 1]);
        if pairs[i - 1].0 == key_s {
            return Some(pairs[i - 1].1.clone());
        }
        i = i - 1;
    }
    None
}

/// The decimal digits of `s`, after a leading `+` if there is one.
pub open spec fn unsigned_digits(s: Seq<char>) -> Seq<char> {
    if s.len() > 0 && s[0] == '+' {
        s.skip(1)
    } else {
        s
    }
}

/// The number that the decimal digits `d` write.
pub open spec fn digits_value(d: Seq<char>) -> nat
    decreases d.len(),
{
    if d.len() == 0 {
        0
    } else {
        digits_value(d.drop_last()) * 10 + (d.last() as nat - 48) as nat
    }
}

/// Every character of `d` is a decimal digit.
pub open spec fn all_digits(d: Seq<char>) -> bool {
    forall|i: int| 0 <= i < d.len() ==> '0' <= #[trigger] d[i] <= '9'
}

/// What `str::parse` gives for an unsigned number of at most `max`: a `+`
/// may come first, then at least one decimal digit and nothing else, and the
/// number must not exceed `max`.
pub open spec fn spec_parse_unsigned(s: Seq<char>, max: nat) -> Option<nat> {
    let d = unsigned_digits(s);
    if d.len() > 0 && all_digits(d) && digits_value(d) <= max {
        Some(digits_value(d))
    } else {
        None
    }
}

proof fn lemma_digits_value_step(d: Seq<char>, i: int)
    requires
        0 <= i < d.len(),
    ensures
        digits_value(d.take(i + 1)) == digits_value(d.take(i)) * 10 + (d[i] as nat - 48) as nat,
{
    assert(d.take(i + 1).drop_last() =~= d.take(i));
}

proof fn lemma_digits_value_mono(d: Seq<char>, i: int)
    requires
        0 <= i <= d.len(),
        all_digits(d),
    ensures
        digits_value(d.take(i)) <= digits_value(d),
    decreases d.len() - i,
{
    if i < d.len() {
        lemma_digits_value_mono(d, i + 1);
        lemma_digits_value_step(d, i);
    } else {
        assert(d.take(i) =~= d);
    }
}

/// The decimal text of a number is a run of digits, with no sign, that
/// writes the number.
pub(crate) proof fn lemma_decimal_digits(n: nat)
    ensures
        decimal(n).len() > 0,
        all_digits(decimal(n)),
        digits_value(decimal(n)) == n,
        decimal(n)[0] != '+',
    decreases n,
{
    if n >= 10 {
        lemma_decimal_digits(n / 10);
        let d = decimal(n);
        assert(d.drop_last() == decimal(n / 10));
        assert forall|i: int| 0 <= i < d.len() implies '0' <= #[trigger] d[i] <= '9' by {
            if i < d.len() - 1 {
                assert(d[i] == decimal(n / 10)[i]);
            }
        }
        assert(d[0] == decimal(n / 10)[0]);
        let c = digit_char(n % 10);
        assert(c as nat == n % 10 + 48);
        assert(d.last() == c);
        assert(digits_value(d) == digits_value(d.drop_last()) * 10 + (d.last() as nat - 48) as nat);
        assert(n == (n / 10) * 10 + n % 10);
    } else {
        let c = digit_char(n);
        assert(c as nat == n + 48);
        assert(decimal(n).drop_last() =~= Seq::<char>::empty());
        assert(digits_value(Seq::<char>::empty()) == 0);
        assert(digits_value(decimal(n)) == digits_value(decimal(n).drop_last()) * 10 + (decimal(n).last() as nat - 48) as nat);
    }
}

/// Parses an unsigned decimal number of at most `max`, as `str::parse` does
/// for an unsigned integer type whose largest value is `max`.
pub fn parse_unsigned(s: &str, max: u128) -> (r: Option<u128>)
    ensures
        match spec_parse_unsigned(s@, max as nat) {
            Some(v) => r == Some(v as u128),
            None => r is None,
        },
{
    let n = s.unicode_len();
    let mut start: usize = 0;
    if n > 0 && s.get_char(0) == '+' {
        start = 1;
    }
    let ghost d = unsigned_digits(s@);
    assert(d =~= s@.skip(start as int));
    if start >= n {
        return None;
    }
    let mut acc: u128 = 0;
    let mut i: usize = start;
    while i < n
        invariant
            start <= i <= n,
            n == s@.len(),
            d == s@.skip(start as int),
            d == unsigned_digits(s@),
            d.len() > 0,
            all_digits(d.take(i - start)),
            acc as nat == digits_value(d.take(i - start)),
            acc <= max,
        decreases n - i,
    {
        let c = s.get_char(i);
        assert(c == d[i - start]);
        if !('0' <= c && c <= '9') {
            assert(!all_digits(d));
            return None;
        }
        let digit = (c as u32 - 48) as u128;
        proof {
            lemma_digits_value_step(d, i - start);
        }
        if digit > max {
            proof {
                if all_digits(d) {
                    lemma_digits_value_mono(d, i - start + 1);
                }
            }
            return None;
        }
        if acc > (max - digit) / 10 {
            proof {
                assert(acc * 10 + digit > max) by (nonlinear_arith)
                    requires
                        acc > (max - digit) / 10,
                        digit <= max,
                ;
                if all_digits(d) {
                    lemma_digits_value_mono(d, i - start + 1);
                }
            }
            return None;
        }
        assert(acc * 10 + digit <= max) by (nonlinear_arith)
            requires
                acc <= (max - digit) / 10,
                digit <= max,
        ;
        acc = acc * 10 + digit;
        assert(all_digits(d.take(i + 1 - start))) by {
            assert forall|k: int| 0 <= k < d.take(i + 1 - start).len() implies '0' <= #[trigger] d.take(i + 1 - start)[k]
                <= '9' by {
                if k < i - start {
                    assert(d.take(i + 1 - start)[k] == d.take(i - start)[k]);
                }
            }
        }
        i = i + 1;
    }
    assert(d.take(n - start) =~= d);
    Some(acc)
}

/// Why a line of an interest list was refused.
#[derive(Debug, Clone, Copy, PartialEq, Eq, Structural)]
pub enum InterestFailure {
    /// The line names no server key.
    NoServerPubkey,
    /// The line names no server identifier.
    NoServerId,
    /// The channel given is not a number.
    BadChannelId,
    /// The sequence number given is not a number.
    BadSeqno,
    /// The server key given is not one.
    ServerPubkey(IdTextFailure),
    /// The server identifier given is not one.
    ServerId(IdTextFailure),
}

/// The interest that one line of an interest list names: a query string with
/// the server's key and identifier as percent-encoded base64, and perhaps a
/// channel and a sequence number, which must be numbers but are not kept.
pub open spec fn spec_interest_of(line: Seq<char>) -> Result<InterestModel, InterestFailure> {
    let pairs = query_pairs(line);
    match query_value(pairs, "server_pubkey"@) {
        None => Err(InterestFailure::NoServerPubkey),
        Some(pk) => match query_value(pairs, "server_id"@) {
            None => Err(InterestFailure::NoServerId),
            Some(id) => if query_value(pairs, "channel_id"@) matches Some(c) && spec_parse_unsigned(
                c,
                u64::MAX as nat,
            ) is None {
                Err(InterestFailure::BadChannelId)
            } else if query_value(pairs, "seqno"@) matches Some(q) && spec_parse_unsigned(q, u64::MAX as nat) is None {
                Err(InterestFailure::BadSeqno)
            } else {
                match spec_id_from_urlencoding(pk, 32) {
                    Err(f) => Err(InterestFailure::ServerPubkey(f)),
                    Ok(pkb) => match spec_id_from_urlencoding(id, 8) {
                        Err(f) => Err(InterestFailure::ServerId(f)),
                        Ok(idb) => Ok((pkb, idb, None)),
                    },
                }
            },
        },
    }
}

/// The interests that the lines of an interest list name, in order; empty
/// lines are skipped, and the first line refused refuses the list.
pub open spec fn spec_interest_list(lines: Seq<Seq<char>>) -> Result<Seq<InterestModel>, InterestFailure>
    decreases lines.len(),
{
    if lines.len() == 0 {
        Ok(Seq::empty())
    } else {
        match spec_interest_list(lines.drop_last()) {
            Err(f) => Err(f),
            Ok(prev) => if lines.last().len() == 0 {
                Ok(prev)
            } else {
                match spec_interest_of(lines.last()) {
                    Err(f) => Err(f),
                    Ok(i) => Ok(prev.push(i)),
                }
            },
        }
    }
}

/// The kind of error reported for each refusal of an interest list.
pub open spec fn interest_failure_kind(f: InterestFailure, k: ErrorKind) -> bool {
    match f {
        InterestFailure::NoServerPubkey => k is ApplicationError,
        InterestFailure::NoServerId => k is ApplicationError,
        InterestFailure::BadChannelId => k is ParseIntError,
        InterestFailure::BadSeqno => k is ParseIntError,
        InterestFailure::ServerPubkey(g) => id_failure_kind(g, k, false),
        InterestFailure::ServerId(g) => id_failure_kind(g, k, false),
    }
}

/// The interest that one line of an interest list names.
fn interest_of(line: &str) -> (res: Result<Interest, Error>)
    ensures
        match spec_interest_of(line@) {
            Ok(i) => res matches Ok(x) && x@ == i,
            Err(f) => res matches Err(e) && interest_failure_kind(f, e.inner),
        },
{
    let pairs = querify(line);
    assert(pairs@.map_values(|p: (String, String)| (p.0@, p.1@)) =~= query_pairs(line@));
    let pk = match query_get(&pairs, "server_pubkey") {
        Some(v) => v,
        None => {
            return Err(Error { inner: ErrorKind::ApplicationError("server_pubkey must be specified".to_owned()) });
        },
    };
    let id = match query_get(&pairs, "server_id") {
        Some(v) => v,
        None => {
            return Err(Error { inner: ErrorKind::ApplicationError("server_id must be specified".to_owned()) });
        },
    };
    match query_get(&pairs, "channel_id") {
        Some(c) => {
            if parse_unsigned(c.as_str(), 0xffff_ffff_ffff_ffff).is_none() {
                return Err(Error { inner: ErrorKind::ParseIntError("invalid channel_id".to_owned()) });
            }
        },
        None => {},
    }
    match query_get(&pairs, "seqno") {
        Some(q) => {
            if parse_unsigned(q.as_str(), 0xffff_ffff_ffff_ffff).is_none() {
                return Err(Error { inner: ErrorKind::ParseIntError("invalid seqno".to_owned()) });
            }
        },
        None => {},
    }
    let server_pubkey = Pubkey::from_urlencoding(pk)?;
    let server_id = ServerId::from_urlencoding(id)?;
    Ok(Interest { server_pubkey: server_pubkey.to_bytes(), server_id: server_id.to_bytes(), channel_id: None })
}

/// Once a prefix of the lines is refused, the whole list is refused the same
/// way.
proof fn lemma_interest_list_err(lines: Seq<Seq<char>>, k: int)
    requires
        0 <= k <= lines.len(),
        spec_interest_list(lines.take(k)) is Err,
    ensures
        spec_interest_list(lines) == spec_interest_list(lines.take(k)),
    decreases lines.len() - k,
{
    if k < lines.len() {
        assert(lines.take(k + 1).drop_last() =~= lines.take(k));
        lemma_interest_list_err(lines, k + 1);
    } else {
        assert(lines.take(k) =~= lines);
    }
}

/// Reads an interest list: lines separated by `"\r\n"`, each naming one
/// interest; see [`spec_interest_list`].
pub fn parse_interest_list(content: &str) -> (res: Result<Vec<Interest>, Error>)
    ensures
        match spec_interest_list(split_crlf(content@)) {
            Ok(list) => res matches Ok(v) && views(v@) == list,
            Err(f) => res matches Err(e) && interest_failure_kind(f, e.inner),
        },
{
    let lines = split_lines(content);
    let ghost ls = split_crlf(content@);
    assert(lines@.map_values(|l: String| l@) =~= ls);
    let mut list: Vec<Interest> = Vec::new();
    let mut i: usize = 0;
    assert(ls.take(0) =~= Seq::<Seq<char>>::empty());
    assert(views(list@) =~= Seq::<InterestModel>::empty());
    while i < lines.len()
        invariant
            i <= lines@.len(),
            ls == split_crlf(content@),
            lines@.len() == ls.len(),
            forall|k: int| 0 <= k < lines@.len() ==> #[trigger] lines@[k]@ == ls[k],
            spec_interest_list(ls.take(i as int)) == Ok::<Seq<InterestModel>, InterestFailure>(views(list@)),
        decreases lines@.len() - i,
    {
        assert(ls.take(i + 1).drop_last() =~= ls.take(i as int));
        assert(ls.take(i + 1).last() == lines@[i as int]@);
        let line = lines[i].as_str();
        if line.unicode_len() != 0 {
            let interest = match interest_of(line) {
                Ok(x) => x,
                Err(e) => {
                    proof {
                        lemma_interest_list_err(ls, i + 1);
                    }
                    return Err(e);
                },
            };
            let ghost before = views(list@);
            list.push(interest);
            assert(views(list@) =~= before.push(interest@));
        }
        i = i + 1;
    }
    assert(ls.take(ls.len() as int) =~= ls);
    Ok(list)
}

/// The listener number that a listen or subscribe request names in its
/// query.
pub fn listener_id_of(query: &str) -> (res: Result<u128, Error>)
    ensures
        match spec_parse_unsigned(query@, u128::MAX as nat) {
            Some(v) => res matches Ok(id) && id == v,
            None => res matches Err(e) && e.inner is ParseIntError,
        },
{
    match parse_unsigned(query, 0xffff_ffff_ffff_ffff_ffff_ffff_ffff_ffff) {
        Some(v) => Ok(v),
        None => Err(Error { inner: ErrorKind::ParseIntError("invalid listener_id".to_owned()) }),
    }
}

/// No carriage return, `&` or `=` occurs in `s`.
#[verifier::opaque]
spec fn is_plain_value(s: Seq<char>) -> bool {
    forall|i: int| 0 <= i < s.len() ==> #[trigger] s[i] != '\r' && s[i] != '&' && s[i] != '='
}

proof fn lemma_plain_concat(a: Seq<char>, b: Seq<char>)
    requires
        is_plain_value(a),
        is_plain_value(b),
    ensures
        is_plain_value(a + b),
{
    reveal(is_plain_value);
    assert forall|i: int| 0 <= i < (a + b).len() implies #[trigger] (a + b)[i] != '\r' && (a + b)[i] != '&' && (a
        + b)[i] != '=' by {
        if i < a.len() {
            assert((a + b)[i] == a[i]);
        } else {
            assert((a + b)[i] == b[i - a.len()]);
        }
    }
}

/// Percent-encoded text holds no carriage return, `&` or `=`.
proof fn lemma_percent_encode_plain(bytes: Seq<u8>)
    ensures
        is_plain_value(percent_encode(bytes)),
    decreases bytes.len(),
{
    reveal(is_plain_value);
    if bytes.len() > 0 {
        lemma_percent_encode_plain(bytes.drop_last());
        let x = bytes.last();
        let b = percent_encode_byte(x);
        if is_unreserved(x) {
            assert(b[0] == x as char);
            assert(is_plain_value(b));
        } else {
            assert(hex_digit(x / 16) != '&' && hex_digit(x / 16) != '=' && hex_digit(x / 16) != '\r');
            assert(hex_digit(x % 16) != '&' && hex_digit(x % 16) != '=' && hex_digit(x % 16) != '\r');
            assert(is_plain_value(b));
        }
        lemma_plain_concat(percent_encode(bytes.drop_last()), b);
    }
}

/// Decimal text holds no carriage return, `&` or `=`.
proof fn lemma_decimal_plain(n: nat)
    ensures
        is_plain_value(decimal(n)),
{
    reveal(is_plain_value);
    lemma_decimal_digits(n);
    let d = decimal(n);
    assert forall|i: int| 0 <= i < d.len() implies #[trigger] d[i] != '\r' && d[i] != '&' && d[i] != '=' by {
        assert('0' <= d[i] <= '9');
    }
}

proof fn lemma_split_crlf_len(s: Seq<char>)
    ensures
        split_crlf(s).len() >= 1,
    decreases s.len(),
{
    if s.len() >= 2 {
        if s[0] == '\r' && s[1] == '\n' {
            lemma_split_crlf_len(s.skip(2));
        } else {
            lemma_split_crlf_len(s.skip(1));
        }
    }
}

/// Splitting at `"\r\n"` the text of two parts joined by `"\r\n"` gives the
/// pieces of the first part, then those of the second.
proof fn lemma_split_crlf_join(x: Seq<char>, y: Seq<char>)
    ensures
        split_crlf(x + "\r\n"@ + y) == split_crlf(x) + split_crlf(y),
    decreases x.len(),
{
    reveal_strlit("\r\n");
    let s = x + "\r\n"@ + y;
    if x.len() == 0 {
        assert(s.skip(2) =~= y);
        assert(x =~= Seq::<char>::empty());
        assert(split_crlf(s) =~= split_crlf(x) + split_crlf(y));
    } else if x.len() == 1 {
        let t = s.skip(1);
        assert(t =~= "\r\n"@ + y);
        assert(t.skip(2) =~= y);
        assert(split_crlf(t) == seq![Seq::<char>::empty()] + split_crlf(y));
        assert(seq![s[0]] + Seq::<char>::empty() =~= x);
        assert(split_crlf(s) =~= split_crlf(x) + split_crlf(y));
    } else if x[0] == '\r' && x[1] == '\n' {
        assert(s.skip(2) =~= x.skip(2) + "\r\n"@ + y);
        lemma_split_crlf_join(x.skip(2), y);
        assert(split_crlf(s) =~= split_crlf(x) + split_crlf(y));
    } else {
        assert(s.skip(1) =~= x.skip(1) + "\r\n"@ + y);
        lemma_split_crlf_join(x.skip(1), y);
        lemma_split_crlf_len(x.skip(1));
        assert(split_crlf(s) =~= split_crlf(x) + split_crlf(y));
    }
}

/// Text without a carriage return is one piece.
proof fn lemma_split_crlf_single(x: Seq<char>)
    requires
        forall|i: int| 0 <= i < x.len() ==> #[trigger] x[i] != '\r',
    ensures
        split_crlf(x) == seq![x],
    decreases x.len(),
{
    if x.len() >= 2 {
        assert(x.skip(1)[0] == x[1]);
        lemma_split_crlf_single(x.skip(1));
        assert(seq![x[0]] + x.skip(1) =~= x);
        assert(split_crlf(x) =~= seq![x]);
    }
}

proof fn lemma_split_char_len(s: Seq<char>, c: char)
    ensures
        split_char(s, c).len() >= 1,
    decreases s.len(),
{
    if s.len() > 0 {
        lemma_split_char_len(s.drop_last(), c);
    }
}

/// Splitting at `c` the text of two parts joined by `c` gives the pieces of
/// the first part, then those of the second.
proof fn lemma_split_char_join(x: Seq<char>, c: char, y: Seq<char>)
    ensures
        split_char(x + seq![c] + y, c) == split_char(x, c) + split_char(y, c),
    decreases y.len(),
{
    let s = x + seq![c] + y;
    if y.len() == 0 {
        assert(s.drop_last() =~= x);
        assert(split_char(s, c) =~= split_char(x, c) + split_char(y, c));
    } else {
        assert(s.drop_last() =~= x + seq![c] + y.drop_last());
        lemma_split_char_join(x, c, y.drop_last());
        lemma_split_char_len(y.drop_last(), c);
        assert(split_char(s, c) =~= split_char(x, c) + split_char(y, c));
    }
}

/// Text without `c` is one piece.
proof fn lemma_split_char_single(x: Seq<char>, c: char)
    requires
        forall|i: int| 0 <= i < x.len() ==> #[trigger] x[i] != c,
    ensures
        split_char(x, c) == seq![x],
    decreases x.len(),
{
    if x.len() > 0 {
        lemma_split_char_single(x.drop_last(), c);
        assert(x.drop_last().push(x.last()) =~= x);
        assert(split_char(x, c) =~= seq![x]);
    } else {
        assert(x =~= Seq::<char>::empty());
    }
}

proof fn lemma_filter_all(s: Seq<Seq<char>>, pred: spec_fn(Seq<char>) -> bool)
    requires
        forall|i: int| 0 <= i < s.len() ==> pred(#[trigger] s[i]),
    ensures
        s.filter(pred) == s,
    decreases s.len(),
{
    reveal(Seq::filter);
    if s.len() > 0 {
        lemma_filter_all(s.drop_last(), pred);
        assert(s.drop_last().push(s.last()) =~= s);
    }
}

/// No carriage return occurs in `s`.
#[verifier::opaque]
spec fn has_no_cr(s: Seq<char>) -> bool {
    forall|j: int| 0 <= j < s.len() ==> #[trigger] s[j] != '\r'
}

/// No carriage return or `&` occurs in `s`.
#[verifier::opaque]
spec fn has_no_amp_cr(s: Seq<char>) -> bool {
    forall|j: int| 0 <= j < s.len() ==> #[trigger] s[j] != '&' && s[j] != '\r'
}

/// A field `k=v` of a query, with neither part holding a carriage return,
/// `&` or `=`: it splits at `=` into `k` and `v`, and holds no carriage
/// return or `&`.
proof fn lemma_query_field(k: Seq<char>, v: Seq<char>)
    requires
        is_plain_value(k),
        is_plain_value(v),
    ensures
        split_char(k + seq!['='] + v, '=') == seq![k, v],
        has_no_amp_cr(k + seq!['='] + v),
{
    reveal(is_plain_value);
    lemma_split_char_join(k, '=', v);
    lemma_split_char_single(k, '=');
    lemma_split_char_single(v, '=');
    assert(seq![k] + seq![v] =~= seq![k, v]);
    let f = k + seq!['='] + v;
    reveal(has_no_amp_cr);
    assert forall|j: int| 0 <= j < f.len() implies #[trigger] f[j] != '&' && f[j] != '\r' by {
        if j < k.len() {
            assert(f[j] == k[j]);
        } else if j > k.len() {
            assert(f[j] == v[j - k.len() - 1]);
        }
    }
}

/// A text that holds neither a carriage return nor `&` is one piece when
/// split at `&`, and holds no carriage return.
proof fn lemma_query_last(x: Seq<char>)
    requires
        has_no_amp_cr(x),
    ensures
        split_char(x, '&') == seq![x],
        has_no_cr(x),
{
    reveal(has_no_amp_cr);
    reveal(has_no_cr);
    lemma_split_char_single(x, '&');
}

/// Two pieces joined by `&`, the first holding no carriage return or `&`,
/// the second no carriage return: the text splits at `&` into the first
/// piece and the pieces of the second.
proof fn lemma_query_join(x: Seq<char>, rest: Seq<Seq<char>>, y: Seq<char>)
    requires
        has_no_amp_cr(x),
        has_no_cr(y),
        split_char(y, '&') == rest,
    ensures
        split_char(x + seq!['&'] + y, '&') == seq![x] + rest,
        has_no_cr(x + seq!['&'] + y),
{
    reveal(has_no_amp_cr);
    reveal(has_no_cr);
    lemma_split_char_join(x, '&', y);
    lemma_split_char_single(x, '&');
    let s = x + seq!['&'] + y;
    assert forall|j: int| 0 <= j < s.len() implies #[trigger] s[j] != '\r' by {
        if j < x.len() {
            assert(s[j] == x[j]);
        } else if j > x.len() {
            assert(s[j] == y[j - x.len() - 1]);
        }
    }
}

/// The text of an identifier, percent-encoded base64, reads back as its
/// bytes.
pub open spec fn id_text_reads_back(b: Seq<u8>) -> bool {
    &&& url_decoded(percent_encode(encode_utf8(base64_text(b)))) == Some(base64_text(b))
    &&& base64_bytes(base64_text(b)) == Some(b)
}

/// A query of four fields `k=v`, none of whose parts holds a carriage
/// return, `&` or `=`: its pairs are the fields, in order, and it holds no
/// carriage return.
proof fn lemma_four_fields(
    k1: Seq<char>,
    v1: Seq<char>,
    k2: Seq<char>,
    v2: Seq<char>,
    k3: Seq<char>,
    v3: Seq<char>,
    k4: Seq<char>,
    v4: Seq<char>,
)
    requires
        is_plain_value(k1),
        is_plain_value(v1),
        is_plain_value(k2),
        is_plain_value(v2),
        is_plain_value(k3),
        is_plain_value(v3),
        is_plain_value(k4),
        is_plain_value(v4),
    ensures
        query_pairs(
            (k1 + seq!['='] + v1) + seq!['&'] + ((k2 + seq!['='] + v2) + seq!['&'] + ((k3 + seq!['='] + v3)
                + seq!['&'] + (k4 + seq!['='] + v4))),
        ) == seq![(k1, v1), (k2, v2), (k3, v3), (k4, v4)],
        has_no_cr(
            (k1 + seq!['='] + v1) + seq!['&'] + ((k2 + seq!['='] + v2) + seq!['&'] + ((k3 + seq!['='] + v3)
                + seq!['&'] + (k4 + seq!['='] + v4))),
        ),
{
    let p1 = k1 + seq!['='] + v1;
    let p2 = k2 + seq!['='] + v2;
    let p3 = k3 + seq!['='] + v3;
    let p4 = k4 + seq!['='] + v4;
    lemma_query_field(k1, v1);
    lemma_query_field(k2, v2);
    lemma_query_field(k3, v3);
    lemma_query_field(k4, v4);
    let line = p1 + seq!['&'] + (p2 + seq!['&'] + (p3 + seq!['&'] + p4));
    lemma_query_last(p4);
    lemma_query_join(p3, seq![p4], p4);
    lemma_query_join(p2, seq![p3] + seq![p4], p3 + seq!['&'] + p4);
    lemma_query_join(p1, seq![p2] + (seq![p3] + seq![p4]), p2 + seq!['&'] + (p3 + seq!['&'] + p4));
    assert(split_char(line, '&') =~= seq![p1, p2, p3, p4]);
    lemma_query_pairs_of_fields(line, k1, v1, k2, v2, k3, v3, k4, v4);
}

proof fn lemma_query_pairs_of_fields(
    line: Seq<char>,
    k1: Seq<char>,
    v1: Seq<char>,
    k2: Seq<char>,
    v2: Seq<char>,
    k3: Seq<char>,
    v3: Seq<char>,
    k4: Seq<char>,
    v4: Seq<char>,
)
    requires
        split_char(line, '&') == seq![
            k1 + seq!['='] + v1,
            k2 + seq!['='] + v2,
            k3 + seq!['='] + v3,
            k4 + seq!['='] + v4,
        ],
        split_char(k1 + seq!['='] + v1, '=') == seq![k1, v1],
        split_char(k2 + seq!['='] + v2, '=') == seq![k2, v2],
        split_char(k3 + seq!['='] + v3, '=') == seq![k3, v3],
        split_char(k4 + seq!['='] + v4, '=') == seq![k4, v4],
    ensures
        query_pairs(line) == seq![(k1, v1), (k2, v2), (k3, v3), (k4, v4)],
{
    let parts = split_char(line, '&');
    lemma_filter_all(parts, |p: Seq<char>| split_char(p, '=').len() >= 2);
    assert(query_pairs(line) =~= seq![(k1, v1), (k2, v2), (k3, v3), (k4, v4)]);
}

/// A line of an interest list: the server key `pk` and identifier `id`
/// as percent-encoded base64, then a channel and a sequence number.
pub open spec fn interest_line(pk: Seq<u8>, id: Seq<u8>, channel: u64, seqno: u64) -> Seq<char> {
    "server_pubkey="@ + percent_encode(encode_utf8(base64_text(pk))) + "&server_id="@ + percent_encode(
        encode_utf8(base64_text(id)),
    ) + "&channel_id="@ + decimal(channel as nat) + "&seqno="@ + decimal(seqno as nat)
}

/// The text of a line of an interest list, field by field.
proof fn lemma_interest_line_text(pk: Seq<u8>, id: Seq<u8>, channel: u64, seqno: u64)
    ensures
        interest_line(pk, id, channel, seqno) == ("server_pubkey"@ + seq!['='] + percent_encode(
            encode_utf8(base64_text(pk)),
        )) + seq!['&'] + (("server_id"@ + seq!['='] + percent_encode(encode_utf8(base64_text(id)))) + seq!['&'] + ((
        "channel_id"@ + seq!['='] + decimal(channel as nat)) + seq!['&'] + ("seqno"@ + seq!['='] + decimal(
            seqno as nat,
        )))),
{
    reveal_strlit("server_pubkey=");
    reveal_strlit("&server_id=");
    reveal_strlit("&channel_id=");
    reveal_strlit("&seqno=");
    reveal_strlit("server_pubkey");
    reveal_strlit("server_id");
    reveal_strlit("channel_id");
    reveal_strlit("seqno");
    assert(interest_line(pk, id, channel, seqno) =~= ("server_pubkey"@ + seq!['='] + percent_encode(
        encode_utf8(base64_text(pk)),
    )) + seq!['&'] + (("server_id"@ + seq!['='] + percent_encode(encode_utf8(base64_text(id)))) + seq!['&'] + ((
    "channel_id"@ + seq!['='] + decimal(channel as nat)) + seq!['&'] + ("seqno"@ + seq!['='] + decimal(
        seqno as nat,
    )))));
}

/// The keys of the fields of a remote listen request, and what each is
/// looked up to.
proof fn lemma_remote_keys(a: Seq<char>, b: Seq<char>, c: Seq<char>, d: Seq<char>)
    ensures
        is_plain_value("server_pubkey"@),
        is_plain_value("server_id"@),
        is_plain_value("channel_id"@),
        is_plain_value("seqno"@),
        query_value(seq![("server_pubkey"@, a), ("server_id"@, b), ("channel_id"@, c), ("seqno"@, d)], "server_pubkey"@)
            == Some(a),
        query_value(seq![("server_pubkey"@, a), ("server_id"@, b), ("channel_id"@, c), ("seqno"@, d)], "server_id"@)
            == Some(b),
        query_value(seq![("server_pubkey"@, a), ("server_id"@, b), ("channel_id"@, c), ("seqno"@, d)], "channel_id"@)
            == Some(c),
        query_value(seq![("server_pubkey"@, a), ("server_id"@, b), ("channel_id"@, c), ("seqno"@, d)], "seqno"@)
            == Some(d),
{
    reveal(is_plain_value);
    reveal_strlit("server_pubkey");
    reveal_strlit("server_id");
    reveal_strlit("channel_id");
    reveal_strlit("seqno");
    let pairs = seq![("server_pubkey"@, a), ("server_id"@, b), ("channel_id"@, c), ("seqno"@, d)];
    reveal_with_fuel(query_value, 5);
    assert(pairs.drop_last() =~= seq![("server_pubkey"@, a), ("server_id"@, b), ("channel_id"@, c)]);
    assert(pairs.drop_last().drop_last() =~= seq![("server_pubkey"@, a), ("server_id"@, b)]);
    assert(pairs.drop_last().drop_last().drop_last() =~= seq![("server_pubkey"@, a)]);
}

/// A line of an interest list reads back as the server key and identifier
/// it names, whatever its channel and sequence number.
proof fn lemma_interest_line_reads_back(pk: Seq<u8>, id: Seq<u8>, channel: u64, seqno: u64)
    requires
        pk.len() == 32,
        id.len() == 8,
        id_text_reads_back(pk),
        id_text_reads_back(id),
    ensures
        spec_interest_of(interest_line(pk, id, channel, seqno)) == Ok::<InterestModel, InterestFailure>((pk, id, None)),
        interest_line(pk, id, channel, seqno).len() > 0,
        has_no_cr(interest_line(pk, id, channel, seqno)),
{
    let a = percent_encode(encode_utf8(base64_text(pk)));
    let b = percent_encode(encode_utf8(base64_text(id)));
    let c = decimal(channel as nat);
    let d = decimal(seqno as nat);
    lemma_percent_encode_plain(encode_utf8(base64_text(pk)));
    lemma_percent_encode_plain(encode_utf8(base64_text(id)));
    lemma_decimal_plain(channel as nat);
    lemma_decimal_plain(seqno as nat);
    lemma_remote_keys(a, b, c, d);
    lemma_interest_line_text(pk, id, channel, seqno);
    lemma_four_fields("server_pubkey"@, a, "server_id"@, b, "channel_id"@, c, "seqno"@, d);
    lemma_decimal_digits(channel as nat);
    lemma_decimal_digits(seqno as nat);
    assert(unsigned_digits(c) == c);
    assert(unsigned_digits(d) == d);
    assert(spec_parse_unsigned(c, u64::MAX as nat) == Some(channel as nat));
    assert(spec_parse_unsigned(d, u64::MAX as nat) == Some(seqno as nat));
    assert(spec_id_from_urlencoding(a, 32) == Ok::<Seq<u8>, IdTextFailure>(pk));
    assert(spec_id_from_urlencoding(b, 8) == Ok::<Seq<u8>, IdTextFailure>(id));
}

/// The text of an interest list: its lines, separated by `"\r\n"`.
pub open spec fn join_crlf(lines: Seq<Seq<char>>) -> Seq<char>
    decreases lines.len(),
{
    if lines.len() == 0 {
        Seq::empty()
    } else if lines.len() == 1 {
        lines[0]
    } else {
        join_crlf(lines.drop_last()) + "\r\n"@ + lines.last()
    }
}

/// An entry of an interest list: server key, server identifier, channel and
/// sequence number.
pub type InterestEntry = (Seq<u8>, Seq<u8>, u64, u64);

/// The lines that write the entries `es`.
pub open spec fn entry_lines(es: Seq<InterestEntry>) -> Seq<Seq<char>> {
    es.map_values(|e: InterestEntry| interest_line(e.0, e.1, e.2, e.3))
}

/// The interests that the entries `es` name, without channels.
pub open spec fn entry_interests(es: Seq<InterestEntry>) -> Seq<InterestModel> {
    es.map_values(|e: InterestEntry| (e.0, e.1, None::<u64>))
}

/// The key and identifier of each entry are those of an interest, and
/// their texts read back as their bytes.
pub open spec fn entries_read_back(es: Seq<InterestEntry>) -> bool {
    forall|k: int|
        0 <= k < es.len() ==> {
            &&& (#[trigger] es[k]).0.len() == 32
            &&& es[k].1.len() == 8
            &&& id_text_reads_back(es[k].0)
            &&& id_text_reads_back(es[k].1)
        }
}

proof fn lemma_entry_lines_split(es: Seq<InterestEntry>)
    requires
        es.len() > 0,
        entries_read_back(es),
    ensures
        split_crlf(join_crlf(entry_lines(es))) == entry_lines(es),
    decreases es.len(),
{
    let lines = entry_lines(es);
    let last = es[es.len() - 1];
    lemma_interest_line_reads_back(last.0, last.1, last.2, last.3);
    reveal(has_no_cr);
    lemma_split_crlf_single(lines.last());
    if es.len() == 1 {
        assert(lines =~= seq![lines[0]]);
    } else {
        let prev = es.drop_last();
        assert(entries_read_back(prev)) by {
            assert forall|k: int| 0 <= k < prev.len() implies #[trigger] prev[k] == es[k] by {}
        }
        lemma_entry_lines_split(prev);
        assert(lines.drop_last() =~= entry_lines(prev));
        lemma_split_crlf_join(join_crlf(entry_lines(prev)), lines.last());
        assert(lines =~= entry_lines(prev).push(lines.last()));
    }
}

proof fn lemma_entry_lines_read_back(es: Seq<InterestEntry>)
    requires
        entries_read_back(es),
    ensures
        spec_interest_list(entry_lines(es)) == Ok::<Seq<InterestModel>, InterestFailure>(entry_interests(es)),
    decreases es.len(),
{
    let lines = entry_lines(es);
    if es.len() == 0 {
        assert(entry_interests(es) =~= Seq::<InterestModel>::empty());
    } else {
        let prev = es.drop_last();
        let last = es[es.len() - 1];
        assert(entries_read_back(prev)) by {
            assert forall|k: int| 0 <= k < prev.len() implies #[trigger] prev[k] == es[k] by {}
        }
        lemma_entry_lines_read_back(prev);
        lemma_interest_line_reads_back(last.0, last.1, last.2, last.3);
        assert(lines.drop_last() =~= entry_lines(prev));
        assert(entry_interests(es) =~= entry_interests(prev).push((last.0, last.1, None::<u64>)));
    }
}

/// An interest list whose lines name server keys and identifiers, each with
/// any channel and sequence number, reads back as the interests they name,
/// in order and without channels, which the reading does not keep. The
/// texts of the keys and identifiers must read back as their bytes, which
/// the encoders' calls show for each that they encode.
pub proof fn lemma_interest_list_reads_back(es: Seq<InterestEntry>)
    requires
        entries_read_back(es),
    ensures
        spec_interest_list(split_crlf(join_crlf(entry_lines(es)))) == Ok::<Seq<InterestModel>, InterestFailure>(
            entry_interests(es),
        ),
{
    if es.len() == 0 {
        let lines = split_crlf(join_crlf(entry_lines(es)));
        assert(join_crlf(entry_lines(es)) =~= Seq::<char>::empty());
        assert(lines =~= seq![Seq::<char>::empty()]);
        assert(lines.drop_last() =~= Seq::<Seq<char>>::empty());
        assert(spec_interest_list(lines.drop_last()) == Ok::<Seq<InterestModel>, InterestFailure>(Seq::empty()));
        assert(lines.last().len() == 0);
        assert(entry_interests(es) =~= Seq::<InterestModel>::empty());
    } else {
        lemma_entry_lines_split(es);
        lemma_entry_lines_read_back(es);
    }
}

/// The interests of `list` without their channels.
pub open spec fn without_channels(list: Seq<InterestModel>) -> Seq<InterestModel> {
    list.map_values(|i: InterestModel| (i.0, i.1, None::<u64>))
}

/// The interests that a remote listen request names: the key and identifier
/// of each are those of an interest, and their texts read back.
pub open spec fn remote_interests_read_back(list: Seq<InterestModel>) -> bool {
    forall|k: int|
        0 <= k < list.len() ==> {
            &&& (#[trigger] list[k]).0.len() == 32
            &&& list[k].1.len() == 8
            &&& id_text_reads_back(list[k].0)
            &&& id_text_reads_back(list[k].1)
        }
}

/// The entries that a remote listen request for `list` writes: each
/// interest with its channel, or 0, and sequence number 0.
pub open spec fn remote_entries(list: Seq<InterestModel>) -> Seq<InterestEntry> {
    list.map_values(
        |i: InterestModel|
            (
                i.0,
                i.1,
                match i.2 {
                    Some(c) => c,
                    None => 0u64,
                },
                0u64,
            ),
    )
}

proof fn lemma_remote_post_data_joins(list: Seq<InterestModel>)
    ensures
        remote_post_data_spec(list) == join_crlf(entry_lines(remote_entries(list))),
    decreases list.len(),
{
    let lines = entry_lines(remote_entries(list));
    assert forall|k: int| 0 <= k < list.len() implies #[trigger] lines[k] == remote_line(list[k]) by {
        let i = list[k];
        assert(remote_entries(list)[k] == (i.0, i.1, match i.2 {
            Some(c) => c,
            None => 0u64,
        }, 0u64));
    }
    if list.len() == 1 {
    } else if list.len() > 1 {
        lemma_remote_post_data_joins(list.drop_last());
        assert(remote_entries(list.drop_last()) =~= remote_entries(list).drop_last());
        assert(entry_lines(remote_entries(list)).drop_last() =~= entry_lines(remote_entries(list.drop_last())));
        assert(lines.last() == remote_line(list.last()));
    }
}

/// What a listener sends to a remote server to listen for `list` reads back,
/// line by line, as the same interests without their channels, which the
/// reading does not keep: the server key and identifier of each, in order.
/// The texts of the keys and identifiers must read back as their bytes,
/// which the encoders' calls show for each that they encode.
pub proof fn lemma_remote_post_data_reads_back(list: Seq<InterestModel>)
    requires
        remote_interests_read_back(list),
    ensures
        spec_interest_list(split_crlf(remote_post_data_spec(list))) == Ok::<Seq<InterestModel>, InterestFailure>(
            without_channels(list),
        ),
{
    let es = remote_entries(list);
    assert(entries_read_back(es)) by {
        assert forall|k: int| 0 <= k < es.len() implies {
            &&& (#[trigger] es[k]).0.len() == 32
            &&& es[k].1.len() == 8
            &&& id_text_reads_back(es[k].0)
            &&& id_text_reads_back(es[k].1)
        } by {
            assert(list[k].0.len() == 32);
        }
    }
    lemma_remote_post_data_joins(list);
    lemma_interest_list_reads_back(es);
    assert(entry_interests(es) =~= without_channels(list));
}

} // verus!
