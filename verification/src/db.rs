//! What each request to the local store reads and writes.
//!
//! A request to the store opens a transaction, reads some records, decides,
//! and writes. The reading and writing are done by the caller, which holds
//! the database; the functions here say which keys to read, what the records
//! read mean, and which changes to make.

use crate::error::{Error, ErrorKind, is_read_error, read_error};
use crate::types::{Invite, ProfileData, Pubkey, ServerId};
use crate::encoding::{decimal, u128_to_decimal};
use crate::sys::{elapsed, elapsed_millis, random_bytes8, random_u128, random_u64};
use vstd::string::StringExecFns;
use crate::ser::{ReadError, Ser, deserialize_default, lemma_serialize_deserialize, serialize_default, views};
use crate::store::{
    AuthInfo, AuthToken, CHALLENGE_PREFIX, Challenge, ProfileKey, STORED_AUTH_TOKEN_PREFIX, TOKEN_PREFIX, WSAuthToken,
    AuthBatchLookupKeyImpl, MEMBER_BATCH_SIZE, Member, MemberBatchLookupKeyImpl, MemberImpl, MemberKeyAuthImpl,
    MemberKeyHashImpl, MemberKeyIttImpl, MemberMetaDataKey, MemberMetaDataValue, MemberValueImpl, Profile,
    INVITE_ID_PREFIX, INVITE_PREFIX, InviteKey, JoinInfoReply, MESSAGE_BATCH_SIZE, MESSAGE_PREFIX, Message, MessageKeyImpl, MessageMetaDataKey, MessageMetaDataValue, MessageModel,
    MessageValueImpl, AUTH_FLAG_MEMBER, AUTH_FLAG_OWNER, CHANNEL_PREFIX, Channel, ChannelKey, SERVER_PREFIX, ServerInfo, ServerInfoReply,
};
use vstd::prelude::*;

verus! {

/// A change to the store.
#[derive(Debug)]
pub enum StoreOp {
    /// Write `value` under `key`.
    Put(Vec<u8>, Vec<u8>),
    /// Remove what is stored under `key`, if anything.
    Delete(Vec<u8>),
}

/// The model of a change to the store.
pub enum StoreOpModel {
    Put(Seq<u8>, Seq<u8>),
    Delete(Seq<u8>),
}

impl View for StoreOp {
    type V = StoreOpModel;

    open spec fn view(&self) -> StoreOpModel {
        match self {
            StoreOp::Put(k, v) => StoreOpModel::Put(k@, v@),
            StoreOp::Delete(k) => StoreOpModel::Delete(k@),
        }
    }
}

/// The bytes of a stored value, if there is one.
pub open spec fn opt_bytes(stored: Option<Vec<u8>>) -> Option<Seq<u8>> {
    match stored {
        Some(b) => Some(b@),
        None => None,
    }
}

/// What a stored value reads as: nothing if nothing is stored, else the
/// value read from the front of the stored bytes.
pub open spec fn spec_decode<T: Ser>(stored: Option<Seq<u8>>) -> Result<Option<T::V>, ReadError> {
    match stored {
        None => Ok(None),
        Some(b) => match T::spec_read(b) {
            Ok((v, _)) => Ok(Some(v)),
            Err(e) => Err(e),
        },
    }
}

/// Reads a stored value, if there is one.
pub fn decode_stored<T: Ser>(stored: &Option<Vec<u8>>) -> (res: Result<Option<T>, Error>)
    ensures
        match spec_decode::<T>(opt_bytes(*stored)) {
            Ok(Some(v)) => res matches Ok(Some(x)) && x@ == v,
            Ok(None) => res matches Ok(None),
            Err(e) => res matches Err(f) && is_read_error(e, f.inner),
        },
{
    match stored {
        None => Ok(None),
        Some(b) => match deserialize_default::<T>(b.as_slice()) {
            Ok(x) => Ok(Some(x)),
            Err(e) => Err(read_error(e)),
        },
    }
}

/// The length of the longest prefix of `s` whose items all satisfy `ok`:
/// walking the records of a table stops at the first one that cannot be read.
pub open spec fn good_prefix_len<A>(s: Seq<A>, ok: spec_fn(A) -> bool) -> nat
    decreases s.len(),
{
    if s.len() == 0 {
        0
    } else if ok(s[0]) {
        1 + good_prefix_len(s.drop_first(), ok)
    } else {
        0
    }
}

/// A prefix of `i` good items, followed by the end or by a bad item, is the
/// longest good prefix.
pub proof fn lemma_good_prefix_len<A>(s: Seq<A>, ok: spec_fn(A) -> bool, i: nat)
    requires
        i <= s.len(),
        forall|j: int| 0 <= j < i ==> #[trigger] ok(s[j]),
        i == s.len() || !ok(s[i as int]),
    ensures
        good_prefix_len(s, ok) == i,
    decreases i,
{
    if i > 0 {
        assert(ok(s[0]));
        assert forall|j: int| 0 <= j < i - 1 implies #[trigger] ok(s.drop_first()[j]) by {
            assert(ok(s[j + 1]));
        }
        lemma_good_prefix_len(s.drop_first(), ok, (i - 1) as nat);
    }
}

/// Writes `prefix`, then the bytes of each part.
fn key_of(prefix: u8, parts: &[&[u8]]) -> (k: Vec<u8>)
    ensures
        k@ == seq![prefix] + flatten_parts(parts@),
{
    let mut k: Vec<u8> = Vec::new();
    k.push(prefix);
    let mut i: usize = 0;
    while i < parts.len()
        invariant
            i <= parts@.len(),
            k@ == seq![prefix] + flatten_parts(parts@.take(i as int)),
        decreases parts@.len() - i,
    {
        let part = parts[i];
        let mut j: usize = 0;
        let ghost before = k@;
        while j < part.len()
            invariant
                j <= part@.len(),
                k@ == before + part@.take(j as int),
            decreases part@.len() - j,
        {
            k.push(part[j]);
            assert(part@.take(j + 1) =~= part@.take(j as int).push(part@[j as int]));
            j = j + 1;
        }
        proof {
            assert(part@.take(part@.len() as int) =~= part@);
            assert(parts@.take(i + 1).drop_last() =~= parts@.take(i as int));
        }
        i = i + 1;
    }
    assert(parts@.take(parts@.len() as int) =~= parts@);
    k
}

/// The bytes of `parts`, one after the other.
pub open spec fn flatten_parts(parts: Seq<&[u8]>) -> Seq<u8>
    decreases parts.len(),
{
    if parts.len() == 0 {
        Seq::empty()
    } else {
        flatten_parts(parts.drop_last()) + parts.last()@
    }
}

/// The key of a server record: the server prefix, the server's identifier,
/// then its public key.
pub open spec fn spec_server_key(server_id: Seq<u8>, server_pubkey: Seq<u8>) -> Seq<u8> {
    seq![SERVER_PREFIX] + server_id + server_pubkey
}

/// The key of a server record.
pub fn server_key(server_id: &[u8; 8], server_pubkey: &[u8; 32]) -> (k: Vec<u8>)
    ensures
        k@ == spec_server_key(server_id@, server_pubkey@),
{
    let k = key_of(SERVER_PREFIX, &[server_id.as_slice(), server_pubkey.as_slice()]);
    proof {
        reveal_with_fuel(flatten_parts, 3);
    }
    assert(k@ =~= spec_server_key(server_id@, server_pubkey@));
    k
}

/// A server record can be read from the value of the entry `e`.
pub open spec fn server_entry_ok(e: (Seq<u8>, Seq<u8>)) -> bool {
    ServerInfo::spec_read(e.1) is Ok
}

/// The reply for a server whose record, read from the value of an entry, is
/// `v`: its identifier is bytes 1 to 8 of the entry's key.
pub open spec fn server_reply_of(key: Seq<u8>, v: <ServerInfo as View>::V) -> (Seq<u8>, Seq<u8>, Seq<char>, u64) {
    (v.0, key.subrange(1, 9), v.1, v.3)
}

/// The replies for the servers of `entries` that have been joined, in order.
pub open spec fn joined_replies(entries: Seq<(Seq<u8>, Seq<u8>)>) -> Seq<(Seq<u8>, Seq<u8>, Seq<char>, u64)>
    decreases entries.len(),
{
    if entries.len() == 0 {
        Seq::empty()
    } else {
        let prev = joined_replies(entries.drop_last());
        match ServerInfo::spec_read(entries.last().1) {
            Ok((v, _)) => if v.2 {
                prev.push(server_reply_of(entries.last().0, v))
            } else {
                prev
            },
            Err(_) => prev,
        }
    }
}

/// The servers that have been joined, from the entries of the server table in
/// key order; the walk stops at the first record that cannot be read.
pub fn server_replies(entries: &Vec<(Vec<u8>, Vec<u8>)>) -> (ret: Vec<ServerInfoReply>)
    requires
        forall|i: int|
            0 <= i < entries@.len() && i <= good_prefix_len(views(entries@), |e| server_entry_ok(e))
                ==> #[trigger] entries@[i].0@.len() >= 9,
    ensures
        views(ret@) == joined_replies(
            views(entries@).take(good_prefix_len(views(entries@), |e| server_entry_ok(e)) as int),
        ),
{
    let ghost es = views(entries@);
    let ghost ok = |e: (Seq<u8>, Seq<u8>)| server_entry_ok(e);
    let mut ret: Vec<ServerInfoReply> = Vec::new();
    let mut i: usize = 0;
    let mut stop = false;
    while i < entries.len() && !stop
        invariant
            i <= entries@.len(),
            es == views(entries@),
            ok == (|e: (Seq<u8>, Seq<u8>)| server_entry_ok(e)),
            forall|j: int| 0 <= j < i ==> #[trigger] ok(es[j]),
            stop ==> i < entries@.len() && !ok(es[i as int]),
            forall|j: int|
                0 <= j < entries@.len() && j <= good_prefix_len(es, ok) ==> #[trigger] entries@[j].0@.len() >= 9,
            views(ret@) == joined_replies(es.take(i as int)),
        decreases entries@.len() - i + (if stop { 0int } else { 1int }),
    {
        proof {
            lemma_good_prefix_len_bound(es, ok, i as nat);
        }
        let key = &entries[i].0;
        let value = &entries[i].1;
        assert(key@.len() >= 9);
        let id = match <[u8; 8] as Ser>::read(key.as_slice(), 1) {
            Ok((id, _)) => id,
            Err(_) => [0u8; 8],
        };
        assert(id@ == key@.subrange(1, 9));
        match deserialize_default::<ServerInfo>(value.as_slice()) {
            Err(_) => {
                stop = true;
            },
            Ok(server) => {
                let ghost old_ret = views(ret@);
                assert(es.take(i + 1).drop_last() =~= es.take(i as int));
                if server.joined {
                    ret.push(ServerInfoReply { server_id: id, name: server.name, pubkey: server.pubkey, seqno: server.seqno });
                    assert(views(ret@) =~= old_ret.push(server_reply_of(es[i as int].0, server@)));
                }
                i = i + 1;
            },
        }
    }
    proof {
        lemma_good_prefix_len(es, ok, i as nat);
    }
    ret
}

/// A good prefix is no longer than the sequence.
pub proof fn lemma_good_prefix_len_le<A>(s: Seq<A>, ok: spec_fn(A) -> bool)
    ensures
        good_prefix_len(s, ok) <= s.len(),
    decreases s.len(),
{
    if s.len() > 0 {
        lemma_good_prefix_len_le(s.drop_first(), ok);
    }
}

/// No good prefix is shorter than a run of good items at the front.
pub proof fn lemma_good_prefix_len_bound<A>(s: Seq<A>, ok: spec_fn(A) -> bool, i: nat)
    requires
        i <= s.len(),
        forall|j: int| 0 <= j < i ==> #[trigger] ok(s[j]),
    ensures
        i <= good_prefix_len(s, ok),
    decreases i,
{
    if i > 0 {
        assert(ok(s[0]));
        assert forall|j: int| 0 <= j < i - 1 implies #[trigger] ok(s.drop_first()[j]) by {
            assert(ok(s[j + 1]));
        }
        lemma_good_prefix_len_bound(s.drop_first(), ok, (i - 1) as nat);
    }
}

/// The value of the entry `e` reads as a `T`.
pub open spec fn value_ok<T: Ser>(e: (Seq<u8>, Seq<u8>)) -> bool {
    T::spec_read(e.1) is Ok
}

/// The `T` read from the front of `b`.
pub open spec fn read_value<T: Ser>(b: Seq<u8>) -> T::V {
    match T::spec_read(b) {
        Ok((v, _)) => v,
        Err(_) => arbitrary(),
    }
}

/// The values of `entries`, each read as a `T`.
pub open spec fn decoded_values<T: Ser>(entries: Seq<(Seq<u8>, Seq<u8>)>) -> Seq<T::V> {
    entries.map_values(|e: (Seq<u8>, Seq<u8>)| read_value::<T>(e.1))
}

/// The values of a table's entries, read in key order; the walk stops at the
/// first value that cannot be read.
pub fn decode_values<T: Ser>(entries: &Vec<(Vec<u8>, Vec<u8>)>) -> (ret: Vec<T>)
    ensures
        views(ret@) == decoded_values::<T>(
            views(entries@).take(good_prefix_len(views(entries@), |e| value_ok::<T>(e)) as int),
        ),
{
    let ghost es = views(entries@);
    let ghost ok = |e: (Seq<u8>, Seq<u8>)| value_ok::<T>(e);
    let mut ret: Vec<T> = Vec::new();
    let mut i: usize = 0;
    let mut stop = false;
    while i < entries.len() && !stop
        invariant
            i <= entries@.len(),
            es == views(entries@),
            ok == (|e: (Seq<u8>, Seq<u8>)| value_ok::<T>(e)),
            forall|j: int| 0 <= j < i ==> #[trigger] ok(es[j]),
            stop ==> i < entries@.len() && !ok(es[i as int]),
            views(ret@) == decoded_values::<T>(es.take(i as int)),
        decreases entries@.len() - i + (if stop { 0int } else { 1int }),
    {
        match deserialize_default::<T>(entries[i].1.as_slice()) {
            Err(_) => {
                stop = true;
            },
            Ok(x) => {
                let ghost old_ret = views(ret@);
                ret.push(x);
                assert(views(ret@) =~= old_ret.push(x@));
                assert(decoded_values::<T>(es.take(i + 1)) =~= decoded_values::<T>(es.take(i as int)).push(
                    read_value::<T>(es[i as int].1),
                ));
                i = i + 1;
            },
        }
    }
    proof {
        lemma_good_prefix_len(es, ok, i as nat);
    }
    ret
}

/// The start of the keys of the channels of a server.
pub open spec fn spec_channels_prefix(server_pubkey: Seq<u8>, server_id: Seq<u8>) -> Seq<u8> {
    seq![CHANNEL_PREFIX] + server_pubkey + server_id
}

/// The start of the keys of the channels of a server.
pub fn channels_prefix(server_pubkey: &[u8; 32], server_id: &[u8; 8]) -> (k: Vec<u8>)
    ensures
        k@ == spec_channels_prefix(server_pubkey@, server_id@),
{
    let k = key_of(CHANNEL_PREFIX, &[server_pubkey.as_slice(), server_id.as_slice()]);
    proof {
        reveal_with_fuel(flatten_parts, 3);
    }
    assert(k@ =~= spec_channels_prefix(server_pubkey@, server_id@));
    k
}

/// The key of a channel record: the channel prefix, then the channel key.
pub open spec fn spec_channel_record_key(channel_key: <ChannelKey as View>::V) -> Seq<u8> {
    seq![CHANNEL_PREFIX] + ChannelKey::spec_write(channel_key)
}

/// The key of a channel record.
pub fn channel_record_key(channel_key: &ChannelKey) -> (k: Vec<u8>)
    ensures
        k@ == spec_channel_record_key(channel_key@),
{
    let mut k: Vec<u8> = Vec::new();
    k.push(CHANNEL_PREFIX);
    serialize_default(&mut k, channel_key);
    k
}

/// Stores a channel under its key.
pub fn channel_record(channel_key: &ChannelKey, channel: &Channel) -> (op: StoreOp)
    ensures
        op@ == StoreOpModel::Put(spec_channel_record_key(channel_key@), Channel::spec_write(channel@)),
{
    let mut value: Vec<u8> = Vec::new();
    serialize_default(&mut value, channel);
    StoreOp::Put(channel_record_key(channel_key), value)
}

/// The channel that every new server starts with.
pub fn default_channel(channel_id: u64) -> (c: Channel)
    ensures
        c.name@ == "mainchat"@,
        c.description@ == "Welcome to mainchat!"@,
        c.channel_id == channel_id,
{
    Channel { name: "mainchat".to_owned(), description: "Welcome to mainchat!".to_owned(), channel_id }
}

/// The roles of whoever adds a server: a member, and the owner unless the
/// server is hosted elsewhere.
pub fn server_roles(remote: bool) -> (roles: u128)
    ensures
        roles == if remote { AUTH_FLAG_MEMBER } else { AUTH_FLAG_OWNER | AUTH_FLAG_MEMBER },
{
    if remote {
        AUTH_FLAG_MEMBER
    } else {
        AUTH_FLAG_OWNER | AUTH_FLAG_MEMBER
    }
}

/// Stores a server record under its key.
pub fn server_record(server_info: &ServerInfo, server_id: &[u8; 8]) -> (op: StoreOp)
    ensures
        op@ == StoreOpModel::Put(spec_server_key(server_id@, server_info.pubkey@), ServerInfo::spec_write(server_info@)),
{
    let mut value: Vec<u8> = Vec::new();
    serialize_default(&mut value, server_info);
    StoreOp::Put(server_key(server_id, &server_info.pubkey), value)
}

/// What a server stored as `stored` is returned as, under the identifier it
/// was asked for.
pub fn server_info_reply(server_id: [u8; 8], stored: &Option<Vec<u8>>) -> (res: Result<Option<ServerInfoReply>, Error>)
    ensures
        match spec_decode::<ServerInfo>(opt_bytes(*stored)) {
            Ok(None) => res matches Ok(None),
            Ok(Some(v)) => res matches Ok(Some(r)) && r@ == (v.0, server_id@, v.1, v.3),
            Err(e) => res matches Err(f) && is_read_error(e, f.inner),
        },
{
    match decode_stored::<ServerInfo>(stored)? {
        None => Ok(None),
        Some(info) => Ok(Some(ServerInfoReply { server_id, pubkey: info.pubkey, name: info.name, seqno: info.seqno })),
    }
}

/// Renaming a server stored under `key`: its record gets the new name and
/// the next sequence number; nothing changes when no server is stored.
pub fn modify_server_ops(key: Vec<u8>, stored: &Option<Vec<u8>>, name: String) -> (res: Result<Vec<StoreOp>, Error>)
    requires
        spec_decode::<ServerInfo>(opt_bytes(*stored)) matches Ok(Some(v)) ==> v.3 < u64::MAX,
    ensures
        match spec_decode::<ServerInfo>(opt_bytes(*stored)) {
            Ok(None) => res matches Ok(ops) && ops@.len() == 0,
            Ok(Some(v)) => res matches Ok(ops) && views(ops@) == seq![
                StoreOpModel::Put(key@, ServerInfo::spec_write((v.0, name@, v.2, (v.3 + 1) as u64))),
            ],
            Err(e) => res matches Err(f) && is_read_error(e, f.inner),
        },
{
    match decode_stored::<ServerInfo>(stored)? {
        None => Ok(Vec::new()),
        Some(mut info) => {
            info.name = name;
            info.seqno = info.seqno + 1;
            let mut value: Vec<u8> = Vec::new();
            serialize_default(&mut value, &info);
            let mut ops: Vec<StoreOp> = Vec::new();
            ops.push(StoreOp::Put(key, value));
            assert(views(ops@) =~= seq![StoreOpModel::Put(key@, ServerInfo::spec_write(info@))]);
            Ok(ops)
        },
    }
}

/// The key of the message count of a channel.
pub fn message_metadata_key(server_pubkey: [u8; 32], server_id: [u8; 8], channel_id: u64) -> (k: Vec<u8>)
    ensures
        k@ == MessageMetaDataKey::spec_write((server_pubkey@, server_id@, channel_id)),
{
    let mut k: Vec<u8> = Vec::new();
    serialize_default(&mut k, &MessageMetaDataKey { server_pubkey, server_id, channel_id });
    k
}

/// The number of messages a channel has, from its stored count.
pub open spec fn stored_count(d: Option<u64>) -> u64 {
    match d {
        Some(c) => c,
        None => 0,
    }
}

/// Posting a message: the channel's count goes up by one, and the message is
/// stored in the batch that its number falls in.
pub fn post_message_ops(message: Message, stored: &Option<Vec<u8>>) -> (res: Result<Vec<StoreOp>, Error>)
    requires
        spec_decode::<MessageMetaDataValue>(opt_bytes(*stored)) matches Ok(Some(c)) ==> c < u64::MAX,
    ensures
        match spec_decode::<MessageMetaDataValue>(opt_bytes(*stored)) {
            Ok(d) => res matches Ok(ops) && views(ops@) == seq![
                StoreOpModel::Put(
                    MessageMetaDataKey::spec_write((message.server_pubkey@, message.server_id@, message.channel_id)),
                    MessageMetaDataValue::spec_write((stored_count(d) + 1) as u64),
                ),
                StoreOpModel::Put(
                    MessageKeyImpl::spec_write((
                        message.server_pubkey@,
                        message.server_id@,
                        message.channel_id,
                        stored_count(d) / MESSAGE_BATCH_SIZE,
                        message.timestamp,
                        message.user_pubkey@,
                        message.nonce,
                    )),
                    MessageValueImpl::spec_write((message.payload@, message.signature@, message.message_type)),
                ),
            ],
            Err(e) => res matches Err(f) && is_read_error(e, f.inner),
        },
{
    let meta_key = message_metadata_key(message.server_pubkey, message.server_id, message.channel_id);
    let count = match decode_stored::<MessageMetaDataValue>(stored)? {
        Some(v) => v.message_count,
        None => 0,
    };
    let mut meta_value: Vec<u8> = Vec::new();
    serialize_default(&mut meta_value, &MessageMetaDataValue { message_count: count + 1 });
    let key_impl = MessageKeyImpl {
        server_pubkey: message.server_pubkey,
        server_id: message.server_id,
        channel_id: message.channel_id,
        batch_num: count / MESSAGE_BATCH_SIZE,
        timestamp: message.timestamp,
        user_pubkey: message.user_pubkey,
        nonce: message.nonce,
    };
    let ghost payload = message.payload@;
    let value_impl = MessageValueImpl {
        payload: message.payload,
        signature: message.signature,
        message_type: message.message_type,
    };
    let mut key: Vec<u8> = Vec::new();
    serialize_default(&mut key, &key_impl);
    let mut value: Vec<u8> = Vec::new();
    serialize_default(&mut value, &value_impl);
    let mut ops: Vec<StoreOp> = Vec::new();
    ops.push(StoreOp::Put(meta_key, meta_value));
    ops.push(StoreOp::Put(key, value));
    assert(views(ops@) =~= seq![
        StoreOpModel::Put(meta_key@, meta_value@),
        StoreOpModel::Put(key@, value@),
    ]);
    Ok(ops)
}

/// The number of batches that `count` messages fill: a batch holds
/// `MESSAGE_BATCH_SIZE` messages, and a batch that is not full counts.
pub open spec fn batch_count(count: u64) -> int {
    (count + 99) / 100
}

/// The batch read for `batch_num` of a channel with `count` messages: the
/// one asked for, or the last that exists when it is past it (batch 0
/// when there are none).
pub open spec fn batch_read(count: u64, batch_num: u64) -> u64 {
    if count == 0 {
        0
    } else if batch_num > (count - 1) / 100 {
        ((count - 1) / 100) as u64
    } else {
        batch_num
    }
}

/// For a channel whose stored count is `stored`: nothing if it has no count,
/// else the number of batches that exist and the batch to read, which is
/// the one asked for or, past the last, the last.
pub fn messages_batch(stored: &Option<Vec<u8>>, batch_num: u64) -> (res: Result<Option<(u64, u64)>, Error>)
    ensures
        match spec_decode::<MessageMetaDataValue>(opt_bytes(*stored)) {
            Ok(None) => res matches Ok(None),
            Ok(Some(c)) => res matches Ok(Some((batches, n))) && batches == batch_count(c) && n == batch_read(
                c,
                batch_num,
            ),
            Err(e) => res matches Err(f) && is_read_error(e, f.inner),
        },
{
    match decode_stored::<MessageMetaDataValue>(stored)? {
        None => Ok(None),
        Some(v) => {
            let c = v.message_count;
            let batches = if c % MESSAGE_BATCH_SIZE == 0 {
                c / MESSAGE_BATCH_SIZE
            } else {
                c / MESSAGE_BATCH_SIZE + 1
            };
            assert(batches == batch_count(c));
            let n = if c == 0 {
                0
            } else if batch_num > (c - 1) / MESSAGE_BATCH_SIZE {
                (c - 1) / MESSAGE_BATCH_SIZE
            } else {
                batch_num
            };
            Ok(Some((batches, n)))
        },
    }
}

/// The start of the keys of one batch of messages of a channel.
pub open spec fn spec_message_batch_prefix(server_pubkey: Seq<u8>, server_id: Seq<u8>, channel_id: u64, batch_num: u64) -> Seq<u8> {
    seq![MESSAGE_PREFIX] + server_pubkey + server_id + <u64 as Ser>::spec_write(channel_id) + <u64 as Ser>::spec_write(
        batch_num,
    )
}

/// The start of the keys of one batch of messages of a channel.
pub fn message_batch_prefix(server_pubkey: &[u8; 32], server_id: &[u8; 8], channel_id: u64, batch_num: u64) -> (k: Vec<u8>)
    ensures
        k@ == spec_message_batch_prefix(server_pubkey@, server_id@, channel_id, batch_num),
{
    let mut k: Vec<u8> = Vec::new();
    k.push(MESSAGE_PREFIX);
    server_pubkey.write(&mut k);
    server_id.write(&mut k);
    channel_id.write(&mut k);
    batch_num.write(&mut k);
    assert(k@ =~= spec_message_batch_prefix(server_pubkey@, server_id@, channel_id, batch_num));
    k
}

/// The key and the value of the entry `e` read as a message.
pub open spec fn message_entry_ok(e: (Seq<u8>, Seq<u8>)) -> bool {
    MessageKeyImpl::spec_read(e.0) is Ok && MessageValueImpl::spec_read(e.1) is Ok
}

/// The message stored as the entry `e`, numbered `seqno`.
pub open spec fn message_of(e: (Seq<u8>, Seq<u8>), seqno: u64) -> MessageModel {
    let k = read_value::<MessageKeyImpl>(e.0);
    let v = read_value::<MessageValueImpl>(e.1);
    MessageModel {
        payload: v.0,
        signature: v.1,
        message_type: v.2,
        server_pubkey: k.0,
        server_id: k.1,
        channel_id: k.2,
        timestamp: k.4,
        user_pubkey: k.5,
        nonce: k.6,
        seqno,
        user_name: "not implemented"@,
        user_bio: "not implemented"@,
    }
}

/// The messages stored as `entries`, numbered from `first` on.
pub open spec fn messages_of(entries: Seq<(Seq<u8>, Seq<u8>)>, first: nat) -> Seq<MessageModel> {
    Seq::new(entries.len(), |i: int| message_of(entries[i], (first + i) as u64))
}

/// The messages of one batch, from its entries in key order, numbered from
/// `first_seqno` on; the walk stops at the first entry that cannot be read.
pub fn messages_from_entries(entries: &Vec<(Vec<u8>, Vec<u8>)>, first_seqno: u64) -> (ret: Vec<Message>)
    requires
        first_seqno + good_prefix_len(views(entries@), |e| message_entry_ok(e)) <= u64::MAX,
    ensures
        views(ret@) == messages_of(
            views(entries@).take(good_prefix_len(views(entries@), |e| message_entry_ok(e)) as int),
            first_seqno as nat,
        ),
{
    let ghost es = views(entries@);
    let ghost ok = |e: (Seq<u8>, Seq<u8>)| message_entry_ok(e);
    let mut ret: Vec<Message> = Vec::new();
    let mut i: usize = 0;
    let mut seqno = first_seqno;
    let mut stop = false;
    while i < entries.len() && !stop
        invariant
            i <= entries@.len(),
            es == views(entries@),
            ok == (|e: (Seq<u8>, Seq<u8>)| message_entry_ok(e)),
            forall|j: int| 0 <= j < i ==> #[trigger] ok(es[j]),
            stop ==> i < entries@.len() && !ok(es[i as int]),
            seqno == first_seqno + i,
            first_seqno + good_prefix_len(es, ok) <= u64::MAX,
            views(ret@) == messages_of(es.take(i as int), first_seqno as nat),
        decreases entries@.len() - i + (if stop { 0int } else { 1int }),
    {
        let key = deserialize_default::<MessageKeyImpl>(entries[i].0.as_slice());
        let value = deserialize_default::<MessageValueImpl>(entries[i].1.as_slice());
        match (key, value) {
            (Ok(k), Ok(v)) => {
                proof {
                    lemma_good_prefix_len_bound(es, ok, (i + 1) as nat);
                }
                let ghost old_ret = views(ret@);
                let m = Message {
                    payload: v.payload,
                    signature: v.signature,
                    message_type: v.message_type,
                    server_pubkey: k.server_pubkey,
                    server_id: k.server_id,
                    channel_id: k.channel_id,
                    timestamp: k.timestamp,
                    user_pubkey: k.user_pubkey,
                    nonce: k.nonce,
                    seqno,
                    user_name: "not implemented".to_owned(),
                    user_bio: "not implemented".to_owned(),
                };
                assert(es[i as int] == (entries@[i as int].0@, entries@[i as int].1@));
                assert(k@ == read_value::<MessageKeyImpl>(es[i as int].0));
                assert(v@ == read_value::<MessageValueImpl>(es[i as int].1));
                assert(m@ == message_of(es[i as int], seqno));
                ret.push(m);
                assert(views(ret@) =~= old_ret.push(message_of(es[i as int], seqno)));
                assert(messages_of(es.take(i + 1), first_seqno as nat) =~= messages_of(es.take(i as int), first_seqno as nat).push(
                    message_of(es[i as int], seqno),
                ));
                seqno = seqno + 1;
                i = i + 1;
            },
            _ => {
                stop = true;
            },
        }
    }
    proof {
        lemma_good_prefix_len(es, ok, i as nat);
    }
    ret
}

/// An invite just made: accepted by no one yet, at most `count` times.
pub fn new_invite(inviter: [u8; 32], server_id: [u8; 8], expiry: u128, count: u64, id: u128) -> (i: Invite)
    ensures
        i@ == (inviter@, server_id@, expiry, 0u64, count, id),
{
    Invite { inviter, server_id, expiry, cur: 0, max: count, id }
}

/// The key of an invite found by its identifier.
pub open spec fn spec_invite_id_key(invite_id: u128) -> Seq<u8> {
    seq![INVITE_ID_PREFIX] + <u128 as Ser>::spec_write(invite_id)
}

/// The key of an invite found by its identifier.
pub fn invite_id_key(invite_id: u128) -> (k: Vec<u8>)
    ensures
        k@ == spec_invite_id_key(invite_id),
{
    let mut k: Vec<u8> = Vec::new();
    k.push(INVITE_ID_PREFIX);
    invite_id.write(&mut k);
    k
}

/// The key of an invite found by server and inviter.
pub open spec fn spec_invite_key(server_id: Seq<u8>, inviter: Seq<u8>, id: u128) -> Seq<u8> {
    seq![INVITE_PREFIX] + InviteKey::spec_write((server_id, inviter, id))
}

/// The key of an invite found by server and inviter.
pub fn invite_key(server_id: [u8; 8], inviter: [u8; 32], id: u128) -> (k: Vec<u8>)
    ensures
        k@ == spec_invite_key(server_id@, inviter@, id),
{
    let mut k: Vec<u8> = Vec::new();
    k.push(INVITE_PREFIX);
    serialize_default(&mut k, &InviteKey { server_id, inviter, id });
    k
}

/// What a new invite is stored as: the bytes of its key within the invite
/// table, then the bytes of the invite.
pub open spec fn spec_invite_value(invite: <Invite as View>::V) -> Seq<u8> {
    InviteKey::spec_write((invite.1, invite.0, invite.5)) + Invite::spec_write(invite)
}

/// Storing a new invite: under its server and inviter, and under its
/// identifier. The value written under both keys starts with the bytes of
/// the first key, as the invite's record was always built, so that reading
/// it back as an invite reads those bytes first.
pub fn invite_records(invite: &Invite) -> (ops: Vec<StoreOp>)
    ensures
        views(ops@) == seq![
            StoreOpModel::Put(spec_invite_key(invite.server_id@, invite.inviter@, invite.id), spec_invite_value(invite@)),
            StoreOpModel::Put(spec_invite_id_key(invite.id), spec_invite_value(invite@)),
        ],
{
    let mut value: Vec<u8> = Vec::new();
    serialize_default(&mut value, &InviteKey { server_id: invite.server_id, inviter: invite.inviter, id: invite.id });
    serialize_default(&mut value, invite);
    let value2 = value.clone();
    assert(value2@ == value@);
    let mut ops: Vec<StoreOp> = Vec::new();
    ops.push(StoreOp::Put(invite_key(invite.server_id, invite.inviter, invite.id), value));
    ops.push(StoreOp::Put(invite_id_key(invite.id), value2));
    assert(views(ops@) =~= seq![
        StoreOpModel::Put(spec_invite_key(invite.server_id@, invite.inviter@, invite.id), spec_invite_value(invite@)),
        StoreOpModel::Put(spec_invite_id_key(invite.id), spec_invite_value(invite@)),
    ]);
    ops
}

/// The start of the keys of the invites to a server, or of those that one
/// inviter made.
pub fn invites_prefix(server_id: &[u8; 8], inviter: &Option<[u8; 32]>) -> (k: Vec<u8>)
    ensures
        k@ == seq![INVITE_PREFIX] + server_id@ + match inviter {
            Some(i) => i@,
            None => Seq::empty(),
        },
{
    let mut k: Vec<u8> = Vec::new();
    k.push(INVITE_PREFIX);
    server_id.write(&mut k);
    match inviter {
        Some(i) => i.write(&mut k),
        None => {},
    }
    assert(k@ =~= seq![INVITE_PREFIX] + server_id@ + match inviter {
        Some(i) => i@,
        None => Seq::<u8>::empty(),
    });
    k
}

/// Deleting the invite `invite_id`, stored as `stored` under its identifier:
/// both of its keys go; nothing changes when no such invite is stored.
pub fn delete_invite_ops(invite_id: u128, stored: &Option<Vec<u8>>) -> (res: Result<Vec<StoreOp>, Error>)
    ensures
        match spec_decode::<Invite>(opt_bytes(*stored)) {
            Ok(None) => res matches Ok(ops) && ops@.len() == 0,
            Ok(Some(v)) => res matches Ok(ops) && views(ops@) == seq![
                StoreOpModel::Delete(spec_invite_id_key(invite_id)),
                StoreOpModel::Delete(spec_invite_key(v.1, v.0, invite_id)),
            ],
            Err(e) => res matches Err(f) && is_read_error(e, f.inner),
        },
{
    match decode_stored::<Invite>(stored)? {
        None => Ok(Vec::new()),
        Some(invite) => {
            let mut ops: Vec<StoreOp> = Vec::new();
            ops.push(StoreOp::Delete(invite_id_key(invite_id)));
            ops.push(StoreOp::Delete(invite_key(invite.server_id, invite.inviter, invite_id)));
            assert(views(ops@) =~= seq![
                StoreOpModel::Delete(spec_invite_id_key(invite_id)),
                StoreOpModel::Delete(spec_invite_key(invite@.1, invite@.0, invite_id)),
            ]);
            Ok(ops)
        },
    }
}

/// The invite stored as `stored`, if there is one that has been accepted
/// fewer times than it may be.
pub fn usable_invite(stored: &Option<Vec<u8>>) -> (res: Result<Option<Invite>, Error>)
    ensures
        match spec_decode::<Invite>(opt_bytes(*stored)) {
            Ok(None) => res matches Ok(None),
            Ok(Some(v)) => if v.3 >= v.4 {
                res matches Ok(None)
            } else {
                res matches Ok(Some(i)) && i@ == v
            },
            Err(e) => res matches Err(f) && is_read_error(e, f.inner),
        },
{
    match decode_stored::<Invite>(stored)? {
        None => Ok(None),
        Some(invite) => if invite.cur >= invite.max {
            Ok(None)
        } else {
            Ok(Some(invite))
        },
    }
}

/// What someone holding the invite `invite` learns of the server stored as
/// `stored`: nothing when no server is stored.
pub fn join_info_reply(invite: &Invite, stored: &Option<Vec<u8>>) -> (res: Result<Option<JoinInfoReply>, Error>)
    ensures
        match spec_decode::<ServerInfo>(opt_bytes(*stored)) {
            Ok(None) => res matches Ok(None),
            Ok(Some(v)) => res matches Ok(Some(r)) && r@ == (v.0, invite.server_id@, v.1, invite.inviter@),
            Err(e) => res matches Err(f) && is_read_error(e, f.inner),
        },
{
    match decode_stored::<ServerInfo>(stored)? {
        None => Ok(None),
        Some(info) => Ok(
            Some(
                JoinInfoReply {
                    server_pubkey: info.pubkey,
                    name: info.name,
                    server_id: invite.server_id,
                    inviter_pubkey: invite.inviter,
                },
            ),
        ),
    }
}

/// Accepting a usable invite: it counts one more acceptance, and is written
/// back under `key`.
pub fn accept_invite_op(key: Vec<u8>, invite: Invite) -> (res: (Invite, StoreOp))
    requires
        invite.cur < invite.max,
    ensures
        res.0@ == (invite@.0, invite@.1, invite@.2, (invite@.3 + 1) as u64, invite@.4, invite@.5),
        res.1@ == StoreOpModel::Put(key@, Invite::spec_write(res.0@)),
{
    let mut invite = invite;
    invite.cur = invite.cur + 1;
    let mut value: Vec<u8> = Vec::new();
    serialize_default(&mut value, &invite);
    (invite, StoreOp::Put(key, value))
}

/// The key that accepting an invite looks the server up under: the server
/// prefix and the server's identifier, without its public key.
pub fn accepted_server_key(server_id: &[u8; 8]) -> (k: Vec<u8>)
    ensures
        k@ == seq![SERVER_PREFIX] + server_id@,
{
    let mut k: Vec<u8> = Vec::new();
    k.push(SERVER_PREFIX);
    server_id.write(&mut k);
    k
}

/// The key of a member found by public key.
pub fn member_hash_key(user_pubkey: Pubkey, server_id: ServerId, server_pubkey: Pubkey) -> (k: Vec<u8>)
    ensures
        k@ == MemberKeyHashImpl::spec_write((server_pubkey@, server_id@, user_pubkey@)),
{
    let mut k: Vec<u8> = Vec::new();
    serialize_default(&mut k, &MemberKeyHashImpl { server_pubkey, server_id, user_pubkey });
    k
}

/// The member stored as `stored` under its key, if there is one.
pub fn stored_member(user_pubkey: Pubkey, server_id: ServerId, server_pubkey: Pubkey, stored: &Option<Vec<u8>>) -> (res:
    Result<Option<MemberImpl>, Error>)
    ensures
        match spec_decode::<MemberValueImpl>(opt_bytes(*stored)) {
            Ok(None) => res matches Ok(None),
            Ok(Some(v)) => res matches Ok(Some(m)) && m@ == (user_pubkey@, server_pubkey@, server_id@, v.0, v.3, v.1, v.2),
            Err(e) => res matches Err(f) && is_read_error(e, f.inner),
        },
{
    match decode_stored::<MemberValueImpl>(stored)? {
        None => Ok(None),
        Some(m) => Ok(
            Some(
                MemberImpl {
                    server_pubkey,
                    server_id,
                    user_pubkey,
                    roles: m.roles,
                    join_time: m.join_time,
                    modified_time: m.modified_time,
                    batch_num: m.batch_num,
                },
            ),
        ),
    }
}

/// A member who has just joined: without a profile, joined and changed at
/// the given times or else now.
pub fn new_member(user_pubkey: Pubkey, roles: u128, modified_time: Option<u64>, join_time: Option<u64>, time_now: u64) -> (m:
    Member)
    ensures
        m@ == (
            user_pubkey@,
            None::<(Seq<char>, Seq<char>)>,
            roles,
            match join_time {
                Some(t) => t,
                None => time_now,
            },
            match modified_time {
                Some(t) => t,
                None => time_now,
            },
        ),
{
    Member {
        user_pubkey,
        profile_data: None,
        roles,
        join_time: match join_time {
            Some(t) => t,
            None => time_now,
        },
        modified_time: match modified_time {
            Some(t) => t,
            None => time_now,
        },
    }
}

/// The key of the member count of a server.
pub fn member_metadata_key(server_pubkey: Pubkey, server_id: ServerId) -> (k: Vec<u8>)
    ensures
        k@ == MemberMetaDataKey::spec_write((server_pubkey@, server_id@)),
{
    let mut k: Vec<u8> = Vec::new();
    serialize_default(&mut k, &MemberMetaDataKey { server_pubkey, server_id });
    k
}

/// Counting one more member of a server whose count is stored under `key` as
/// `stored`: the batch the new member falls in, and the new count.
pub fn update_metadata_ops(key: Vec<u8>, stored: &Option<Vec<u8>>) -> (res: Result<(u64, StoreOp), Error>)
    requires
        spec_decode::<MemberMetaDataValue>(opt_bytes(*stored)) matches Ok(Some(c)) ==> c < u64::MAX,
    ensures
        match spec_decode::<MemberMetaDataValue>(opt_bytes(*stored)) {
            Ok(None) => res matches Ok((b, op)) && b == 0 && op@ == StoreOpModel::Put(
                key@,
                MemberMetaDataValue::spec_write(1),
            ),
            Ok(Some(c)) => res matches Ok((b, op)) && b == c / MEMBER_BATCH_SIZE && op@ == StoreOpModel::Put(
                key@,
                MemberMetaDataValue::spec_write((c + 1) as u64),
            ),
            Err(e) => res matches Err(f) && is_read_error(e, f.inner),
        },
{
    match decode_stored::<MemberMetaDataValue>(stored)? {
        Some(meta) => {
            let mut value: Vec<u8> = Vec::new();
            serialize_default(&mut value, &MemberMetaDataValue { member_count: meta.member_count + 1 });
            Ok((meta.member_count / MEMBER_BATCH_SIZE, StoreOp::Put(key, value)))
        },
        None => {
            let mut value: Vec<u8> = Vec::new();
            serialize_default(&mut value, &MemberMetaDataValue { member_count: 1 });
            Ok((0, StoreOp::Put(key, value)))
        },
    }
}

/// The roles give more than plain membership (an owner or a moderator):
/// such a member is listed with the members that have privileges, any
/// other with the plain members.
pub open spec fn is_privileged(roles: u128) -> bool {
    roles != 0 && roles != AUTH_FLAG_MEMBER
}

/// The changes that store a member: its record found by key, and its record
/// in the table of plain members or in that of members with privileges,
/// whichever its roles put it in, removed from the other.
pub open spec fn spec_save_member_ops(
    server_pubkey: Seq<u8>,
    server_id: Seq<u8>,
    user_pubkey: Seq<u8>,
    roles: u128,
    join_time: u64,
    modified_time: u64,
    batch_num: u64,
) -> Seq<StoreOpModel> {
    let value = MemberValueImpl::spec_write((roles, join_time, modified_time, batch_num));
    let hash_key = MemberKeyHashImpl::spec_write((server_pubkey, server_id, user_pubkey));
    let itt_key = MemberKeyIttImpl::spec_write((server_pubkey, server_id, batch_num, join_time, user_pubkey));
    let auth_key = MemberKeyAuthImpl::spec_write((server_pubkey, server_id, roles, batch_num, join_time, user_pubkey));
    if !is_privileged(roles) {
        seq![StoreOpModel::Put(hash_key, value), StoreOpModel::Put(itt_key, value), StoreOpModel::Delete(auth_key)]
    } else {
        seq![StoreOpModel::Put(hash_key, value), StoreOpModel::Put(auth_key, value), StoreOpModel::Delete(itt_key)]
    }
}

/// Storing a member of a server, in the batch `batch_num`.
pub fn save_member_ops(server_pubkey: Pubkey, server_id: ServerId, member: &Member, batch_num: u64) -> (ops: Vec<StoreOp>)
    ensures
        views(ops@) == spec_save_member_ops(
            server_pubkey@,
            server_id@,
            member.user_pubkey@,
            member.roles,
            member.join_time,
            member.modified_time,
            batch_num,
        ),
{
    let member_impl = MemberImpl {
        user_pubkey: member.user_pubkey,
        roles: member.roles,
        join_time: member.join_time,
        modified_time: member.modified_time,
        batch_num,
        server_id,
        server_pubkey,
    };
    let member_key_hash = MemberKeyHashImpl::from(&member_impl);
    let member_key_itt = MemberKeyIttImpl::from(&member_impl);
    let member_key_auth = MemberKeyAuthImpl::from(&member_impl);
    let member_value = MemberValueImpl::from(&member_impl);
    let mut hash_buffer: Vec<u8> = Vec::new();
    let mut itt_buffer: Vec<u8> = Vec::new();
    let mut auth_buffer: Vec<u8> = Vec::new();
    serialize_default(&mut hash_buffer, &member_key_hash);
    serialize_default(&mut itt_buffer, &member_key_itt);
    serialize_default(&mut auth_buffer, &member_key_auth);
    let mut value: Vec<u8> = Vec::new();
    serialize_default(&mut value, &member_value);
    let value2 = value.clone();
    assert(value2@ == value@);
    let mut ops: Vec<StoreOp> = Vec::new();
    ops.push(StoreOp::Put(hash_buffer, value));
    if member.roles == 0 || member.roles == AUTH_FLAG_MEMBER {
        ops.push(StoreOp::Put(itt_buffer, value2));
        ops.push(StoreOp::Delete(auth_buffer));
    } else {
        ops.push(StoreOp::Put(auth_buffer, value2));
        ops.push(StoreOp::Delete(itt_buffer));
    }
    assert(views(ops@) =~= spec_save_member_ops(
        server_pubkey@,
        server_id@,
        member.user_pubkey@,
        member.roles,
        member.join_time,
        member.modified_time,
        batch_num,
    ));
    ops
}

/// The start of the keys of one batch of members: of those with privileges when
/// `auth` holds, else of the plain members.
pub fn members_prefix(server_pubkey: [u8; 32], server_id: [u8; 8], batch_num: u64, auth: bool) -> (k: Vec<u8>)
    ensures
        k@ == if auth {
            AuthBatchLookupKeyImpl::spec_write((server_pubkey@, server_id@, batch_num))
        } else {
            MemberBatchLookupKeyImpl::spec_write((server_pubkey@, server_id@, batch_num))
        },
{
    let mut k: Vec<u8> = Vec::new();
    let server_pubkey = Pubkey::from_bytes(server_pubkey);
    let server_id = ServerId::from_bytes(server_id);
    if auth {
        serialize_default(&mut k, &AuthBatchLookupKeyImpl { server_pubkey, server_id, batch_num });
    } else {
        serialize_default(&mut k, &MemberBatchLookupKeyImpl { server_pubkey, server_id, batch_num });
    }
    k
}

/// The key and the value of the entry `e` read as a member of the table of
/// members with roles (`auth`) or without.
pub open spec fn member_entry_ok(e: (Seq<u8>, Seq<u8>), auth: bool) -> bool {
    &&& if auth {
        MemberKeyAuthImpl::spec_read(e.0) is Ok
    } else {
        MemberKeyIttImpl::spec_read(e.0) is Ok
    }
    &&& MemberValueImpl::spec_read(e.1) is Ok
}

/// The member stored as the entry `e`: its keys and batch come from the
/// entry's key, its roles and times from its value.
pub open spec fn member_of(e: (Seq<u8>, Seq<u8>), auth: bool) -> <MemberImpl as View>::V {
    let v = read_value::<MemberValueImpl>(e.1);
    if auth {
        let k = read_value::<MemberKeyAuthImpl>(e.0);
        (k.5, k.0, k.1, v.0, k.3, v.1, v.2)
    } else {
        let k = read_value::<MemberKeyIttImpl>(e.0);
        (k.4, k.0, k.1, v.0, k.2, v.1, v.2)
    }
}

/// The members of one batch, from its entries in key order; the walk stops
/// at the first entry that cannot be read.
pub fn member_impls_from_entries(entries: &Vec<(Vec<u8>, Vec<u8>)>, auth: bool) -> (ret: Vec<MemberImpl>)
    ensures
        views(ret@) == views(entries@).take(good_prefix_len(views(entries@), |e| member_entry_ok(e, auth)) as int).map_values(
            |e: (Seq<u8>, Seq<u8>)| member_of(e, auth),
        ),
{
    let ghost es = views(entries@);
    let ghost ok = |e: (Seq<u8>, Seq<u8>)| member_entry_ok(e, auth);
    let mut ret: Vec<MemberImpl> = Vec::new();
    let mut i: usize = 0;
    let mut stop = false;
    while i < entries.len() && !stop
        invariant
            i <= entries@.len(),
            es == views(entries@),
            ok == (|e: (Seq<u8>, Seq<u8>)| member_entry_ok(e, auth)),
            forall|j: int| 0 <= j < i ==> #[trigger] ok(es[j]),
            stop ==> i < entries@.len() && !ok(es[i as int]),
            views(ret@) == es.take(i as int).map_values(|e: (Seq<u8>, Seq<u8>)| member_of(e, auth)),
        decreases entries@.len() - i + (if stop { 0int } else { 1int }),
    {
        let key = entries[i].0.as_slice();
        let value = deserialize_default::<MemberValueImpl>(entries[i].1.as_slice());
        assert(es[i as int] == (entries@[i as int].0@, entries@[i as int].1@));
        let member = if auth {
            match (deserialize_default::<MemberKeyAuthImpl>(key), value) {
                (Ok(k), Ok(v)) => Some(
                    MemberImpl {
                        user_pubkey: k.user_pubkey,
                        server_pubkey: k.server_pubkey,
                        server_id: k.server_id,
                        batch_num: k.batch_num,
                        roles: v.roles,
                        join_time: v.join_time,
                        modified_time: v.modified_time,
                    },
                ),
                _ => None,
            }
        } else {
            match (deserialize_default::<MemberKeyIttImpl>(key), value) {
                (Ok(k), Ok(v)) => Some(
                    MemberImpl {
                        user_pubkey: k.user_pubkey,
                        server_pubkey: k.server_pubkey,
                        server_id: k.server_id,
                        batch_num: k.batch_num,
                        roles: v.roles,
                        join_time: v.join_time,
                        modified_time: v.modified_time,
                    },
                ),
                _ => None,
            }
        };
        match member {
            Some(m) => {
                assert(ok(es[i as int]));
                assert(m@ == member_of(es[i as int], auth));
                let ghost old_ret = views(ret@);
                ret.push(m);
                assert(views(ret@) =~= old_ret.push(m@));
                assert(es.take(i + 1).map_values(|e: (Seq<u8>, Seq<u8>)| member_of(e, auth)) =~= es.take(
                    i as int,
                ).map_values(|e: (Seq<u8>, Seq<u8>)| member_of(e, auth)).push(member_of(es[i as int], auth)));
                i = i + 1;
            },
            None => {
                stop = true;
            },
        }
    }
    proof {
        lemma_good_prefix_len(es, ok, i as nat);
    }
    ret
}

/// The public keys of `members`, in order.
pub fn member_pubkeys(members: &Vec<MemberImpl>) -> (keys: Vec<Pubkey>)
    ensures
        keys@.len() == members@.len(),
        forall|i: int| 0 <= i < members@.len() ==> #[trigger] keys@[i]@ == members@[i].user_pubkey@,
{
    let mut keys: Vec<Pubkey> = Vec::new();
    let mut i: usize = 0;
    while i < members.len()
        invariant
            i <= members@.len(),
            keys@.len() == i,
            forall|j: int| 0 <= j < i ==> #[trigger] keys@[j]@ == members@[j].user_pubkey@,
        decreases members@.len() - i,
    {
        keys.push(members[i].user_pubkey);
        i = i + 1;
    }
    keys
}

/// The profile data of a profile, if there is one.
pub open spec fn profile_data_of(p: Option<Profile>) -> Option<(Seq<char>, Seq<char>)> {
    match p {
        Some(p) => Some(p.profile_data@),
        None => None,
    }
}

/// The members, each with the profile found for it, in order.
pub fn members_with_profiles(impls: Vec<MemberImpl>, profiles: Vec<Option<Profile>>) -> (members: Vec<Member>)
    requires
        profiles@.len() <= impls@.len(),
    ensures
        members@.len() == impls@.len(),
        forall|i: int|
            0 <= i < impls@.len() ==> #[trigger] members@[i]@ == (
                impls@[i].user_pubkey@,
                if i < profiles@.len() {
                    profile_data_of(profiles@[i])
                } else {
                    None
                },
                impls@[i].roles,
                impls@[i].join_time,
                impls@[i].modified_time,
            ),
{
    let mut members: Vec<Member> = Vec::new();
    let mut i: usize = 0;
    while i < impls.len()
        invariant
            i <= impls@.len(),
            members@.len() == i,
            forall|j: int|
                0 <= j < i ==> #[trigger] members@[j]@ == (
                    impls@[j].user_pubkey@,
                    None::<(Seq<char>, Seq<char>)>,
                    impls@[j].roles,
                    impls@[j].join_time,
                    impls@[j].modified_time,
                ),
        decreases impls@.len() - i,
    {
        members.push(Member::from(impls[i]));
        i = i + 1;
    }
    let mut profiles = profiles;
    let n = profiles.len();
    let mut k: usize = n;
    let ghost orig = profiles@;
    while k > 0
        invariant
            k <= n,
            n == orig.len(),
            n <= impls@.len(),
            members@.len() == impls@.len(),
            profiles@ == orig.take(k as int),
            forall|j: int|
                0 <= j < impls@.len() ==> #[trigger] members@[j]@ == (
                    impls@[j].user_pubkey@,
                    if k <= j < n {
                        profile_data_of(orig[j])
                    } else {
                        None
                    },
                    impls@[j].roles,
                    impls@[j].join_time,
                    impls@[j].modified_time,
                ),
        decreases k,
    {
        let profile = profiles.pop();
        k = k - 1;
        let data = match profile {
            Some(Some(p)) => Some(p.profile_data),
            _ => None,
        };
        assert(profile == Some(orig[k as int]));
        assert(match data {
            Some(d) => Some(d@),
            None => None::<(Seq<char>, Seq<char>)>,
        } == profile_data_of(orig[k as int]));
        let ghost old_members = members@;
        let mut m = members.remove(k);
        m.profile_data = data;
        members.insert(k, m);
        assert(members@ =~= old_members.update(k as int, m));
        assert(profiles@ =~= orig.take(k as int));
        assert(old_members[k as int]@.0 == impls@[k as int].user_pubkey@);
        assert(members@[k as int]@ == (
            impls@[k as int].user_pubkey@,
            profile_data_of(orig[k as int]),
            impls@[k as int].roles,
            impls@[k as int].join_time,
            impls@[k as int].modified_time,
        ));
    }
    members
}

/// The key of the sign-in challenge of a user.
pub open spec fn spec_challenge_key(user_pubkey: Seq<u8>) -> Seq<u8> {
    seq![CHALLENGE_PREFIX] + user_pubkey
}

/// The key of the sign-in challenge of a user.
pub fn challenge_key(user_pubkey: &[u8; 32]) -> (k: Vec<u8>)
    ensures
        k@ == spec_challenge_key(user_pubkey@),
{
    let mut k: Vec<u8> = Vec::new();
    k.push(CHALLENGE_PREFIX);
    user_pubkey.write(&mut k);
    k
}

/// Storing a sign-in challenge for a user.
pub fn challenge_op(user_pubkey: &[u8; 32], challenge: [u8; 8]) -> (op: StoreOp)
    ensures
        op@ == StoreOpModel::Put(spec_challenge_key(user_pubkey@), Challenge::spec_write(challenge@)),
{
    let mut value: Vec<u8> = Vec::new();
    serialize_default(&mut value, &Challenge { challenge });
    StoreOp::Put(challenge_key(user_pubkey), value)
}

/// Whether the challenge stored as `stored` is `challenge`: never when none is
/// stored.
pub fn challenge_matches(stored: &Option<Vec<u8>>, challenge: [u8; 8]) -> (res: Result<bool, Error>)
    ensures
        match spec_decode::<Challenge>(opt_bytes(*stored)) {
            Ok(None) => res matches Ok(b) && !b,
            Ok(Some(c)) => res matches Ok(b) && b == (c == challenge@),
            Err(e) => res matches Err(f) && is_read_error(e, f.inner),
        },
{
    match decode_stored::<Challenge>(stored)? {
        None => Ok(false),
        Some(c) => {
            let stored_challenge = c.challenge;
            let mut i: usize = 0;
            while i < 8
                invariant
                    i <= 8,
                    stored_challenge@ == c@,
                    spec_decode::<Challenge>(opt_bytes(*stored)) == Ok::<Option<Seq<u8>>, ReadError>(Some(c@)),
                    forall|j: int| 0 <= j < i ==> stored_challenge@[j] == challenge@[j],
                decreases 8 - i,
            {
                if stored_challenge[i] != challenge[i] {
                    assert(c@[i as int] != challenge@[i as int]);
                    return Ok(false);
                }
                i = i + 1;
            }
            assert(stored_challenge@ =~= challenge@);
            Ok(true)
        },
    }
}

/// The key of a session of a user.
pub open spec fn spec_auth_token_key(user_pubkey: Seq<u8>, token: u128) -> Seq<u8> {
    seq![TOKEN_PREFIX] + user_pubkey + <u128 as Ser>::spec_write(token)
}

/// The key of a session of a user.
pub fn auth_token_key(user_pubkey: &[u8; 32], token: u128) -> (k: Vec<u8>)
    ensures
        k@ == spec_auth_token_key(user_pubkey@, token),
{
    let mut k: Vec<u8> = Vec::new();
    k.push(TOKEN_PREFIX);
    user_pubkey.write(&mut k);
    token.write(&mut k);
    assert(k@ =~= spec_auth_token_key(user_pubkey@, token));
    k
}

/// Storing a session that begins at `creation_time` and lasts while unused
/// for no more than `expiration_millis`.
pub fn token_op(user_pubkey: &[u8; 32], token: u128, creation_time: u128, expiration_millis: u128) -> (op: StoreOp)
    ensures
        op@ == StoreOpModel::Put(
            spec_auth_token_key(user_pubkey@, token),
            AuthInfo::spec_write((creation_time, creation_time, expiration_millis)),
        ),
{
    let mut value: Vec<u8> = Vec::new();
    serialize_default(&mut value, &AuthInfo { creation_time, last_access_time: creation_time, expiration_millis });
    StoreOp::Put(auth_token_key(user_pubkey, token), value)
}

/// The text handed out for a session token: its decimal digits.
pub fn token_text(token: u128) -> (s: String)
    ensures
        s@ == decimal(token as nat),
{
    u128_to_decimal(token)
}

/// A session whose last use was at `last_access_time` and that may go unused
/// for `expiration_millis` has expired at `time_now`: more time has passed
/// since, by unsigned subtraction, which wraps when the clock reads before
/// the last use (so such a session has expired).
pub open spec fn expired(time_now: u128, last_access_time: u128, expiration_millis: u128) -> bool {
    elapsed(time_now, last_access_time) > expiration_millis
}

/// Whether the session stored as `stored` may be used at `time_now`.
pub fn token_check(time_now: u128, stored: &Option<Vec<u8>>) -> (res: Result<(), Error>)
    ensures
        match spec_decode::<AuthInfo>(opt_bytes(*stored)) {
            Ok(None) => res matches Err(f) && f.inner matches ErrorKind::NotAuthorized(m) && m@
                == "invalid token - not found"@,
            Ok(Some(a)) => if expired(time_now, a.1, a.2) {
                res matches Err(f) && f.inner matches ErrorKind::NotAuthorized(m) && m@ == "invalid token - expired"@
            } else {
                res is Ok
            },
            Err(e) => res matches Err(f) && is_read_error(e, f.inner),
        },
{
    match decode_stored::<AuthInfo>(stored)? {
        None => Err(Error { inner: ErrorKind::NotAuthorized("invalid token - not found".to_owned()) }),
        Some(auth_info) => {
            if elapsed_millis(time_now, auth_info.last_access_time) > auth_info.expiration_millis {
                Err(Error { inner: ErrorKind::NotAuthorized("invalid token - expired".to_owned()) })
            } else {
                Ok(())
            }
        },
    }
}

/// Whether a member, if there is one, holds one of the roles `requested_roles`.
pub fn roles_check(member: &Option<MemberImpl>, requested_roles: u128) -> (res: Result<(), Error>)
    ensures
        match member {
            Some(m) => if m.roles & requested_roles != 0 {
                res is Ok
            } else {
                res matches Err(f) && f.inner matches ErrorKind::NotAuthorized(msg) && msg@ == "not authorized. requested = "@
                    + decimal(requested_roles as nat) + ", actual = "@ + decimal(m.roles as nat)
            },
            None => res matches Err(f) && f.inner matches ErrorKind::NotAuthorized(msg) && msg@
                == "not authorized. requested = "@ + decimal(requested_roles as nat) + ", level = "@ + decimal(0),
        },
{
    match member {
        Some(m) => {
            if m.roles & requested_roles != 0 {
                Ok(())
            } else {
                let mut msg = "not authorized. requested = ".to_owned();
                msg.append(u128_to_decimal(requested_roles).as_str());
                msg.append(", actual = ");
                msg.append(u128_to_decimal(m.roles).as_str());
                Err(Error { inner: ErrorKind::NotAuthorized(msg) })
            }
        },
        None => {
            let mut msg = "not authorized. requested = ".to_owned();
            msg.append(u128_to_decimal(requested_roles).as_str());
            msg.append(", level = ");
            msg.append(u128_to_decimal(0).as_str());
            Err(Error { inner: ErrorKind::NotAuthorized(msg) })
        },
    }
}

/// The session read from the value of the entry `e`.
pub open spec fn auth_entry_ok(e: (Seq<u8>, Seq<u8>)) -> bool {
    AuthInfo::spec_read(e.1) is Ok
}

/// The keys of the sessions of `entries` that have expired at `time_now`.
pub open spec fn expired_keys_of(time_now: u128, entries: Seq<(Seq<u8>, Seq<u8>)>) -> Seq<Seq<u8>>
    decreases entries.len(),
{
    if entries.len() == 0 {
        Seq::empty()
    } else {
        let prev = expired_keys_of(time_now, entries.drop_last());
        let a = read_value::<AuthInfo>(entries.last().1);
        if expired(time_now, a.1, a.2) {
            prev.push(entries.last().0)
        } else {
            prev
        }
    }
}

/// The keys of the sessions that have expired at `time_now`, from the entries
/// of the session table in key order; the walk stops at the first session
/// that cannot be read.
pub fn expired_token_keys(time_now: u128, entries: &Vec<(Vec<u8>, Vec<u8>)>) -> (ret: Vec<Vec<u8>>)
    ensures
        views(ret@) == expired_keys_of(
            time_now,
            views(entries@).take(good_prefix_len(views(entries@), |e| auth_entry_ok(e)) as int),
        ),
{
    let ghost es = views(entries@);
    let ghost ok = |e: (Seq<u8>, Seq<u8>)| auth_entry_ok(e);
    let mut ret: Vec<Vec<u8>> = Vec::new();
    let mut i: usize = 0;
    let mut stop = false;
    while i < entries.len() && !stop
        invariant
            i <= entries@.len(),
            es == views(entries@),
            ok == (|e: (Seq<u8>, Seq<u8>)| auth_entry_ok(e)),
            forall|j: int| 0 <= j < i ==> #[trigger] ok(es[j]),
            stop ==> i < entries@.len() && !ok(es[i as int]),
            views(ret@) == expired_keys_of(time_now, es.take(i as int)),
        decreases entries@.len() - i + (if stop { 0int } else { 1int }),
    {
        assert(es[i as int] == (entries@[i as int].0@, entries@[i as int].1@));
        match deserialize_default::<AuthInfo>(entries[i].1.as_slice()) {
            Err(_) => {
                stop = true;
            },
            Ok(auth_info) => {
                proof {
                    lemma_good_prefix_len_bound(es, ok, (i + 1) as nat);
                }
                assert(auth_info@ == read_value::<AuthInfo>(es[i as int].1));
                let ghost old_ret = views(ret@);
                assert(es.take(i + 1).drop_last() =~= es.take(i as int));
                if elapsed_millis(time_now, auth_info.last_access_time) > auth_info.expiration_millis {
                    let key = entries[i].0.clone();
                    assert(key@ == entries@[i as int].0@);
                    ret.push(key);
                    assert(views(ret@) =~= old_ret.push(es[i as int].0));
                }
                i = i + 1;
            },
        }
    }
    proof {
        lemma_good_prefix_len(es, ok, i as nat);
    }
    ret
}

/// Storing the token that a server handed out.
pub fn stored_auth_token_op(server_pubkey: &[u8; 32], auth_token: u128) -> (op: StoreOp)
    ensures
        op@ == StoreOpModel::Put(seq![STORED_AUTH_TOKEN_PREFIX] + server_pubkey@, AuthToken::spec_write(auth_token)),
{
    let mut key: Vec<u8> = Vec::new();
    key.push(STORED_AUTH_TOKEN_PREFIX);
    server_pubkey.write(&mut key);
    let mut value: Vec<u8> = Vec::new();
    serialize_default(&mut value, &AuthToken { auth_token });
    StoreOp::Put(key, value)
}

/// The key of the profile of a user on a server.
pub fn profile_key(user_pubkey: Pubkey, server_pubkey: Pubkey, server_id: ServerId) -> (k: Vec<u8>)
    ensures
        k@ == ProfileKey::spec_write((user_pubkey@, server_pubkey@, server_id@)),
{
    let mut k: Vec<u8> = Vec::new();
    serialize_default(&mut k, &ProfileKey { user_pubkey, server_pubkey, server_id });
    k
}

/// The profile of a user on a server whose data is stored as `stored`.
pub fn stored_profile(user_pubkey: Pubkey, server_pubkey: Pubkey, server_id: ServerId, stored: &Option<Vec<u8>>) -> (res:
    Result<Option<Profile>, Error>)
    ensures
        match spec_decode::<ProfileData>(opt_bytes(*stored)) {
            Ok(None) => res matches Ok(None),
            Ok(Some(d)) => res matches Ok(Some(p)) && p@ == (user_pubkey@, server_pubkey@, server_id@, d),
            Err(e) => res matches Err(f) && is_read_error(e, f.inner),
        },
{
    match decode_stored::<ProfileData>(stored)? {
        None => Ok(None),
        Some(profile_data) => Ok(Some(Profile { user_pubkey, server_pubkey, server_id, profile_data })),
    }
}

/// Storing the profile data of a user on a server.
pub fn profile_op(user_pubkey: Pubkey, server_pubkey: Pubkey, server_id: ServerId, profile_data: &ProfileData) -> (op:
    StoreOp)
    ensures
        op@ == StoreOpModel::Put(
            ProfileKey::spec_write((user_pubkey@, server_pubkey@, server_id@)),
            ProfileData::spec_write(profile_data@),
        ),
{
    let mut value: Vec<u8> = Vec::new();
    serialize_default(&mut value, profile_data);
    StoreOp::Put(profile_key(user_pubkey, server_pubkey, server_id), value)
}

/// The key of a websocket token.
pub fn ws_token_key(token: u128) -> (k: Vec<u8>)
    ensures
        k@ == WSAuthToken::spec_write(token),
{
    let mut k: Vec<u8> = Vec::new();
    serialize_default(&mut k, &WSAuthToken { token });
    k
}

/// Storing a websocket token: a single zero byte under its key.
pub fn ws_token_op(token: u128) -> (op: StoreOp)
    ensures
        op@ == StoreOpModel::Put(WSAuthToken::spec_write(token), seq![0u8]),
{
    let mut value: Vec<u8> = Vec::new();
    value.push(0u8);
    StoreOp::Put(ws_token_key(token), value)
}

/// Whether a websocket token is stored, from what its key holds.
pub fn ws_token_present(stored: &Option<Vec<u8>>) -> (res: Result<bool, Error>)
    ensures
        match spec_decode::<u8>(opt_bytes(*stored)) {
            Ok(d) => res matches Ok(b) && b == d is Some,
            Err(e) => res matches Err(f) && is_read_error(e, f.inner),
        },
{
    let v = decode_stored::<u8>(stored)?;
    Ok(v.is_some())
}

/// The identifier of a server being added: the one given, else a random one.
pub fn new_server_id(server_id: Option<[u8; 8]>) -> (id: [u8; 8])
    ensures
        server_id matches Some(given) ==> id == given,
{
    match server_id {
        Some(given) => given,
        None => random_bytes8(),
    }
}

/// A channel under a newly drawn random identifier: the identifier and the
/// record to store.
pub fn new_channel_record(server_pubkey: [u8; 32], server_id: [u8; 8], name: String, description: String) -> (res: (
    u64,
    StoreOp,
))
    ensures
        res.1@ == StoreOpModel::Put(
            spec_channel_record_key((server_pubkey@, server_id@, res.0)),
            Channel::spec_write((name@, description@, res.0)),
        ),
{
    let channel_id = random_u64();
    let channel_key = ChannelKey { server_pubkey, server_id, channel_id };
    let channel = Channel { name, description, channel_id };
    (channel_id, channel_record(&channel_key, &channel))
}

/// The default channel of a new server, under a random identifier, keyed by
/// whoever added the server.
pub fn default_channel_record(owner_pubkey: [u8; 32], server_id: [u8; 8]) -> (res: (u64, StoreOp))
    ensures
        res.1@ == StoreOpModel::Put(
            spec_channel_record_key((owner_pubkey@, server_id@, res.0)),
            Channel::spec_write(("mainchat"@, "Welcome to mainchat!"@, res.0)),
        ),
{
    let channel_id = random_u64();
    let channel = default_channel(channel_id);
    let channel_key = ChannelKey { server_pubkey: owner_pubkey, server_id, channel_id };
    (channel_id, channel_record(&channel_key, &channel))
}

/// An invite under a newly drawn random identifier, and the records that
/// store it.
pub fn create_invite(inviter: [u8; 32], server_id: [u8; 8], expiry: u128, count: u64) -> (res: (Invite, Vec<StoreOp>))
    ensures
        res.0@ == (inviter@, server_id@, expiry, 0u64, count, res.0.id),
        views(res.1@) == seq![
            StoreOpModel::Put(spec_invite_key(server_id@, inviter@, res.0.id), spec_invite_value(res.0@)),
            StoreOpModel::Put(spec_invite_id_key(res.0.id), spec_invite_value(res.0@)),
        ],
{
    let id = random_u128();
    let invite = new_invite(inviter, server_id, expiry, count, id);
    let ops = invite_records(&invite);
    (invite, ops)
}

/// A newly drawn random sign-in challenge for a user, and the record that
/// stores it.
pub fn create_challenge(user_pubkey: &[u8; 32]) -> (res: ([u8; 8], StoreOp))
    ensures
        res.1@ == StoreOpModel::Put(spec_challenge_key(user_pubkey@), Challenge::spec_write(res.0@)),
{
    let challenge = random_bytes8();
    (challenge, challenge_op(user_pubkey, challenge))
}

/// A newly drawn random session token for a user, and the record that stores
/// the session begun at `creation_time`.
pub fn create_token(user_pubkey: &[u8; 32], creation_time: u128, expiration_millis: u128) -> (res: (u128, StoreOp))
    ensures
        res.1@ == StoreOpModel::Put(
            spec_auth_token_key(user_pubkey@, res.0),
            AuthInfo::spec_write((creation_time, creation_time, expiration_millis)),
        ),
{
    let token = random_u128();
    (token, token_op(user_pubkey, token, creation_time, expiration_millis))
}

/// A challenge stored for a user reads back as that challenge: the challenge
/// handed out is matched, and any other is not.
pub proof fn lemma_stored_challenge_read(challenge: Seq<u8>)
    requires
        challenge.len() == 8,
    ensures
        spec_decode::<Challenge>(Some(Challenge::spec_write(challenge))) == Ok::<Option<Seq<u8>>, ReadError>(
            Some(challenge),
        ),
{
    lemma_serialize_deserialize::<Challenge>(challenge);
}

/// A session stored at `creation_time` reads back as stored, and may be used
/// at `time_now` exactly while no more than `expiration_millis` have passed
/// since.
pub proof fn lemma_stored_session_usable(creation_time: u128, expiration_millis: u128, time_now: u128)
    requires
        creation_time <= time_now,
    ensures
        spec_decode::<AuthInfo>(Some(AuthInfo::spec_write((creation_time, creation_time, expiration_millis))))
            == Ok::<Option<(u128, u128, u128)>, ReadError>(Some((creation_time, creation_time, expiration_millis))),
        !expired(time_now, creation_time, expiration_millis) <==> time_now - creation_time <= expiration_millis,
{
    lemma_serialize_deserialize::<AuthInfo>((creation_time, creation_time, expiration_millis));
}

/// An invite written back once accepted reads back as the invite.
pub proof fn lemma_stored_invite_read(invite: <Invite as View>::V)
    requires
        invite.0.len() == 32,
        invite.1.len() == 8,
    ensures
        spec_decode::<Invite>(Some(Invite::spec_write(invite))) == Ok::<Option<<Invite as View>::V>, ReadError>(
            Some(invite),
        ),
{
    lemma_serialize_deserialize::<Invite>(invite);
}

/// After a message is posted to a channel whose count was `count`, the
/// count stored reads back as one more.
pub proof fn lemma_posted_count_read(count: u64)
    requires
        count < u64::MAX,
    ensures
        spec_decode::<MessageMetaDataValue>(Some(MessageMetaDataValue::spec_write((count + 1) as u64)))
            == Ok::<Option<u64>, ReadError>(Some((count + 1) as u64)),
{
    lemma_serialize_deserialize::<MessageMetaDataValue>((count + 1) as u64);
}

} // verus!
