//! The local store's requests: each opens a transaction, reads what it
//! needs, decides with the functions of [`crate::db`], writes, and commits.
//!
//! Every request is first stated of a transaction (`Batch`), over the map of
//! records it sees; `DSContext` opens the transaction, hands it the time or a
//! random number where the request needs one, and commits.

use crate::db::{
    StoreOp, StoreOpModel, channel_record, channel_record_key, channels_prefix, decode_stored, decode_values,
    decoded_values, good_prefix_len, joined_replies, lemma_good_prefix_len, lemma_good_prefix_len_bound, lemma_good_prefix_len_le,
    message_batch_prefix, message_entry_ok, message_metadata_key, message_of, messages_batch, messages_from_entries, messages_of,
    modify_server_ops, post_message_ops, profile_key, profile_op, server_entry_ok, server_info_reply, server_key,
    server_replies, spec_channel_record_key, spec_channels_prefix, spec_decode, spec_message_batch_prefix,
    spec_server_key, stored_auth_token_op, batch_count, batch_read, stored_count, stored_profile, value_ok, ws_token_key, ws_token_op,
    ws_token_present, member_hash_key, stored_member, member_metadata_key, update_metadata_ops, save_member_ops,
    spec_save_member_ops, is_privileged, new_member, members_prefix, member_impls_from_entries, member_pubkeys,
    members_with_profiles, member_entry_ok, member_of, server_record, server_roles, default_channel_record,
    invites_prefix, invite_id_key, delete_invite_ops, spec_invite_id_key, spec_invite_key, spec_invite_value, usable_invite,
    join_info_reply, accept_invite_op, accepted_server_key, spec_challenge_key, spec_auth_token_key, challenge_key,
    challenge_matches, create_challenge, create_token, token_text, auth_token_key, token_check, roles_check, expired,
    expired_keys_of, expired_token_keys, auth_entry_ok, read_value, new_server_id, new_channel_record, create_invite,
};
use crate::sys::{elapsed, home_dir, now_millis};
use vstd::string::StrSliceExecFns;
use crate::error::{Error, ErrorKind, is_read_error};
use crate::kv::{
    Batch, Store, apply_ops, batch_contents, committed, has_prefix, is_listing, is_lmdb_error, lemma_listing_unique, listing,
    lookup,
};
use crate::ser::{ReadError, Ser, deserialize_default, lemma_serialize_deserialize, views};
use crate::store::{
    AuthToken, Channel, ChannelKey, MESSAGE_BATCH_SIZE, Message, MessageKeyImpl, MessageMetaDataKey,
    MessageMetaDataValue, MessageModel, MessageValueImpl, Profile, ProfileKey, SERVER_PREFIX,
    STORED_AUTH_TOKEN_PREFIX, ServerInfo, ServerInfoReply, WSAuthToken, MEMBER_BATCH_SIZE, MemberMetaDataValue,
    MemberKeyHashImpl, MemberValueImpl, MemberImpl, Member, AuthBatchLookupKeyImpl, MemberBatchLookupKeyImpl,
    MemberMetaDataKey, AUTH_FLAG_MEMBER, AUTH_FLAG_OWNER, INVITE_PREFIX, JoinInfoReply, AuthInfo, Challenge,
    TOKEN_PREFIX, MemberKeyIttImpl, MemberKeyAuthImpl, MEMBER_HASH_PREFIX, MEMBER_ITT_PREFIX, MEMBER_AUTH_PREFIX,
    INVITE_ID_PREFIX, MEMBER_META_DATA_PREFIX, PROFILE_PREFIX,
};
use crate::encoding::decimal;
use crate::types::{Invite, ProfileData, Pubkey, SerString, ServerId, lemma_pubkey_len, lemma_server_id_len};
use std::sync::Arc;
use vstd::prelude::*;

verus! {

/// The store of one concord instance.
pub struct DSContext {
    store: Store,
}

impl DSContext {
    /// The store kept in the LMDB environment `env`.
    pub fn new(env: Arc<lmdb_zero::Environment>) -> (res: Result<DSContext, Error>)
        ensures
            res matches Err(e) ==> is_lmdb_error(e),
    {
        let store = Store::open(env)?;
        Ok(DSContext { store })
    }
}

/// The server table, in key order.
pub open spec fn server_listing(m: Map<Seq<u8>, Seq<u8>>) -> Seq<(Seq<u8>, Seq<u8>)> {
    listing(m, seq![SERVER_PREFIX])
}

/// A server record that is read, or the first that cannot be, has a key too
/// short to hold a server identifier.
pub open spec fn server_keys_short(es: Seq<(Seq<u8>, Seq<u8>)>) -> bool {
    exists|i: int| 0 <= i < es.len() && i <= good_prefix_len(es, |e| server_entry_ok(e)) && #[trigger] es[i].0.len() < 9
}

/// The servers that have been joined, as listed in the server table `es`.
pub open spec fn servers_of(es: Seq<(Seq<u8>, Seq<u8>)>) -> Seq<(Seq<u8>, Seq<u8>, Seq<char>, u64)> {
    joined_replies(es.take(good_prefix_len(es, |e| server_entry_ok(e)) as int))
}

/// Whether a server record that is read has a key too short for it.
fn has_short_server_key(entries: &Vec<(Vec<u8>, Vec<u8>)>) -> (short: bool)
    ensures
        short == server_keys_short(views(entries@)),
{
    let ghost es = views(entries@);
    let ghost ok = |e: (Seq<u8>, Seq<u8>)| server_entry_ok(e);
    let mut i: usize = 0;
    while i < entries.len()
        invariant
            i <= entries@.len(),
            es == views(entries@),
            ok == (|e: (Seq<u8>, Seq<u8>)| server_entry_ok(e)),
            forall|j: int| 0 <= j < i ==> #[trigger] ok(es[j]) && es[j].0.len() >= 9,
        decreases entries@.len() - i,
    {
        assert(es[i as int] == (entries@[i as int].0@, entries@[i as int].1@));
        if entries[i].0.len() < 9 {
            proof {
                lemma_good_prefix_len_bound(es, ok, i as nat);
                assert(es[i as int].0.len() < 9);
            }
            return true;
        }
        match deserialize_default::<ServerInfo>(entries[i].1.as_slice()) {
            Err(_) => {
                proof {
                    lemma_good_prefix_len(es, ok, i as nat);
                    assert(!server_keys_short(es)) by {
                        assert forall|j: int| 0 <= j < es.len() && j <= good_prefix_len(es, ok) implies #[trigger] es[j].0.len()
                            >= 9 by {
                            if j < i {
                                assert(ok(es[j]));
                            }
                        }
                    }
                }
                return false;
            },
            Ok(_) => {},
        }
        i = i + 1;
    }
    proof {
        lemma_good_prefix_len(es, ok, i as nat);
        assert(!server_keys_short(es)) by {
            assert forall|j: int| 0 <= j < es.len() && j <= good_prefix_len(es, ok) implies #[trigger] es[j].0.len() >= 9 by {
                assert(ok(es[j]));
            }
        }
    }
    false
}

/// The error for a record that the store should not hold.
fn corrupted(what: &str) -> (e: Error)
    ensures
        e.inner is CorruptedData,
{
    Error { inner: ErrorKind::CorruptedData(what.to_owned()) }
}

impl Batch {
    /// The servers that have been joined, from the server table in key
    /// order; reading stops at the first record that cannot be read. Fails
    /// when a record read has a key too short to hold a server identifier.
    pub fn get_servers(&self) -> (res: Result<Vec<ServerInfoReply>, Error>)
        requires
            batch_contents(*self).dom().finite(),
        ensures
            get_servers_outcome(batch_contents(*self), res),
    {
        let prefix: Vec<u8> = vec![SERVER_PREFIX];
        assert(prefix@ =~= seq![SERVER_PREFIX]);
        let entries = self.entries_with_prefix(prefix.as_slice())?;
        if has_short_server_key(&entries) {
            return Err(corrupted("server key too short"));
        }
        let ghost es = views(entries@);
        assert forall|i: int|
            0 <= i < entries@.len() && i <= good_prefix_len(views(entries@), |e| server_entry_ok(e)) implies #[trigger] entries@[i].0@.len()
            >= 9 by {
            assert(es[i] == (entries@[i].0@, entries@[i].1@));
            if es[i].0.len() < 9 {
                assert(server_keys_short(es));
            }
        }
        Ok(server_replies(&entries))
    }

    /// The server stored under its identifier and key, as returned to
    /// callers.
    pub fn get_server_info(&self, server_id: [u8; 8], server_pubkey: [u8; 32]) -> (res: Result<
        Option<ServerInfoReply>,
        Error,
    >)
        ensures
            get_server_info_outcome(batch_contents(*self), server_id, server_pubkey, res),
    {
        let key = server_key(&server_id, &server_pubkey);
        let stored = self.get(key.as_slice())?;
        server_info_reply(server_id, &stored)
    }

    /// Renames a server: its record gets the new name and the next sequence
    /// number. Nothing changes when no such server is stored; fails when its
    /// sequence number is the greatest there is.
    pub fn modify_server(&mut self, server_id: [u8; 8], server_pubkey: [u8; 32], name: String) -> (res: Result<
        (),
        Error,
    >)
        requires
            batch_contents(*old(self)).dom().finite(),
        ensures
            modify_server_outcome(batch_contents(*old(self)), batch_contents(*final(self)), server_id, server_pubkey, name, res),
    {
        let key = server_key(&server_id, &server_pubkey);
        let stored = self.get(key.as_slice())?;
        match decode_stored::<ServerInfo>(&stored)? {
            Some(info) => {
                if info.seqno == 0xffff_ffff_ffff_ffff {
                    return Err(Error { inner: ErrorKind::CountError("server sequence number overflow".to_owned()) });
                }
            },
            None => {},
        }
        let ops = modify_server_ops(key, &stored, name)?;
        let ghost m = batch_contents(*self);
        self.apply(&ops)?;
        proof {
            reveal_with_fuel(apply_ops, 2);
        }
        Ok(())
    }

    /// Removes a server's record.
    pub fn delete_server(&mut self, server_id: [u8; 8], server_pubkey: [u8; 32]) -> (res: Result<(), Error>)
        requires
            batch_contents(*old(self)).dom().finite(),
        ensures
            delete_server_outcome(batch_contents(*old(self)), batch_contents(*final(self)), server_id, server_pubkey, res),
    {
        let key = server_key(&server_id, &server_pubkey);
        self.delete(key.as_slice())?;
        proof {
            assert(batch_contents(*self).dom() =~= batch_contents(*old(self)).dom().remove(
                spec_server_key(server_id@, server_pubkey@),
            ));
        }
        Ok(())
    }
}

/// The changes that posting `message` makes to a channel whose count of
/// messages is `count`: the count goes up by one, and the message is stored
/// in the batch that its number falls in.
pub open spec fn post_message_changes(message: MessageModel, count: u64) -> Seq<StoreOpModel> {
    seq![
        StoreOpModel::Put(
            MessageMetaDataKey::spec_write((message.server_pubkey, message.server_id, message.channel_id)),
            MessageMetaDataValue::spec_write((count + 1) as u64),
        ),
        StoreOpModel::Put(
            MessageKeyImpl::spec_write((
                message.server_pubkey,
                message.server_id,
                message.channel_id,
                count / MESSAGE_BATCH_SIZE,
                message.timestamp,
                message.user_pubkey,
                message.nonce,
            )),
            MessageValueImpl::spec_write((message.payload, message.signature, message.message_type)),
        ),
    ]
}

/// What the count of messages of a channel reads as.
pub open spec fn message_count_of(m: Map<Seq<u8>, Seq<u8>>, server_pubkey: Seq<u8>, server_id: Seq<u8>, channel_id: u64) -> Result<
    Option<u64>,
    ReadError,
> {
    spec_decode::<MessageMetaDataValue>(lookup(m, MessageMetaDataKey::spec_write((server_pubkey, server_id, channel_id))))
}

/// The messages of the batch `n` of a channel whose count reads as `count`:
/// the entries of the batch, read in key order until one cannot be, and
/// numbered from the first number of the batch.
pub open spec fn batch_messages(m: Map<Seq<u8>, Seq<u8>>, server_pubkey: Seq<u8>, server_id: Seq<u8>, channel_id: u64, n: u64) -> Seq<
    MessageModel,
> {
    let es = listing(m, spec_message_batch_prefix(server_pubkey, server_id, channel_id, n));
    messages_of(es.take(good_prefix_len(es, |e| message_entry_ok(e)) as int), (n * 100) as nat)
}

/// The entries of batch `n` of a channel are too many to be numbered from
/// the batch's first number within 64 bits.
pub open spec fn message_numbers_overflow(m: Map<Seq<u8>, Seq<u8>>, server_pubkey: Seq<u8>, server_id: Seq<u8>, channel_id: u64, n: u64) -> bool {
    n * 100 + listing(m, spec_message_batch_prefix(server_pubkey, server_id, channel_id, n)).len() > u64::MAX
}

/// The profile stored for a user on a server, as it reads.
pub open spec fn profile_of(m: Map<Seq<u8>, Seq<u8>>, user_pubkey: Seq<u8>, server_pubkey: Seq<u8>, server_id: Seq<u8>) -> Result<
    Option<(Seq<char>, Seq<char>)>,
    ReadError,
> {
    spec_decode::<ProfileData>(lookup(m, ProfileKey::spec_write((user_pubkey, server_pubkey, server_id))))
}

impl Batch {
    /// The channels of a server, from the channel table in key order;
    /// reading stops at the first record that cannot be read.
    pub fn get_channels(&self, server_pubkey: [u8; 32], server_id: [u8; 8]) -> (res: Result<Vec<Channel>, Error>)
        requires
            batch_contents(*self).dom().finite(),
        ensures
            get_channels_outcome(batch_contents(*self), server_pubkey, server_id, res),
    {
        let prefix = channels_prefix(&server_pubkey, &server_id);
        let entries = self.entries_with_prefix(prefix.as_slice())?;
        Ok(decode_values::<Channel>(&entries))
    }

    /// Stores a channel under its key, replacing what was there.
    pub fn set_channel(&mut self, channel_key: &ChannelKey, channel: &Channel) -> (res: Result<(), Error>)
        requires
            batch_contents(*old(self)).dom().finite(),
        ensures
            set_channel_outcome(batch_contents(*old(self)), batch_contents(*final(self)), *channel_key, *channel, res),
    {
        let mut ops: Vec<StoreOp> = Vec::new();
        ops.push(channel_record(channel_key, channel));
        self.apply(&ops)?;
        proof {
            reveal_with_fuel(apply_ops, 2);
        }
        Ok(())
    }

    /// Removes a channel; a failure to remove it is ignored.
    pub fn delete_channel(&mut self, channel_key: &ChannelKey) -> (res: Result<(), Error>)
        ensures
            res is Ok,
    {
        let key = channel_record_key(channel_key);
        let _ = self.delete(key.as_slice());
        Ok(())
    }

    /// Posts a message: the channel's count goes up by one and the message is
    /// stored in the batch its number falls in. Fails, changing nothing, when
    /// the count is the greatest there is.
    pub fn post_message(&mut self, message: Message) -> (res: Result<(), Error>)
        requires
            batch_contents(*old(self)).dom().finite(),
        ensures
            post_message_outcome(batch_contents(*old(self)), batch_contents(*final(self)), message, res),
    {
        let ghost mm = message@;
        let key = message_metadata_key(message.server_pubkey, message.server_id, message.channel_id);
        let stored = self.get(key.as_slice())?;
        match decode_stored::<MessageMetaDataValue>(&stored)? {
            Some(v) => {
                if v.message_count == 0xffff_ffff_ffff_ffff {
                    return Err(Error { inner: ErrorKind::CountError("message count overflow".to_owned()) });
                }
            },
            None => {},
        }
        let ops = post_message_ops(message, &stored)?;
        self.apply(&ops)?;
        Ok(())
    }

    /// The number of batches of messages that a channel has (the last may be
    /// partly filled), and the messages of the batch asked for or, past the
    /// last, of the last; numbered from
    /// the first number of that batch. Nothing when the channel has no
    /// count. Fails when the messages' numbers would pass the greatest
    /// number there is.
    pub fn get_messages(&self, server_pubkey: [u8; 32], server_id: [u8; 8], channel_id: u64, batch_num: u64) -> (res:
        Result<(u64, Vec<Message>), Error>)
        requires
            batch_contents(*self).dom().finite(),
        ensures
            get_messages_outcome(batch_contents(*self), server_pubkey, server_id, channel_id, batch_num, res),
    {
        let key = message_metadata_key(server_pubkey, server_id, channel_id);
        let stored = self.get(key.as_slice())?;
        match messages_batch(&stored, batch_num)? {
            None => Ok((0, Vec::new())),
            Some((batches, n)) => {
                let prefix = message_batch_prefix(&server_pubkey, &server_id, channel_id, n);
                let entries = self.entries_with_prefix(prefix.as_slice())?;
                let ghost es = views(entries@);
                proof {
                    assert(n <= u64::MAX / 100);
                    assert(n * 100 <= u64::MAX) by (nonlinear_arith)
                        requires
                            n <= u64::MAX / 100,
                    ;
                }
                let first = n * 100;
                if entries.len() as u64 > 0xffff_ffff_ffff_ffff - first {
                    return Err(Error { inner: ErrorKind::CountError("message number overflow".to_owned()) });
                }
                proof {
                    lemma_good_prefix_len_le(es, |e| message_entry_ok(e));
                }
                let msgs = messages_from_entries(&entries, first);
                Ok((batches, msgs))
            },
        }
    }

    /// The profiles stored for the users on a server, in order.
    pub fn get_profiles(&self, user_pubkeys: &Vec<Pubkey>, server_pubkey: Pubkey, server_id: ServerId) -> (res: Result<
        Vec<Option<Profile>>,
        Error,
    >)
        ensures
            get_profiles_outcome(batch_contents(*self), user_pubkeys@, server_pubkey, server_id, res),
    {
        let mut ret: Vec<Option<Profile>> = Vec::new();
        let mut i: usize = 0;
        while i < user_pubkeys.len()
            invariant
                i <= user_pubkeys@.len(),
                ret@.len() == i,
                forall|j: int|
                    0 <= j < i ==> match profile_of(batch_contents(*self), #[trigger] user_pubkeys@[j]@, server_pubkey@, server_id@) {
                        Ok(None) => ret@[j] is None,
                        Ok(Some(d)) => ret@[j] matches Some(p) && p@ == (user_pubkeys@[j]@, server_pubkey@, server_id@, d),
                        Err(_) => false,
                    },
            decreases user_pubkeys@.len() - i,
        {
            let user_pubkey = user_pubkeys[i];
            let key = profile_key(user_pubkey, server_pubkey, server_id);
            let stored = self.get(key.as_slice())?;
            let p = match stored_profile(user_pubkey, server_pubkey, server_id, &stored) {
                Ok(p) => p,
                Err(e) => {
                    assert(profile_of(batch_contents(*self), user_pubkeys@[i as int]@, server_pubkey@, server_id@)
                        matches Err(de) && is_read_error(de, e.inner));
                    return Err(e);
                },
            };
            ret.push(p);
            i = i + 1;
        }
        Ok(ret)
    }

    /// Stores a user's profile data on a server, replacing what was there.
    pub fn set_profile(&mut self, user_pubkey: Pubkey, server_pubkey: Pubkey, server_id: ServerId, profile_data: &ProfileData) -> (res:
        Result<(), Error>)
        requires
            batch_contents(*old(self)).dom().finite(),
        ensures
            set_profile_outcome(batch_contents(*old(self)), batch_contents(*final(self)), user_pubkey, server_pubkey, server_id, *profile_data, res),
    {
        let mut ops: Vec<StoreOp> = Vec::new();
        ops.push(profile_op(user_pubkey, server_pubkey, server_id, profile_data));
        self.apply(&ops)?;
        proof {
            reveal_with_fuel(apply_ops, 2);
        }
        Ok(())
    }

    /// Stores the token that a server handed out, replacing what was there.
    pub fn save_auth_token(&mut self, server_pubkey: [u8; 32], auth_token: u128) -> (res: Result<(), Error>)
        requires
            batch_contents(*old(self)).dom().finite(),
        ensures
            save_auth_token_outcome(batch_contents(*old(self)), batch_contents(*final(self)), server_pubkey, auth_token, res),
    {
        let mut ops: Vec<StoreOp> = Vec::new();
        ops.push(stored_auth_token_op(&server_pubkey, auth_token));
        self.apply(&ops)?;
        proof {
            reveal_with_fuel(apply_ops, 2);
        }
        Ok(())
    }

    /// Stores a websocket token.
    pub fn save_ws_auth_token(&mut self, token: u128) -> (res: Result<(), Error>)
        requires
            batch_contents(*old(self)).dom().finite(),
        ensures
            save_ws_auth_token_outcome(batch_contents(*old(self)), batch_contents(*final(self)), token, res),
    {
        let mut ops: Vec<StoreOp> = Vec::new();
        ops.push(ws_token_op(token));
        self.apply(&ops)?;
        proof {
            reveal_with_fuel(apply_ops, 2);
        }
        Ok(())
    }

    /// Whether a websocket token is stored.
    pub fn check_ws_auth_token(&self, token: u128) -> (res: Result<bool, Error>)
        ensures
            check_ws_auth_token_outcome(batch_contents(*self), token, res),
    {
        let key = ws_token_key(token);
        let stored = self.get(key.as_slice())?;
        ws_token_present(&stored)
    }
}

/// What the member count of a server reads as.
pub open spec fn member_count_of(m: Map<Seq<u8>, Seq<u8>>, server_pubkey: Seq<u8>, server_id: Seq<u8>) -> Result<
    Option<u64>,
    ReadError,
> {
    spec_decode::<MemberMetaDataValue>(lookup(m, MemberMetaDataKey::spec_write((server_pubkey, server_id))))
}

/// What the record of a member, found by key, reads as: its roles, join
/// time, time of change and batch.
pub open spec fn member_value_of(m: Map<Seq<u8>, Seq<u8>>, user_pubkey: Seq<u8>, server_id: Seq<u8>, server_pubkey: Seq<u8>) -> Result<
    Option<(u128, u64, u64, u64)>,
    ReadError,
> {
    spec_decode::<MemberValueImpl>(lookup(m, MemberKeyHashImpl::spec_write((server_pubkey, server_id, user_pubkey))))
}

/// The records after a member is saved into a server whose member count
/// was `c`: the count goes up by one and the member's records are written
/// in the batch that its number falls in.
pub open spec fn member_saved(
    m: Map<Seq<u8>, Seq<u8>>,
    server_pubkey: Seq<u8>,
    server_id: Seq<u8>,
    user_pubkey: Seq<u8>,
    roles: u128,
    join_time: u64,
    modified_time: u64,
    c: Option<u64>,
) -> Map<Seq<u8>, Seq<u8>> {
    let batch_num = match c {
        Some(n) => n / MEMBER_BATCH_SIZE,
        None => 0,
    };
    let count = match c {
        Some(n) => n + 1,
        None => 1,
    };
    apply_ops(
        m.insert(MemberMetaDataKey::spec_write((server_pubkey, server_id)), MemberMetaDataValue::spec_write(count as u64)),
        spec_save_member_ops(server_pubkey, server_id, user_pubkey, roles, join_time, modified_time, batch_num),
    )
}

/// The records after `user_pubkey` is made a member of a server with
/// `roles`, joined and changed at the given times, unless it is a member
/// already; nothing when a record needed cannot be read or the member count
/// is the greatest there is.
pub open spec fn member_set(
    m: Map<Seq<u8>, Seq<u8>>,
    server_pubkey: Seq<u8>,
    server_id: Seq<u8>,
    user_pubkey: Seq<u8>,
    roles: u128,
    join_time: u64,
    modified_time: u64,
) -> Option<Map<Seq<u8>, Seq<u8>>> {
    match member_value_of(m, user_pubkey, server_id, server_pubkey) {
        Err(_) => None,
        Ok(Some(_)) => Some(m),
        Ok(None) => match member_count_of(m, server_pubkey, server_id) {
            Err(_) => None,
            Ok(c) => if c matches Some(n) && n == u64::MAX {
                None
            } else {
                Some(member_saved(m, server_pubkey, server_id, user_pubkey, roles, join_time, modified_time, c))
            },
        },
    }
}

impl Batch {
    /// The member stored by key, if any.
    pub fn get_member(&self, user_pubkey: Pubkey, server_id: ServerId, server_pubkey: Pubkey) -> (res: Result<
        Option<MemberImpl>,
        Error,
    >)
        ensures
            ({
                let d = member_value_of(batch_contents(*self), user_pubkey@, server_id@, server_pubkey@);
                match res {
                    Ok(r) => match d {
                        Ok(None) => r is None,
                        Ok(Some(v)) => r matches Some(x) && x@ == (user_pubkey@, server_pubkey@, server_id@, v.0, v.3, v.1, v.2),
                        Err(_) => false,
                    },
                    Err(e) => is_lmdb_error(e) || (d matches Err(de) && is_read_error(de, e.inner)),
                }
            }),
    {
        let key = member_hash_key(user_pubkey, server_id, server_pubkey);
        let stored = self.get(key.as_slice())?;
        stored_member(user_pubkey, server_id, server_pubkey, &stored)
    }

    /// Counts one more member of a server; returns the batch that the new
    /// member falls in.
    fn update_metadata(&mut self, server_id: ServerId, server_pubkey: Pubkey) -> (res: Result<u64, Error>)
        requires
            batch_contents(*old(self)).dom().finite(),
        ensures
            ({
                let m = batch_contents(*old(self));
                let c = member_count_of(m, server_pubkey@, server_id@);
                match res {
                    Ok(b) => batch_contents(*final(self)).dom().finite() && match c {
                        Ok(d) => !(d matches Some(n) && n == u64::MAX) && b == (match d {
                            Some(n) => n / MEMBER_BATCH_SIZE,
                            None => 0,
                        }) && batch_contents(*final(self)) == m.insert(
                            MemberMetaDataKey::spec_write((server_pubkey@, server_id@)),
                            MemberMetaDataValue::spec_write(
                                (match d {
                                    Some(n) => n + 1,
                                    None => 1,
                                }) as u64,
                            ),
                        ),
                        Err(_) => false,
                    },
                    Err(e) => is_lmdb_error(e) || (c matches Err(de) && is_read_error(de, e.inner)) || (
                    e.inner is CountError && (c matches Ok(Some(n)) && n == u64::MAX)),
                }
            }),
    {
        let key = member_metadata_key(server_pubkey, server_id);
        let stored = self.get(key.as_slice())?;
        match decode_stored::<MemberMetaDataValue>(&stored)? {
            Some(v) => {
                if v.member_count == 0xffff_ffff_ffff_ffff {
                    return Err(Error { inner: ErrorKind::CountError("member count overflow".to_owned()) });
                }
            },
            None => {},
        }
        let (batch_num, op) = update_metadata_ops(key, &stored)?;
        let mut ops: Vec<StoreOp> = Vec::new();
        ops.push(op);
        self.apply(&ops)?;
        proof {
            reveal_with_fuel(apply_ops, 2);
        }
        Ok(batch_num)
    }

    /// Saves a member into a server: counts it, and writes its records in
    /// the batch it falls in.
    fn save_member(&mut self, server_pubkey: Pubkey, server_id: ServerId, member: &Member) -> (res: Result<(), Error>)
        requires
            batch_contents(*old(self)).dom().finite(),
        ensures
            ({
                let m = batch_contents(*old(self));
                let c = member_count_of(m, server_pubkey@, server_id@);
                match res {
                    Ok(()) => batch_contents(*final(self)).dom().finite() && match c {
                        Ok(d) => !(d matches Some(n) && n == u64::MAX) && batch_contents(*final(self)) == member_saved(
                            m,
                            server_pubkey@,
                            server_id@,
                            member.user_pubkey@,
                            member.roles,
                            member.join_time,
                            member.modified_time,
                            d,
                        ),
                        Err(_) => false,
                    },
                    Err(e) => is_lmdb_error(e) || (c matches Err(de) && is_read_error(de, e.inner)) || (
                    e.inner is CountError && (c matches Ok(Some(n)) && n == u64::MAX)),
                }
            }),
    {
        let batch_num = self.update_metadata(server_id, server_pubkey)?;
        let ops = save_member_ops(server_pubkey, server_id, member, batch_num);
        self.apply(&ops)?;
        Ok(())
    }

    /// Makes `user_pubkey` a member of a server with `roles`, joined and
    /// changed at the given times or else at `time_now`, unless it is a
    /// member already; returns the member, as it was stored if it was.
    pub fn set_member(
        &mut self,
        user_pubkey: Pubkey,
        server_id: ServerId,
        server_pubkey: Pubkey,
        roles: u128,
        modified_time: Option<u64>,
        join_time: Option<u64>,
        time_now: u64,
    ) -> (res: Result<Member, Error>)
        requires
            batch_contents(*old(self)).dom().finite(),
        ensures
            ({
                let m = batch_contents(*old(self));
                let join = match join_time {
                    Some(t) => t,
                    None => time_now,
                };
                let modified = match modified_time {
                    Some(t) => t,
                    None => time_now,
                };
                let after = member_set(m, server_pubkey@, server_id@, user_pubkey@, roles, join, modified);
                match res {
                    Ok(r) => batch_contents(*final(self)).dom().finite() && after == Some(batch_contents(*final(self)))
                        && r@ == match member_value_of(m, user_pubkey@, server_id@, server_pubkey@) {
                        Ok(Some(v)) => (user_pubkey@, None::<(Seq<char>, Seq<char>)>, v.0, v.1, v.2),
                        _ => (user_pubkey@, None::<(Seq<char>, Seq<char>)>, roles, join, modified),
                    },
                    Err(e) => is_lmdb_error(e) || (after is None && (e.inner is CountError || exists|de: ReadError|
                        is_read_error(de, e.inner))),
                }
            }),
    {
        match self.get_member(user_pubkey, server_id, server_pubkey) {
            Err(e) => {
                proof {
                    if !is_lmdb_error(e) {
                        let de = choose|de: ReadError|
                            member_value_of(batch_contents(*self), user_pubkey@, server_id@, server_pubkey@)
                                == Err::<Option<(u128, u64, u64, u64)>, ReadError>(de) && is_read_error(de, e.inner);
                    }
                }
                Err(e)
            },
            Ok(Some(existing)) => Ok(Member::from(existing)),
            Ok(None) => {
                let member = new_member(user_pubkey, roles, modified_time, join_time, time_now);
                match self.save_member(server_pubkey, server_id, &member) {
                    Ok(()) => Ok(member),
                    Err(e) => {
                        proof {
                            let c = member_count_of(batch_contents(*old(self)), server_pubkey@, server_id@);
                            if !is_lmdb_error(e) && !(e.inner is CountError) {
                                let de = choose|de: ReadError| c == Err::<Option<u64>, ReadError>(de) && is_read_error(de, e.inner);
                            }
                        }
                        Err(e)
                    },
                }
            },
        }
    }

    /// The members of one batch of a server, each with its profile on the
    /// server: those with privileges (owners, moderators) when `auth` holds,
    /// else the plain members.
    /// Reading a table stops at its first record that cannot be read.
    pub fn get_members(&self, server_pubkey: [u8; 32], server_id: [u8; 8], batch_num: u64, auth: bool) -> (res: Result<
        Vec<Member>,
        Error,
    >)
        requires
            batch_contents(*self).dom().finite(),
        ensures
            get_members_outcome(batch_contents(*self), server_pubkey, server_id, batch_num, auth, res),
    {
        let prefix = members_prefix(server_pubkey, server_id, batch_num, auth);
        let entries = self.entries_with_prefix(prefix.as_slice())?;
        let impls = member_impls_from_entries(&entries, auth);
        let keys = member_pubkeys(&impls);
        let ghost iv = views(impls@);
        assert(iv == member_records(batch_contents(*self), server_pubkey@, server_id@, batch_num, auth));
        let profiles = match self.get_profiles(&keys, Pubkey::from_bytes(server_pubkey), ServerId::from_bytes(server_id)) {
            Ok(p) => p,
            Err(e) => {
                proof {
                    if !is_lmdb_error(e) {
                        let i = choose|i: int|
                            0 <= i < keys@.len() && (profile_of(batch_contents(*self), #[trigger] keys@[i]@, server_pubkey@, server_id@)
                                matches Err(de) && is_read_error(de, e.inner));
                        assert(keys@[i]@ == impls@[i].user_pubkey@);
                        assert(iv[i].0 == impls@[i].user_pubkey@);
                    }
                }
                return Err(e);
            },
        };
        let ghost ps = profiles@;
        let members = members_with_profiles(impls, profiles);
        proof {
            assert forall|i: int| 0 <= i < iv.len() implies match profile_of(
                batch_contents(*self),
                #[trigger] iv[i].0,
                server_pubkey@,
                server_id@,
            ) {
                Ok(p) => members@[i]@ == (
                    iv[i].0,
                    match p {
                        Some(d) => Some(d),
                        None => None,
                    },
                    iv[i].3,
                    iv[i].5,
                    iv[i].6,
                ),
                Err(_) => false,
            } by {
                assert(keys@[i]@ == iv[i].0);
            }
            assert(views(members@).len() == iv.len());
            assert forall|i: int| 0 <= i < iv.len() implies match profile_of(
                batch_contents(*self),
                #[trigger] iv[i].0,
                server_pubkey@,
                server_id@,
            ) {
                Ok(p) => views(members@)[i] == (
                    iv[i].0,
                    match p {
                        Some(d) => Some(d),
                        None => None,
                    },
                    iv[i].3,
                    iv[i].5,
                    iv[i].6,
                ),
                Err(_) => false,
            } by {
                assert(views(members@)[i] == members@[i]@);
            }
        }
        Ok(members)
    }
}

/// What `Batch::get_servers` gives on the records `m`.
pub open spec fn get_servers_outcome(m: Map<Seq<u8>, Seq<u8>>, res: Result<Vec<ServerInfoReply>, Error>) -> bool {
    match res {
        Ok(r) => !server_keys_short(server_listing(m)) && views(r@) == servers_of(
            server_listing(m),
        ),
        Err(e) => is_lmdb_error(e) || (e.inner is CorruptedData && server_keys_short(
            server_listing(m),
        )),
    }
}

/// What `Batch::get_server_info` gives on the records `m`.
pub open spec fn get_server_info_outcome(m: Map<Seq<u8>, Seq<u8>>, server_id: [u8; 8], server_pubkey: [u8; 32], res: Result<Option<ServerInfoReply>, Error>) -> bool {
    ({
        let d = spec_decode::<ServerInfo>(lookup(m, spec_server_key(server_id@, server_pubkey@)));
        match res {
            Ok(r) => match d {
                Ok(None) => r is None,
                Ok(Some(v)) => r matches Some(x) && x@ == (v.0, server_id@, v.1, v.3),
                Err(_) => false,
            },
            Err(e) => is_lmdb_error(e) || (d matches Err(de) && is_read_error(de, e.inner)),
        }
    })
}

/// What `Batch::get_messages` gives on the records `m`.
pub open spec fn get_messages_outcome(m: Map<Seq<u8>, Seq<u8>>, server_pubkey: [u8; 32], server_id: [u8; 8], channel_id: u64, batch_num: u64, res: Result<(u64, Vec<Message>), Error>) -> bool {
    let c = message_count_of(m, server_pubkey@, server_id@, channel_id);
    match res {
        Ok((batches, r)) => match c {
            Ok(None) => batches == 0 && r@.len() == 0,
            Ok(Some(count)) => {
                let n = batch_read(count, batch_num);
                &&& batches == batch_count(count)
                &&& !message_numbers_overflow(m, server_pubkey@, server_id@, channel_id, n)
                &&& views(r@) == batch_messages(m, server_pubkey@, server_id@, channel_id, n)
            },
            Err(_) => false,
        },
        Err(e) => is_lmdb_error(e) || (c matches Err(de) && is_read_error(de, e.inner)) || (e.inner is CountError
            && (c matches Ok(Some(count)) && message_numbers_overflow(
            m,
            server_pubkey@,
            server_id@,
            channel_id,
            batch_read(count, batch_num),
        ))),
    }
}

/// What `Batch::get_channels` gives on the records `m`.
pub open spec fn get_channels_outcome(m: Map<Seq<u8>, Seq<u8>>, server_pubkey: [u8; 32], server_id: [u8; 8], res: Result<Vec<Channel>, Error>) -> bool {
    ({
        let es = listing(m, spec_channels_prefix(server_pubkey@, server_id@));
        match res {
            Ok(r) => views(r@) == decoded_values::<Channel>(es.take(good_prefix_len(es, |e| value_ok::<Channel>(e)) as int)),
            Err(e) => is_lmdb_error(e),
        }
    })
}

/// What `Batch::get_invites` gives on the records `m`.
pub open spec fn get_invites_outcome(m: Map<Seq<u8>, Seq<u8>>, inviter: Option<[u8; 32]>, server_id: [u8; 8], res: Result<Vec<Invite>, Error>) -> bool {
    ({
        let es = listing(m, seq![INVITE_PREFIX] + server_id@ + match inviter {
            Some(i) => i@,
            None => Seq::empty(),
        });
        match res {
            Ok(r) => views(r@) == decoded_values::<Invite>(es.take(good_prefix_len(es, |e| value_ok::<Invite>(e)) as int)),
            Err(e) => is_lmdb_error(e),
        }
    })
}

/// What `Batch::check_invite` gives on the records `m`.
pub open spec fn check_invite_outcome(m: Map<Seq<u8>, Seq<u8>>, invite_id: u128, server_pubkey: [u8; 32], res: Result<Option<JoinInfoReply>, Error>) -> bool {
    ({
        let m = m;
        let d = invite_of(m, invite_id);
        match res {
            Ok(r) => match d {
                Ok(None) => r is None,
                Ok(Some(v)) => if !usable(v) {
                    r is None
                } else {
                    match spec_decode::<ServerInfo>(lookup(m, spec_server_key(v.1, server_pubkey@))) {
                        Ok(None) => r is None,
                        Ok(Some(sv)) => r matches Some(x) && x@ == (sv.0, v.1, sv.1, v.0),
                        Err(_) => false,
                    }
                },
                Err(_) => false,
            },
            Err(e) => is_lmdb_error(e) || (d matches Err(de) && is_read_error(de, e.inner)) || (d matches Ok(
                Some(v),
            ) && usable(v) && (spec_decode::<ServerInfo>(lookup(m, spec_server_key(v.1, server_pubkey@))) matches Err(
                de,
            ) && is_read_error(de, e.inner))),
        }
    })
}

/// What `Batch::get_members` gives on the records `m`.
pub open spec fn get_members_outcome(m: Map<Seq<u8>, Seq<u8>>, server_pubkey: [u8; 32], server_id: [u8; 8], batch_num: u64, auth: bool, res: Result<Vec<Member>, Error>) -> bool {
    ({
        let m = m;
        let impls = member_records(m, server_pubkey@, server_id@, batch_num, auth);
        match res {
            Ok(r) => members_read(m, server_pubkey@, server_id@, batch_num, auth, views(r@)),
            Err(e) => is_lmdb_error(e) || exists|i: int|
                0 <= i < impls.len() && (profile_of(m, #[trigger] impls[i].0, server_pubkey@, server_id@) matches Err(
                    de,
                ) && is_read_error(de, e.inner)),
        }
    })
}

/// What `Batch::get_profiles` gives on the records `m`.
pub open spec fn get_profiles_outcome(m: Map<Seq<u8>, Seq<u8>>, user_pubkeys: Seq<Pubkey>, server_pubkey: Pubkey, server_id: ServerId, res: Result<Vec<Option<Profile>>, Error>) -> bool {
    match res {
        Ok(r) => r@.len() == user_pubkeys.len() && forall|i: int|
            0 <= i < user_pubkeys.len() ==> match profile_of(
                m,
                #[trigger] user_pubkeys[i]@,
                server_pubkey@,
                server_id@,
            ) {
                Ok(None) => r@[i] is None,
                Ok(Some(d)) => r@[i] matches Some(p) && p@ == (user_pubkeys[i]@, server_pubkey@, server_id@, d),
                Err(_) => false,
            },
        Err(e) => is_lmdb_error(e) || exists|i: int|
            0 <= i < user_pubkeys.len() && (profile_of(
                m,
                #[trigger] user_pubkeys[i]@,
                server_pubkey@,
                server_id@,
            ) matches Err(de) && is_read_error(de, e.inner)),
    }
}

/// What `Batch::check_ws_auth_token` gives on the records `m`.
pub open spec fn check_ws_auth_token_outcome(m: Map<Seq<u8>, Seq<u8>>, token: u128, res: Result<bool, Error>) -> bool {
    ({
        let d = spec_decode::<u8>(lookup(m, WSAuthToken::spec_write(token)));
        match res {
            Ok(b) => d matches Ok(v) && b == v is Some,
            Err(e) => is_lmdb_error(e) || (d matches Err(de) && is_read_error(de, e.inner)),
        }
    })
}

/// What `Batch::modify_server` does to the records `before`, leaving `after`.
pub open spec fn modify_server_outcome(before: Map<Seq<u8>, Seq<u8>>, after: Map<Seq<u8>, Seq<u8>>, server_id: [u8; 8], server_pubkey: [u8; 32], name: String, res: Result<(), Error>) -> bool {
    ({
        let m = before;
        let key = spec_server_key(server_id@, server_pubkey@);
        let d = spec_decode::<ServerInfo>(lookup(m, key));
        match res {
            Ok(()) => after.dom().finite() && match d {
                Ok(None) => after == m,
                Ok(Some(v)) => v.3 < u64::MAX && after == m.insert(
                    key,
                    ServerInfo::spec_write((v.0, name@, v.2, (v.3 + 1) as u64)),
                ),
                Err(_) => false,
            },
            Err(e) => is_lmdb_error(e) || (d matches Err(de) && is_read_error(de, e.inner)) || (
            e.inner is CountError && (d matches Ok(Some(v)) && v.3 == u64::MAX)),
        }
    })
}

/// What `Batch::delete_server` does to the records `before`, leaving `after`.
pub open spec fn delete_server_outcome(before: Map<Seq<u8>, Seq<u8>>, after: Map<Seq<u8>, Seq<u8>>, server_id: [u8; 8], server_pubkey: [u8; 32], res: Result<(), Error>) -> bool {
    match res {
        Ok(()) => after == before.remove(
            spec_server_key(server_id@, server_pubkey@),
        ) && after.dom().finite(),
        Err(e) => is_lmdb_error(e),
    }
}

/// What `Batch::post_message` does to the records `before`, leaving `after`.
pub open spec fn post_message_outcome(before: Map<Seq<u8>, Seq<u8>>, after: Map<Seq<u8>, Seq<u8>>, message: Message, res: Result<(), Error>) -> bool {
    ({
        let m = before;
        let c = message_count_of(m, message.server_pubkey@, message.server_id@, message.channel_id);
        match res {
            Ok(()) => after.dom().finite() && match c {
                Ok(d) => stored_count(d) < u64::MAX && after == apply_ops(
                    m,
                    post_message_changes(message@, stored_count(d)),
                ),
                Err(_) => false,
            },
            Err(e) => is_lmdb_error(e) || (c matches Err(de) && is_read_error(de, e.inner)) || (
            e.inner is CountError && (c matches Ok(d) && stored_count(d) == u64::MAX)),
        }
    })
}

/// What `Batch::set_channel` does to the records `before`, leaving `after`.
pub open spec fn set_channel_outcome(before: Map<Seq<u8>, Seq<u8>>, after: Map<Seq<u8>, Seq<u8>>, channel_key: ChannelKey, channel: Channel, res: Result<(), Error>) -> bool {
    match res {
        Ok(()) => after.dom().finite() && after == before.insert(spec_channel_record_key(channel_key@), Channel::spec_write(channel@)),
        Err(e) => is_lmdb_error(e),
    }
}

/// What `Batch::add_server` does to the records `before`, leaving `after`.
pub open spec fn add_server_outcome(before: Map<Seq<u8>, Seq<u8>>, after: Map<Seq<u8>, Seq<u8>>, server_info: ServerInfo, server_id: [u8; 8], user_pubkey: [u8; 32], remote: bool, time_now: Option<u64>, res: Result<u64, Error>) -> bool {
    ({
        let m1 = before.insert(
            spec_server_key(server_id@, server_info.pubkey@),
            ServerInfo::spec_write(server_info@),
        );
        let roles = if remote {
            AUTH_FLAG_MEMBER
        } else {
            AUTH_FLAG_OWNER | AUTH_FLAG_MEMBER
        };
        match res {
            Ok(channel_id) => after.dom().finite() && match time_now {
                Some(t) => match member_set(m1, server_info.pubkey@, server_id@, user_pubkey@, roles, t, t) {
                    Some(m2) => after == m2.insert(
                        spec_channel_record_key((user_pubkey@, server_id@, channel_id)),
                        Channel::spec_write(("mainchat"@, "Welcome to mainchat!"@, channel_id)),
                    ),
                    None => false,
                },
                None => false,
            },
            Err(e) => is_lmdb_error(e) || (time_now is None && e.inner is SystemTimeError) || (time_now matches Some(
                t,
            ) && member_set(m1, server_info.pubkey@, server_id@, user_pubkey@, roles, t, t) is None),
        }
    })
}

/// What `Batch::delete_invite` does to the records `before`, leaving `after`.
pub open spec fn delete_invite_outcome(before: Map<Seq<u8>, Seq<u8>>, after: Map<Seq<u8>, Seq<u8>>, invite_id: u128, res: Result<(), Error>) -> bool {
    ({
        let m = before;
        let d = invite_of(m, invite_id);
        match res {
            Ok(()) => after.dom().finite() && match d {
                Ok(None) => after == m,
                Ok(Some(v)) => after == m.remove(spec_invite_id_key(invite_id)).remove(
                    spec_invite_key(v.1, v.0, invite_id),
                ),
                Err(_) => false,
            },
            Err(e) => is_lmdb_error(e) || (d matches Err(de) && is_read_error(de, e.inner)),
        }
    })
}

/// What `Batch::accept_invite` does to the records `before`, leaving `after`.
pub open spec fn accept_invite_outcome(before: Map<Seq<u8>, Seq<u8>>, after: Map<Seq<u8>, Seq<u8>>, invite_id: u128, user_pubkey: [u8; 32], server_pubkey: [u8; 32], user_name: String, user_bio: String, time_now: Option<u64>, res: Result<Option<ServerInfoReply>, Error>) -> bool {
    ({
        let m = before;
        let d = invite_of(m, invite_id);
        (res matches Err(e) && is_lmdb_error(e)) || match d {
            Ok(Some(v)) => if usable(v) {
                let m1 = m.insert(spec_invite_id_key(invite_id), Invite::spec_write(one_more_acceptance(v))).insert(
                    ProfileKey::spec_write((user_pubkey@, server_pubkey@, v.1)),
                    ProfileData::spec_write((user_name@, user_bio@)),
                );
                match res {
                    Ok(r) => after.dom().finite() && match time_now {
                        Some(t) => member_set(m1, server_pubkey@, v.1, user_pubkey@, AUTH_FLAG_MEMBER, t, t) == Some(
                            after,
                        ) && match spec_decode::<ServerInfo>(
                            lookup(after, seq![SERVER_PREFIX] + v.1),
                        ) {
                            Ok(None) => r is None,
                            Ok(Some(sv)) => r matches Some(x) && x@ == (sv.0, v.1, sv.1, sv.3),
                            Err(_) => false,
                        },
                        None => false,
                    },
                    Err(e) => is_lmdb_error(e) || (time_now is None && e.inner is SystemTimeError) || (time_now matches Some(
                        t,
                    ) && match member_set(m1, server_pubkey@, v.1, user_pubkey@, AUTH_FLAG_MEMBER, t, t) {
                        None => true,
                        Some(m2) => spec_decode::<ServerInfo>(lookup(m2, seq![SERVER_PREFIX] + v.1)) matches Err(de)
                            && is_read_error(de, e.inner),
                    }),
                }
            } else {
                res matches Ok(r) && r is None && after == m
            },
            Ok(None) => res matches Ok(r) && r is None && after == m,
            Err(de) => res matches Err(e) && (is_lmdb_error(e) || is_read_error(de, e.inner)),
        }
    })
}

/// What `Batch::create_auth_challenge` does to the records `before`, leaving `after`.
pub open spec fn create_auth_challenge_outcome(before: Map<Seq<u8>, Seq<u8>>, after: Map<Seq<u8>, Seq<u8>>, user_pubkey: [u8; 32], res: Result<[u8; 8], Error>) -> bool {
    match res {
        Ok(c) => after.dom().finite() && after == before.insert(spec_challenge_key(user_pubkey@), Challenge::spec_write(c@)),
        Err(e) => is_lmdb_error(e),
    }
}

/// What `Batch::validate_challenge` does to the records `before`, leaving `after`.
pub open spec fn validate_challenge_outcome(before: Map<Seq<u8>, Seq<u8>>, after: Map<Seq<u8>, Seq<u8>>, user_pubkey: [u8; 32], challenge: [u8; 8], expiration_millis: u128, creation_time: Option<u128>, res: Result<Option<String>, Error>) -> bool {
    ({
        let m = before;
        let d = spec_decode::<Challenge>(lookup(m, spec_challenge_key(user_pubkey@)));
        (res matches Err(e) && is_lmdb_error(e)) || match d {
            Ok(Some(c)) => if c == challenge@ {
                match creation_time {
                    Some(t) => match res {
                        Ok(Some(text)) => after.dom().finite() && exists|token: u128|
                            text@ == decimal(token as nat) && after == m.insert(
                                spec_auth_token_key(user_pubkey@, token),
                                AuthInfo::spec_write((t, t, expiration_millis)),
                            ),
                        _ => false,
                    },
                    None => res matches Err(e) && e.inner is SystemTimeError,
                }
            } else {
                res matches Ok(r) && r is None && after == m
            },
            Ok(None) => res matches Ok(r) && r is None && after == m,
            Err(de) => res matches Err(e) && is_read_error(de, e.inner),
        }
    })
}

/// What `Batch::purge_tokens` does to the records `before`, leaving `after`.
pub open spec fn purge_tokens_outcome(before: Map<Seq<u8>, Seq<u8>>, after: Map<Seq<u8>, Seq<u8>>, time_now: u128, res: Result<(), Error>) -> bool {
    ({
        let m = before;
        let es = readable_sessions(m);
        match res {
            Ok(()) => after == apply_ops(
                m,
                removals(expired_keys_of(time_now, es)),
            ) && after.dom().finite(),
            Err(e) => is_lmdb_error(e),
        }
    })
}

/// What `Batch::save_auth_token` does to the records `before`, leaving `after`.
pub open spec fn save_auth_token_outcome(before: Map<Seq<u8>, Seq<u8>>, after: Map<Seq<u8>, Seq<u8>>, server_pubkey: [u8; 32], auth_token: u128, res: Result<(), Error>) -> bool {
    match res {
        Ok(()) => after.dom().finite() && after == before.insert(seq![STORED_AUTH_TOKEN_PREFIX] + server_pubkey@, AuthToken::spec_write(auth_token)),
        Err(e) => is_lmdb_error(e),
    }
}

/// What `Batch::set_profile` does to the records `before`, leaving `after`.
pub open spec fn set_profile_outcome(before: Map<Seq<u8>, Seq<u8>>, after: Map<Seq<u8>, Seq<u8>>, user_pubkey: Pubkey, server_pubkey: Pubkey, server_id: ServerId, profile_data: ProfileData, res: Result<(), Error>) -> bool {
    match res {
        Ok(()) => after.dom().finite() && after == before.insert(
            ProfileKey::spec_write((user_pubkey@, server_pubkey@, server_id@)),
            ProfileData::spec_write(profile_data@),
        ),
        Err(e) => is_lmdb_error(e),
    }
}

/// What `Batch::save_ws_auth_token` does to the records `before`, leaving `after`.
pub open spec fn save_ws_auth_token_outcome(before: Map<Seq<u8>, Seq<u8>>, after: Map<Seq<u8>, Seq<u8>>, token: u128, res: Result<(), Error>) -> bool {
    match res {
        Ok(()) => after.dom().finite() && after == before.insert(WSAuthToken::spec_write(token), seq![0u8]),
        Err(e) => is_lmdb_error(e),
    }
}

/// The member records of one batch of a server, in key order: those with
/// roles when `auth` holds, else those without; reading stops at the first
/// record that cannot be read.
pub open spec fn member_records(
    m: Map<Seq<u8>, Seq<u8>>,
    server_pubkey: Seq<u8>,
    server_id: Seq<u8>,
    batch_num: u64,
    auth: bool,
) -> Seq<<MemberImpl as View>::V> {
    let es = listing(m, members_batch_prefix(server_pubkey, server_id, batch_num, auth));
    es.take(good_prefix_len(es, |e| member_entry_ok(e, auth)) as int).map_values(
        |e: (Seq<u8>, Seq<u8>)| member_of(e, auth),
    )
}

/// `r` is the batch of members read from the records `m`: each member
/// record in order, with the user's profile on the server.
pub open spec fn members_read(
    m: Map<Seq<u8>, Seq<u8>>,
    server_pubkey: Seq<u8>,
    server_id: Seq<u8>,
    batch_num: u64,
    auth: bool,
    r: Seq<<Member as View>::V>,
) -> bool {
    let impls = member_records(m, server_pubkey, server_id, batch_num, auth);
    r.len() == impls.len() && forall|i: int|
        0 <= i < impls.len() ==> match profile_of(m, #[trigger] impls[i].0, server_pubkey, server_id) {
            Ok(p) => r[i] == (
                impls[i].0,
                match p {
                    Some(d) => Some(d),
                    None => None,
                },
                impls[i].3,
                impls[i].5,
                impls[i].6,
            ),
            Err(_) => false,
        }
}

/// The start of the keys of one batch of members: of those with privileges when
/// `auth` holds, else of the plain members.
pub open spec fn members_batch_prefix(server_pubkey: Seq<u8>, server_id: Seq<u8>, batch_num: u64, auth: bool) -> Seq<u8> {
    if auth {
        AuthBatchLookupKeyImpl::spec_write((server_pubkey, server_id, batch_num))
    } else {
        MemberBatchLookupKeyImpl::spec_write((server_pubkey, server_id, batch_num))
    }
}

/// An invite after one more acceptance.
pub open spec fn one_more_acceptance(v: <Invite as View>::V) -> <Invite as View>::V {
    (v.0, v.1, v.2, (v.3 + 1) as u64, v.4, v.5)
}

/// What the invite stored under its identifier reads as.
pub open spec fn invite_of(m: Map<Seq<u8>, Seq<u8>>, invite_id: u128) -> Result<Option<<Invite as View>::V>, ReadError> {
    spec_decode::<Invite>(lookup(m, spec_invite_id_key(invite_id)))
}

/// The invite may be accepted: it has been accepted fewer times than it may
/// be.
pub open spec fn usable(v: <Invite as View>::V) -> bool {
    v.3 < v.4
}

impl Batch {
    /// Adds a server: its record, its owner or first member (with the roles
    /// of an owner unless the server is hosted elsewhere, joined at
    /// `time_now`), and its default channel under a random identifier,
    /// which is returned, keyed by that member.
    pub fn add_server(
        &mut self,
        server_info: &ServerInfo,
        server_id: [u8; 8],
        user_pubkey: [u8; 32],
        remote: bool,
        time_now: Option<u64>,
    ) -> (res: Result<u64, Error>)
        requires
            batch_contents(*old(self)).dom().finite(),
        ensures
            add_server_outcome(batch_contents(*old(self)), batch_contents(*final(self)), *server_info, server_id, user_pubkey, remote, time_now, res),
    {
        let mut ops: Vec<StoreOp> = Vec::new();
        ops.push(server_record(server_info, &server_id));
        self.apply(&ops)?;
        proof {
            reveal_with_fuel(apply_ops, 2);
        }
        let roles = server_roles(remote);
        let t = match time_now {
            Some(t) => t,
            None => {
                return Err(Error { inner: ErrorKind::SystemTimeError("clock is set before the Unix epoch".to_owned()) });
            },
        };
        let _member = self.set_member(
            Pubkey::from_bytes(user_pubkey),
            ServerId::from_bytes(server_id),
            Pubkey::from_bytes(server_info.pubkey),
            roles,
            None,
            None,
            t,
        )?;
        let (channel_id, op) = default_channel_record(user_pubkey, server_id);
        let mut ops2: Vec<StoreOp> = Vec::new();
        ops2.push(op);
        self.apply(&ops2)?;
        Ok(channel_id)
    }

    /// The invites to a server, or those that one inviter made, from the
    /// invite table in key order; reading stops at the first that cannot be
    /// read.
    pub fn get_invites(&self, inviter: Option<[u8; 32]>, server_id: [u8; 8]) -> (res: Result<Vec<Invite>, Error>)
        requires
            batch_contents(*self).dom().finite(),
        ensures
            get_invites_outcome(batch_contents(*self), inviter, server_id, res),
    {
        let prefix = invites_prefix(&server_id, &inviter);
        let entries = self.entries_with_prefix(prefix.as_slice())?;
        Ok(decode_values::<Invite>(&entries))
    }

    /// Deletes an invite under both of its keys; nothing changes when no
    /// such invite is stored.
    pub fn delete_invite(&mut self, invite_id: u128) -> (res: Result<(), Error>)
        requires
            batch_contents(*old(self)).dom().finite(),
        ensures
            delete_invite_outcome(batch_contents(*old(self)), batch_contents(*final(self)), invite_id, res),
    {
        let key = invite_id_key(invite_id);
        let stored = self.get(key.as_slice())?;
        let ops = delete_invite_ops(invite_id, &stored)?;
        self.apply(&ops)?;
        proof {
            reveal_with_fuel(apply_ops, 3);
        }
        Ok(())
    }

    /// What the holder of an invite learns of the server it is for: nothing
    /// when the invite is not stored or has been accepted as often as it may
    /// be, or when the server is not stored under the key `server_pubkey`.
    pub fn check_invite(&self, invite_id: u128, server_pubkey: [u8; 32]) -> (res: Result<Option<JoinInfoReply>, Error>)
        ensures
            check_invite_outcome(batch_contents(*self), invite_id, server_pubkey, res),
    {
        let key = invite_id_key(invite_id);
        let stored = self.get(key.as_slice())?;
        match usable_invite(&stored)? {
            None => Ok(None),
            Some(invite) => {
                let skey = server_key(&invite.server_id, &server_pubkey);
                let sstored = self.get(skey.as_slice())?;
                join_info_reply(&invite, &sstored)
            },
        }
    }

    /// Accepts an invite for `user_pubkey`: the invite counts one more
    /// acceptance, the user's profile on the server is stored, and the user
    /// becomes a member of it, joined at `time_now`. Returns the server as
    /// stored under its identifier alone, if it is. Nothing changes, and
    /// nothing is returned, when the invite is not stored or has been
    /// accepted as often as it may be.
    pub fn accept_invite(
        &mut self,
        invite_id: u128,
        user_pubkey: [u8; 32],
        server_pubkey: [u8; 32],
        user_name: String,
        user_bio: String,
        time_now: Option<u64>,
    ) -> (res: Result<Option<ServerInfoReply>, Error>)
        requires
            batch_contents(*old(self)).dom().finite(),
        ensures
            accept_invite_outcome(batch_contents(*old(self)), batch_contents(*final(self)), invite_id, user_pubkey, server_pubkey, user_name, user_bio, time_now, res),
    {
        let key = invite_id_key(invite_id);
        let stored = self.get(key.as_slice())?;
        let invite = match usable_invite(&stored)? {
            None => {
                return Ok(None);
            },
            Some(i) => i,
        };
        let server_id = invite.server_id;
        let (_accepted, op) = accept_invite_op(key, invite);
        let mut ops: Vec<StoreOp> = Vec::new();
        ops.push(op);
        let profile_data = ProfileData { user_name: SerString { data: user_name }, user_bio: SerString { data: user_bio } };
        ops.push(profile_op(Pubkey::from_bytes(user_pubkey), Pubkey::from_bytes(server_pubkey), ServerId::from_bytes(server_id), &profile_data));
        self.apply(&ops)?;
        proof {
            reveal_with_fuel(apply_ops, 3);
        }
        let t = match time_now {
            Some(t) => t,
            None => {
                return Err(Error { inner: ErrorKind::SystemTimeError("clock is set before the Unix epoch".to_owned()) });
            },
        };
        let _member = self.set_member(
            Pubkey::from_bytes(user_pubkey),
            ServerId::from_bytes(server_id),
            Pubkey::from_bytes(server_pubkey),
            AUTH_FLAG_MEMBER,
            None,
            None,
            t,
        )?;
        let skey = accepted_server_key(&server_id);
        let sstored = self.get(skey.as_slice())?;
        match decode_stored::<ServerInfo>(&sstored)? {
            None => Ok(None),
            Some(info) => Ok(Some(ServerInfoReply { pubkey: info.pubkey, name: info.name, server_id, seqno: info.seqno })),
        }
    }
}

/// What the session of a user under a token reads as.
pub open spec fn session_of(m: Map<Seq<u8>, Seq<u8>>, user_pubkey: Seq<u8>, token: u128) -> Result<
    Option<(u128, u128, u128)>,
    ReadError,
> {
    spec_decode::<AuthInfo>(lookup(m, spec_auth_token_key(user_pubkey, token)))
}

/// The session table, in key order, as far as it can be read.
pub open spec fn readable_sessions(m: Map<Seq<u8>, Seq<u8>>) -> Seq<(Seq<u8>, Seq<u8>)> {
    let es = listing(m, seq![TOKEN_PREFIX]);
    es.take(good_prefix_len(es, |e| auth_entry_ok(e)) as int)
}

/// The removal of each key of `keys`, in order.
pub open spec fn removals(keys: Seq<Seq<u8>>) -> Seq<StoreOpModel> {
    keys.map_values(|k: Seq<u8>| StoreOpModel::Delete(k))
}

/// Whether `res` is what checking a session in the records `m` may give:
/// the session of the user under `token` must be stored and not expired at
/// `time_now`, and the user a member of the server with one of
/// `requested_roles`. A clock that reads before the session was last used
/// makes the time passed wrap around, so the session has expired.
pub open spec fn authorization(
    m: Map<Seq<u8>, Seq<u8>>,
    user_pubkey: Seq<u8>,
    server_pubkey: Seq<u8>,
    token: u128,
    server_id: Seq<u8>,
    requested_roles: u128,
    time_now: Option<u128>,
    res: Result<(), Error>,
) -> bool {
    (res matches Err(e) && is_lmdb_error(e)) || match session_of(m, user_pubkey, token) {
        Ok(None) => res matches Err(f) && f.inner matches ErrorKind::NotAuthorized(msg) && msg@
            == "invalid token - not found"@,
        Ok(Some(a)) => match time_now {
            None => res matches Err(f) && f.inner is SystemTimeError,
            Some(t) => if expired(t, a.1, a.2) {
                res matches Err(f) && f.inner matches ErrorKind::NotAuthorized(msg) && msg@
                    == "invalid token - expired"@
            } else {
                match member_value_of(m, user_pubkey, server_id, server_pubkey) {
                    Ok(None) => res matches Err(f) && f.inner matches ErrorKind::NotAuthorized(msg) && msg@
                        == "not authorized. requested = "@ + decimal(requested_roles as nat) + ", level = "@
                        + decimal(0),
                    Ok(Some(v)) => if v.0 & requested_roles != 0 {
                        res is Ok
                    } else {
                        res matches Err(f) && f.inner matches ErrorKind::NotAuthorized(msg) && msg@
                            == "not authorized. requested = "@ + decimal(requested_roles as nat)
                            + ", actual = "@ + decimal(v.0 as nat)
                    },
                    Err(de) => res matches Err(f) && is_read_error(de, f.inner),
                }
            },
        },
        Err(de) => res matches Err(f) && is_read_error(de, f.inner),
    }
}

impl Batch {
    /// Stores a newly drawn random sign-in challenge for a user and returns
    /// it.
    pub fn create_auth_challenge(&mut self, user_pubkey: [u8; 32]) -> (res: Result<[u8; 8], Error>)
        requires
            batch_contents(*old(self)).dom().finite(),
        ensures
            create_auth_challenge_outcome(batch_contents(*old(self)), batch_contents(*final(self)), user_pubkey, res),
    {
        let (challenge, op) = create_challenge(&user_pubkey);
        let mut ops: Vec<StoreOp> = Vec::new();
        ops.push(op);
        self.apply(&ops)?;
        proof {
            reveal_with_fuel(apply_ops, 2);
        }
        Ok(challenge)
    }

    /// Checks a signed-in user's answer to its challenge: when it is the
    /// challenge stored for the user, a session beginning at `creation_time`
    /// and lasting while unused for `expiration_millis` is stored under a
    /// newly drawn random token, whose decimal text is returned. Nothing
    /// changes, and nothing is returned, when no challenge is stored for the
    /// user or another one is.
    pub fn validate_challenge(
        &mut self,
        user_pubkey: [u8; 32],
        challenge: [u8; 8],
        expiration_millis: u128,
        creation_time: Option<u128>,
    ) -> (res: Result<Option<String>, Error>)
        requires
            batch_contents(*old(self)).dom().finite(),
        ensures
            validate_challenge_outcome(batch_contents(*old(self)), batch_contents(*final(self)), user_pubkey, challenge, expiration_millis, creation_time, res),
    {
        let key = challenge_key(&user_pubkey);
        let stored = self.get(key.as_slice())?;
        if !challenge_matches(&stored, challenge)? {
            return Ok(None);
        }
        let t = match creation_time {
            Some(t) => t,
            None => {
                return Err(Error { inner: ErrorKind::SystemTimeError("clock is set before the Unix epoch".to_owned()) });
            },
        };
        let (token, op) = create_token(&user_pubkey, t, expiration_millis);
        let mut ops: Vec<StoreOp> = Vec::new();
        ops.push(op);
        self.apply(&ops)?;
        proof {
            reveal_with_fuel(apply_ops, 2);
        }
        Ok(Some(token_text(token)))
    }

    /// Whether the user may act on a server with one of `requested_roles`,
    /// signed in with `token`, at `time_now`: the session must be stored
    /// and not expired, and the user a member of the server with one of the
    /// roles.
    pub fn is_authorized(
        &self,
        user_pubkey: [u8; 32],
        server_pubkey: [u8; 32],
        token: u128,
        server_id: [u8; 8],
        requested_roles: u128,
        time_now: Option<u128>,
    ) -> (res: Result<(), Error>)
        ensures
            authorization(
                batch_contents(*self),
                user_pubkey@,
                server_pubkey@,
                token,
                server_id@,
                requested_roles,
                time_now,
                res,
            ),
    {
        let key = auth_token_key(&user_pubkey, token);
        let stored = self.get(key.as_slice())?;
        match decode_stored::<AuthInfo>(&stored)? {
            None => {
                return Err(Error { inner: ErrorKind::NotAuthorized("invalid token - not found".to_owned()) });
            },
            Some(a) => {
                let t = match time_now {
                    Some(t) => t,
                    None => {
                        return Err(
                            Error { inner: ErrorKind::SystemTimeError("clock is set before the Unix epoch".to_owned()) },
                        );
                    },
                };
                token_check(t, &stored)?;
            },
        }
        let member = self.get_member(Pubkey::from_bytes(user_pubkey), ServerId::from_bytes(server_id), Pubkey::from_bytes(server_pubkey))?;
        roles_check(&member, requested_roles)
    }

    /// Removes the sessions that have expired at `time_now`, from the
    /// session table in key order as far as it can be read.
    pub fn purge_tokens(&mut self, time_now: u128) -> (res: Result<(), Error>)
        requires
            batch_contents(*old(self)).dom().finite(),
        ensures
            purge_tokens_outcome(batch_contents(*old(self)), batch_contents(*final(self)), time_now, res),
    {
        let prefix: Vec<u8> = vec![TOKEN_PREFIX];
        assert(prefix@ =~= seq![TOKEN_PREFIX]);
        let entries = self.entries_with_prefix(prefix.as_slice())?;
        let keys = expired_token_keys(time_now, &entries);
        let mut ops: Vec<StoreOp> = Vec::new();
        let mut i: usize = 0;
        while i < keys.len()
            invariant
                i <= keys@.len(),
                ops@.len() == i,
                forall|j: int| 0 <= j < i ==> #[trigger] ops@[j]@ == StoreOpModel::Delete(keys@[j]@),
            decreases keys@.len() - i,
        {
            let k = keys[i].clone();
            assert(k@ == keys@[i as int]@);
            ops.push(StoreOp::Delete(k));
            i = i + 1;
        }
        assert(views(ops@) =~= removals(views(keys@)));
        self.apply(&ops)?;
        Ok(())
    }
}

/// Milliseconds since the Unix epoch, when the clock reads after it and the
/// number fits in 64 bits.
fn millis_now_u64() -> (t: Option<u64>) {
    match now_millis() {
        Some(t) => if t <= 0xffff_ffff_ffff_ffff {
            Some(t as u64)
        } else {
            None
        },
        None => None,
    }
}

/// The first member of a server being added: the user given, else the
/// server's own key.
pub open spec fn first_member(server_info: ServerInfo, user_pubkey: Option<[u8; 32]>) -> [u8; 32] {
    match user_pubkey {
        Some(u) => u,
        None => server_info.pubkey,
    }
}

/// A transaction that began on committed records and added the server
/// `server_info` under `id`, with its first member and default channel as
/// [`Batch::add_server`] stores them at some time, was committed.
pub open spec fn server_added(server_info: ServerInfo, user_pubkey: Option<[u8; 32]>, remote: bool, id: [u8; 8]) -> bool {
    exists|before: Map<Seq<u8>, Seq<u8>>, after: Map<Seq<u8>, Seq<u8>>, t: Option<u64>, c: u64|
        committed(before) && #[trigger] add_server_outcome(
            before,
            after,
            server_info,
            id,
            first_member(server_info, user_pubkey),
            remote,
            t,
            Ok::<u64, Error>(c),
        ) && committed(after)
}

/// Adding the server `server_info` failed with `e` as [`Batch::add_server`]
/// fails on some committed records, under some identifier, at some time.
pub open spec fn server_add_failed(server_info: ServerInfo, user_pubkey: Option<[u8; 32]>, remote: bool, e: Error) -> bool {
    exists|before: Map<Seq<u8>, Seq<u8>>, after: Map<Seq<u8>, Seq<u8>>, id: [u8; 8], t: Option<u64>|
        committed(before) && #[trigger] add_server_outcome(
            before,
            after,
            server_info,
            id,
            first_member(server_info, user_pubkey),
            remote,
            t,
            Err::<u64, Error>(e),
        )
}

/// The error for a clock that reads before the Unix epoch.
fn clock_error() -> (e: Error)
    ensures
        e.inner is SystemTimeError,
{
    Error { inner: ErrorKind::SystemTimeError("clock is set before the Unix epoch".to_owned()) }
}

impl DSContext {
    /// The servers that have been joined, as read in a transaction on the
    /// store; see [`Batch::get_servers`].
    pub fn get_servers(&self) -> (res: Result<Vec<ServerInfoReply>, Error>)
        ensures
            (res matches Err(e) && is_lmdb_error(e)) || exists|m: Map<Seq<u8>, Seq<u8>>|
                m.dom().finite() && committed(m) && #[trigger] get_servers_outcome(m, res),
    {
        let b = self.store.batch()?;
        b.get_servers()
    }

    /// The server stored under its identifier and key; see
    /// [`Batch::get_server_info`].
    pub fn get_server_info(&self, server_id: [u8; 8], server_pubkey: [u8; 32]) -> (res: Result<
        Option<ServerInfoReply>,
        Error,
    >)
        ensures
            (res matches Err(e) && is_lmdb_error(e)) || exists|m: Map<Seq<u8>, Seq<u8>>|
                m.dom().finite() && committed(m) && #[trigger] get_server_info_outcome(m, server_id, server_pubkey, res),
    {
        let b = self.store.batch()?;
        b.get_server_info(server_id, server_pubkey)
    }

    /// Renames a server in a transaction that is then committed; see
    /// [`Batch::modify_server`].
    pub fn modify_server(&self, server_id: [u8; 8], server_pubkey: [u8; 32], name: String) -> (res: Result<(), Error>)
        ensures
            (res matches Err(e) && is_lmdb_error(e)) || exists|before: Map<Seq<u8>, Seq<u8>>, after: Map<Seq<u8>, Seq<u8>>|
                committed(before) && #[trigger] modify_server_outcome(before, after, server_id, server_pubkey, name, res) && (res is Ok ==> committed(
                    after,
                )),
    {
        let mut b = self.store.batch()?;
        let ghost before = batch_contents(b);
        let ghost name_v = name;
        let r = b.modify_server(server_id, server_pubkey, name);
        let ghost after = batch_contents(b);
        if let Err(e) = r {
            assert(modify_server_outcome(before, after, server_id, server_pubkey, name_v, Err(e)));
            return Err(e);
        }
        let c = b.commit();
        assert(c is Ok ==> modify_server_outcome(before, after, server_id, server_pubkey, name_v, c) && committed(after));
        c
    }

    /// Adds a server under the identifier given, else a random one, with
    /// the user given, else the server's own key, as its member, joined
    /// now; see [`Batch::add_server`]. Returns the server's identifier once
    /// the transaction is committed.
    #[verifier::spinoff_prover]
    pub fn add_server(
        &self,
        server_info: ServerInfo,
        server_id: Option<[u8; 8]>,
        user_pubkey: Option<[u8; 32]>,
        remote: bool,
    ) -> (res: Result<[u8; 8], Error>)
        ensures
            res matches Ok(id) ==> (server_id matches Some(given) ==> id == given),
            res matches Ok(id) ==> server_added(server_info, user_pubkey, remote, id),
            res matches Err(e) ==> is_lmdb_error(e) || server_add_failed(server_info, user_pubkey, remote, e),
    {
        let mut b = self.store.batch()?;
        let id = new_server_id(server_id);
        let user = match user_pubkey {
            Some(u) => u,
            None => server_info.pubkey,
        };
        assert(user == first_member(server_info, user_pubkey));
        let time_now = millis_now_u64();
        let ghost before = batch_contents(b);
        let r = b.add_server(&server_info, id, user, remote, time_now);
        let ghost after = batch_contents(b);
        let channel_id = match r {
            Err(e) => {
                assert(add_server_outcome(
                    before,
                    after,
                    server_info,
                    id,
                    first_member(server_info, user_pubkey),
                    remote,
                    time_now,
                    Err::<u64, Error>(e),
                ));
                assert(is_lmdb_error(e) || server_add_failed(server_info, user_pubkey, remote, e));
                return Err(e);
            },
            Ok(c) => c,
        };
        let c = b.commit();
        if let Err(e) = c {
            return Err(e);
        }
        assert(add_server_outcome(
            before,
            after,
            server_info,
            id,
            first_member(server_info, user_pubkey),
            remote,
            time_now,
            Ok::<u64, Error>(channel_id),
        ) && committed(after));
        assert(server_added(server_info, user_pubkey, remote, id));
        Ok(id)
    }

    /// Removes a server's record in a transaction that is then committed;
    /// see [`Batch::delete_server`].
    pub fn delete_server(&self, server_id: [u8; 8], server_pubkey: [u8; 32]) -> (res: Result<(), Error>)
        ensures
            (res matches Err(e) && is_lmdb_error(e)) || exists|before: Map<Seq<u8>, Seq<u8>>, after: Map<Seq<u8>, Seq<u8>>|
                committed(before) && #[trigger] delete_server_outcome(before, after, server_id, server_pubkey, res) && (res is Ok ==> committed(
                    after,
                )),
    {
        let mut b = self.store.batch()?;
        let ghost before = batch_contents(b);
        let r = b.delete_server(server_id, server_pubkey);
        let ghost after = batch_contents(b);
        if let Err(e) = r {
            return Err(e);
        }
        let c = b.commit();
        assert(c is Ok ==> delete_server_outcome(before, after, server_id, server_pubkey, c) && committed(after));
        c
    }

    /// Posts a message in a transaction that is then committed; see
    /// [`Batch::post_message`].
    pub fn post_message(&self, message: Message) -> (res: Result<(), Error>)
        ensures
            (res matches Err(e) && is_lmdb_error(e)) || exists|before: Map<Seq<u8>, Seq<u8>>, after: Map<Seq<u8>, Seq<u8>>|
                committed(before) && #[trigger] post_message_outcome(before, after, message, res) && (res is Ok ==> committed(after)),
    {
        let mut b = self.store.batch()?;
        let ghost before = batch_contents(b);
        let ghost message_v = message;
        let r = b.post_message(message);
        let ghost after = batch_contents(b);
        if let Err(e) = r {
            assert(post_message_outcome(before, after, message_v, Err(e)));
            return Err(e);
        }
        let c = b.commit();
        assert(c is Ok ==> post_message_outcome(before, after, message_v, c) && committed(after));
        c
    }

    /// The number of batches of a channel's messages and the messages of one
    /// batch; see [`Batch::get_messages`].
    pub fn get_messages(&self, server_pubkey: [u8; 32], server_id: [u8; 8], channel_id: u64, batch_num: u64) -> (res:
        Result<(u64, Vec<Message>), Error>)
        ensures
            (res matches Err(e) && is_lmdb_error(e)) || exists|m: Map<Seq<u8>, Seq<u8>>|
                m.dom().finite() && committed(m) && #[trigger] get_messages_outcome(m, server_pubkey, server_id, channel_id, batch_num, res),
    {
        let b = self.store.batch()?;
        b.get_messages(server_pubkey, server_id, channel_id, batch_num)
    }

    /// The channels of a server; see [`Batch::get_channels`].
    pub fn get_channels(&self, server_pubkey: [u8; 32], server_id: [u8; 8]) -> (res: Result<Vec<Channel>, Error>)
        ensures
            (res matches Err(e) && is_lmdb_error(e)) || exists|m: Map<Seq<u8>, Seq<u8>>|
                m.dom().finite() && committed(m) && #[trigger] get_channels_outcome(m, server_pubkey, server_id, res),
    {
        let b = self.store.batch()?;
        b.get_channels(server_pubkey, server_id)
    }

    /// Adds a channel under a newly drawn random identifier, which is
    /// returned once the transaction that stores it is committed.
    pub fn add_channel(&self, server_id: [u8; 8], server_pubkey: [u8; 32], name: String, description: String) -> (res:
        Result<u64, Error>)
        ensures
            match res {
                Ok(channel_id) => exists|before: Map<Seq<u8>, Seq<u8>>|
                    committed(before) && #[trigger] committed(
                        before.insert(
                            spec_channel_record_key((server_pubkey@, server_id@, channel_id)),
                            Channel::spec_write((name@, description@, channel_id)),
                        ),
                    ),
                Err(e) => is_lmdb_error(e),
            },
    {
        let mut b = self.store.batch()?;
        let (channel_id, op) = new_channel_record(server_pubkey, server_id, name, description);
        let mut ops: Vec<StoreOp> = Vec::new();
        ops.push(op);
        b.apply(&ops)?;
        proof {
            reveal_with_fuel(apply_ops, 2);
        }
        b.commit()?;
        Ok(channel_id)
    }

    /// Stores a channel under the identifier given, replacing what was
    /// there, in a transaction that is then committed.
    pub fn modify_channel(
        &self,
        server_id: [u8; 8],
        server_pubkey: [u8; 32],
        channel_id: u64,
        name: String,
        description: String,
    ) -> (res: Result<(), Error>)
        ensures
            match res {
                Ok(()) => exists|before: Map<Seq<u8>, Seq<u8>>|
                    committed(before) && #[trigger] committed(
                        before.insert(
                            spec_channel_record_key((server_pubkey@, server_id@, channel_id)),
                            Channel::spec_write((name@, description@, channel_id)),
                        ),
                    ),
                Err(e) => is_lmdb_error(e),
            },
    {
        let mut b = self.store.batch()?;
        let channel_key = ChannelKey { server_pubkey, server_id, channel_id };
        let channel = Channel { name, description, channel_id };
        b.set_channel(&channel_key, &channel)?;
        b.commit()
    }

    /// Removes a channel; a failure to remove it is ignored, and only
    /// opening or committing the transaction can fail.
    pub fn delete_channel(&self, server_id: [u8; 8], server_pubkey: [u8; 32], channel_id: u64) -> (res: Result<(), Error>)
        ensures
            res matches Err(e) ==> is_lmdb_error(e),
    {
        let mut b = self.store.batch()?;
        let channel_key = ChannelKey { server_pubkey, server_id, channel_id };
        b.delete_channel(&channel_key)?;
        b.commit()
    }

    /// Creates an invite, not yet accepted, under a newly drawn random
    /// identifier, which is returned once the transaction that stores it is
    /// committed.
    pub fn create_invite(&self, inviter: [u8; 32], server_id: [u8; 8], expiry: u128, count: u64) -> (res: Result<
        u128,
        Error,
    >)
        ensures
            match res {
                Ok(id) => exists|before: Map<Seq<u8>, Seq<u8>>|
                    committed(before) && #[trigger] committed(
                        before.insert(
                            spec_invite_key(server_id@, inviter@, id),
                            spec_invite_value((inviter@, server_id@, expiry, 0u64, count, id)),
                        ).insert(spec_invite_id_key(id), spec_invite_value((inviter@, server_id@, expiry, 0u64, count, id))),
                    ),
                Err(e) => is_lmdb_error(e),
            },
    {
        let mut b = self.store.batch()?;
        let (invite, ops) = create_invite(inviter, server_id, expiry, count);
        b.apply(&ops)?;
        proof {
            reveal_with_fuel(apply_ops, 3);
        }
        b.commit()?;
        Ok(invite.id)
    }

    /// The invites to a server, or those one inviter made; see
    /// [`Batch::get_invites`].
    pub fn get_invites(&self, inviter: Option<[u8; 32]>, server_id: [u8; 8]) -> (res: Result<Vec<Invite>, Error>)
        ensures
            (res matches Err(e) && is_lmdb_error(e)) || exists|m: Map<Seq<u8>, Seq<u8>>|
                m.dom().finite() && committed(m) && #[trigger] get_invites_outcome(m, inviter, server_id, res),
    {
        let b = self.store.batch()?;
        b.get_invites(inviter, server_id)
    }

    /// Deletes an invite in a transaction that is then committed; see
    /// [`Batch::delete_invite`].
    pub fn delete_invite(&self, invite_id: u128) -> (res: Result<(), Error>)
        ensures
            (res matches Err(e) && is_lmdb_error(e)) || exists|before: Map<Seq<u8>, Seq<u8>>, after: Map<Seq<u8>, Seq<u8>>|
                committed(before) && #[trigger] delete_invite_outcome(before, after, invite_id, res) && (res is Ok ==> committed(after)),
    {
        let mut b = self.store.batch()?;
        let ghost before = batch_contents(b);
        let r = b.delete_invite(invite_id);
        let ghost after = batch_contents(b);
        if let Err(e) = r {
            assert(delete_invite_outcome(before, after, invite_id, Err(e)));
            return Err(e);
        }
        let c = b.commit();
        assert(c is Ok ==> delete_invite_outcome(before, after, invite_id, c) && committed(after));
        c
    }

    /// What the holder of an invite learns of its server; see
    /// [`Batch::check_invite`].
    pub fn check_invite(&self, invite_id: u128, server_pubkey: [u8; 32]) -> (res: Result<Option<JoinInfoReply>, Error>)
        ensures
            (res matches Err(e) && is_lmdb_error(e)) || exists|m: Map<Seq<u8>, Seq<u8>>|
                committed(m) && #[trigger] check_invite_outcome(m, invite_id, server_pubkey, res),
    {
        let b = self.store.batch()?;
        b.check_invite(invite_id, server_pubkey)
    }

    /// Accepts an invite for a user, joined now, in a transaction that is
    /// then committed; see [`Batch::accept_invite`]. The avatar is not kept.
    pub fn accept_invite(
        &self,
        invite_id: u128,
        user_pubkey: [u8; 32],
        server_pubkey: [u8; 32],
        user_name: String,
        user_bio: String,
        avatar: Vec<u8>,
    ) -> (res: Result<Option<ServerInfoReply>, Error>)
        ensures
            (res matches Err(e) && is_lmdb_error(e)) || exists|
                before: Map<Seq<u8>, Seq<u8>>,
                after: Map<Seq<u8>, Seq<u8>>,
                t: Option<u64>,
            |
                committed(before) && #[trigger] accept_invite_outcome(before, after, invite_id, user_pubkey, server_pubkey, user_name, user_bio, t, res)
                    && (res is Ok ==> committed(after)),
    {
        let mut b = self.store.batch()?;
        let time_now = millis_now_u64();
        let ghost before = batch_contents(b);
        let ghost (name_v, bio_v) = (user_name, user_bio);
        let r = b.accept_invite(invite_id, user_pubkey, server_pubkey, user_name, user_bio, time_now);
        let ghost after = batch_contents(b);
        let r = match r {
            Err(e) => {
                assert(accept_invite_outcome(before, after, invite_id, user_pubkey, server_pubkey, name_v, bio_v, time_now, Err(e)));
                return Err(e);
            },
            Ok(r) => r,
        };
        b.commit()?;
        assert(accept_invite_outcome(before, after, invite_id, user_pubkey, server_pubkey, name_v, bio_v, time_now, Ok(r)));
        Ok(r)
    }

    /// The members of one batch of a server with their profiles; see
    /// [`Batch::get_members`].
    pub fn get_members(&self, server_pubkey: [u8; 32], server_id: [u8; 8], batch_num: u64, auth: bool) -> (res: Result<
        Vec<Member>,
        Error,
    >)
        ensures
            (res matches Err(e) && is_lmdb_error(e)) || exists|m: Map<Seq<u8>, Seq<u8>>|
                m.dom().finite() && committed(m) && #[trigger] get_members_outcome(m, server_pubkey, server_id, batch_num, auth, res),
    {
        let b = self.store.batch()?;
        b.get_members(server_pubkey, server_id, batch_num, auth)
    }

    /// Stores a newly drawn random sign-in challenge for a user, returned
    /// once the transaction is committed; see
    /// [`Batch::create_auth_challenge`].
    pub fn create_auth_challenge(&self, user_pubkey: [u8; 32]) -> (res: Result<[u8; 8], Error>)
        ensures
            (res matches Err(e) && is_lmdb_error(e)) || exists|before: Map<Seq<u8>, Seq<u8>>, after: Map<Seq<u8>, Seq<u8>>|
                committed(before) && #[trigger] create_auth_challenge_outcome(before, after, user_pubkey, res) && (res is Ok ==> committed(after)),
    {
        let mut b = self.store.batch()?;
        let ghost before = batch_contents(b);
        let r = b.create_auth_challenge(user_pubkey);
        let ghost after = batch_contents(b);
        let c = match r {
            Err(e) => {
                assert(create_auth_challenge_outcome(before, after, user_pubkey, Err(e)));
                return Err(e);
            },
            Ok(c) => c,
        };
        b.commit()?;
        assert(create_auth_challenge_outcome(before, after, user_pubkey, Ok(c)));
        Ok(c)
    }

    /// Checks an answer to a challenge and, when it is right, stores a
    /// session beginning now, in a transaction that is then committed; see
    /// [`Batch::validate_challenge`]. The server key and the roles are not
    /// used.
    pub fn validate_challenge(
        &self,
        user_pubkey: [u8; 32],
        server_pubkey: [u8; 32],
        challenge: [u8; 8],
        expiration_millis: u128,
        roles: u128,
    ) -> (res: Result<Option<String>, Error>)
        ensures
            (res matches Err(e) && is_lmdb_error(e)) || exists|
                before: Map<Seq<u8>, Seq<u8>>,
                after: Map<Seq<u8>, Seq<u8>>,
                t: Option<u128>,
            |
                committed(before) && #[trigger] validate_challenge_outcome(before, after, user_pubkey, challenge, expiration_millis, t, res) && (res is Ok
                    ==> committed(after)),
    {
        let mut b = self.store.batch()?;
        let time_now = now_millis();
        let ghost before = batch_contents(b);
        let r = b.validate_challenge(user_pubkey, challenge, expiration_millis, time_now);
        let ghost after = batch_contents(b);
        let r = match r {
            Err(e) => {
                assert(validate_challenge_outcome(before, after, user_pubkey, challenge, expiration_millis, time_now, Err(e)));
                return Err(e);
            },
            Ok(r) => r,
        };
        b.commit()?;
        assert(validate_challenge_outcome(before, after, user_pubkey, challenge, expiration_millis, time_now, Ok(r)));
        Ok(r)
    }

    /// Whether a user signed in with `token` may act on a server with one of
    /// `requested_roles`, now; see [`Batch::is_authorized`].
    pub fn is_authorized(
        &self,
        user_pubkey: [u8; 32],
        server_pubkey: [u8; 32],
        token: u128,
        server_id: [u8; 8],
        requested_roles: u128,
    ) -> (res: Result<(), Error>)
        ensures
            (res matches Err(e) && is_lmdb_error(e)) || exists|m: Map<Seq<u8>, Seq<u8>>, t: Option<u128>|
                committed(m) && #[trigger] authorization(m, user_pubkey@, server_pubkey@, token, server_id@, requested_roles, t, res),
    {
        let b = self.store.batch()?;
        b.is_authorized(user_pubkey, server_pubkey, token, server_id, requested_roles, now_millis())
    }

    /// Removes the sessions that have expired now, in a transaction that is
    /// then committed; see [`Batch::purge_tokens`]. Fails when the clock is
    /// set before the Unix epoch.
    pub fn purge_tokens(&self) -> (res: Result<(), Error>)
        ensures
            (res matches Err(e) && (is_lmdb_error(e) || e.inner is SystemTimeError)) || exists|
                before: Map<Seq<u8>, Seq<u8>>,
                after: Map<Seq<u8>, Seq<u8>>,
                t: u128,
            | committed(before) && #[trigger] purge_tokens_outcome(before, after, t, res) && (res is Ok ==> committed(after)),
    {
        let time_now = match now_millis() {
            Some(t) => t,
            None => {
                return Err(clock_error());
            },
        };
        let mut b = self.store.batch()?;
        let ghost before = batch_contents(b);
        let r = b.purge_tokens(time_now);
        let ghost after = batch_contents(b);
        if let Err(e) = r {
            assert(purge_tokens_outcome(before, after, time_now, Err(e)));
            return Err(e);
        }
        let c = b.commit();
        assert(c is Ok ==> purge_tokens_outcome(before, after, time_now, c) && committed(after));
        c
    }

    /// Stores the token that a server handed out, in a transaction that is
    /// then committed.
    pub fn save_auth_token(&self, server_pubkey: [u8; 32], auth_token: u128) -> (res: Result<(), Error>)
        ensures
            (res matches Err(e) && is_lmdb_error(e)) || exists|before: Map<Seq<u8>, Seq<u8>>, after: Map<Seq<u8>, Seq<u8>>|
                committed(before) && #[trigger] save_auth_token_outcome(before, after, server_pubkey, auth_token, res) && (res is Ok ==> committed(
                    after,
                )),
    {
        let mut b = self.store.batch()?;
        let ghost before = batch_contents(b);
        let r = b.save_auth_token(server_pubkey, auth_token);
        let ghost after = batch_contents(b);
        if let Err(e) = r {
            return Err(e);
        }
        let c = b.commit();
        assert(c is Ok ==> save_auth_token_outcome(before, after, server_pubkey, auth_token, c) && committed(after));
        c
    }

    /// The profiles stored for users on a server; see
    /// [`Batch::get_profiles`].
    pub fn get_profiles(&self, user_pubkeys: Vec<Pubkey>, server_pubkey: Pubkey, server_id: ServerId) -> (res: Result<
        Vec<Option<Profile>>,
        Error,
    >)
        ensures
            (res matches Err(e) && is_lmdb_error(e)) || exists|m: Map<Seq<u8>, Seq<u8>>|
                m.dom().finite() && committed(m) && #[trigger] get_profiles_outcome(m, user_pubkeys@, server_pubkey, server_id, res),
    {
        let b = self.store.batch()?;
        let r = b.get_profiles(&user_pubkeys, server_pubkey, server_id)?;
        b.commit()?;
        Ok(r)
    }

    /// Stores a user's profile data on a server, in a transaction that is
    /// then committed.
    pub fn set_profile(&self, user_pubkey: Pubkey, server_pubkey: Pubkey, server_id: ServerId, profile_data: ProfileData) -> (res:
        Result<(), Error>)
        ensures
            (res matches Err(e) && is_lmdb_error(e)) || exists|before: Map<Seq<u8>, Seq<u8>>, after: Map<Seq<u8>, Seq<u8>>|
                committed(before) && #[trigger] set_profile_outcome(before, after, user_pubkey, server_pubkey, server_id, profile_data, res) && (res is Ok
                    ==> committed(after)),
    {
        let mut b = self.store.batch()?;
        let ghost before = batch_contents(b);
        let r = b.set_profile(user_pubkey, server_pubkey, server_id, &profile_data);
        let ghost after = batch_contents(b);
        if let Err(e) = r {
            return Err(e);
        }
        let c = b.commit();
        assert(c is Ok ==> set_profile_outcome(before, after, user_pubkey, server_pubkey, server_id, profile_data, c) && committed(
            after,
        ));
        c
    }

    /// Stores a websocket token, in a transaction that is then committed.
    pub fn save_ws_auth_token(&self, token: u128) -> (res: Result<(), Error>)
        ensures
            (res matches Err(e) && is_lmdb_error(e)) || exists|before: Map<Seq<u8>, Seq<u8>>, after: Map<Seq<u8>, Seq<u8>>|
                committed(before) && #[trigger] save_ws_auth_token_outcome(before, after, token, res) && (res is Ok ==> committed(after)),
    {
        let mut b = self.store.batch()?;
        let ghost before = batch_contents(b);
        let r = b.save_ws_auth_token(token);
        let ghost after = batch_contents(b);
        if let Err(e) = r {
            return Err(e);
        }
        let c = b.commit();
        assert(c is Ok ==> save_ws_auth_token_outcome(before, after, token, c) && committed(after));
        c
    }

    /// Whether a websocket token is stored; see
    /// [`Batch::check_ws_auth_token`].
    pub fn check_ws_auth_token(&self, token: u128) -> (res: Result<bool, Error>)
        ensures
            (res matches Err(e) && is_lmdb_error(e)) || exists|m: Map<Seq<u8>, Seq<u8>>|
                committed(m) && #[trigger] check_ws_auth_token_outcome(m, token, res),
    {
        let b = self.store.batch()?;
        b.check_ws_auth_token(token)
    }
}

/// `s` with every `~` replaced by `home`.
pub open spec fn replace_tilde(s: Seq<char>, home: Seq<char>) -> Seq<char>
    decreases s.len(),
{
    if s.len() == 0 {
        Seq::empty()
    } else {
        replace_tilde(s.drop_last(), home) + if s.last() == '~' {
            home
        } else {
            seq![s.last()]
        }
    }
}

/// `db_root` with every `~` replaced by `home`.
pub fn expand_home(db_root: &str, home: &str) -> (p: String)
    ensures
        p@ == replace_tilde(db_root@, home@),
{
    let n = db_root.unicode_len();
    let mut p = String::new();
    let mut i: usize = 0;
    while i < n
        invariant
            i <= n,
            n == db_root@.len(),
            p@ == replace_tilde(db_root@.take(i as int), home@),
        decreases n - i,
    {
        assert(db_root@.take(i + 1).drop_last() =~= db_root@.take(i as int));
        if db_root.get_char(i) == '~' {
            p.append(home);
        } else {
            let c = db_root.substring_char(i, i + 1);
            assert(c@ =~= seq![db_root@[i as int]]);
            p.append(c);
        }
        i = i + 1;
    }
    assert(db_root@.take(n as int) =~= db_root@);
    p
}

/// Where the store of a concord instance rooted at `db_root` is kept:
/// `db_root` with every `~` replaced by the user's home directory, or
/// removed when there is none.
pub fn db_root_path(db_root: &str) -> (p: String)
    ensures
        exists|home: Seq<char>| p@ == replace_tilde(db_root@, home),
{
    let home = match home_dir() {
        Some(h) => h,
        None => String::new(),
    };
    expand_home(db_root, home.as_str())
}

/// A server that `delete_server` removed is not found by
/// `get_server_info` any more.
pub proof fn lemma_deleted_server_gone(m: Map<Seq<u8>, Seq<u8>>, server_id: [u8; 8], server_pubkey: [u8; 32])
    ensures
        get_server_info_outcome(
            m.remove(spec_server_key(server_id@, server_pubkey@)),
            server_id,
            server_pubkey,
            Ok::<Option<ServerInfoReply>, Error>(None),
        ),
{
}

/// An invite that `delete_invite` removed reads as not stored, so neither
/// `check_invite` nor `accept_invite` finds it any more.
pub proof fn lemma_deleted_invite_gone(m: Map<Seq<u8>, Seq<u8>>, invite_id: u128, v: <Invite as View>::V)
    ensures
        invite_of(m.remove(spec_invite_id_key(invite_id)).remove(spec_invite_key(v.1, v.0, invite_id)), invite_id)
            == Ok::<Option<<Invite as View>::V>, ReadError>(None),
{
}

/// A server stored by `add_server` is read back by `get_server_info`.
pub proof fn lemma_added_server_read_back(m: Map<Seq<u8>, Seq<u8>>, info: <ServerInfo as View>::V, server_id: Seq<u8>)
    requires
        ServerInfo::spec_wf(info),
    ensures
        spec_decode::<ServerInfo>(
            lookup(m.insert(spec_server_key(server_id, info.0), ServerInfo::spec_write(info)), spec_server_key(server_id, info.0)),
        ) == Ok::<Option<<ServerInfo as View>::V>, ReadError>(Some(info)),
{
    lemma_serialize_deserialize::<ServerInfo>(info);
}

/// The challenge that `create_auth_challenge` stores for a user is the one
/// `validate_challenge` compares an answer with: the same challenge opens a
/// session, any other does not.
pub proof fn lemma_created_challenge_read_back(m: Map<Seq<u8>, Seq<u8>>, user_pubkey: Seq<u8>, challenge: Seq<u8>)
    requires
        challenge.len() == 8,
    ensures
        spec_decode::<Challenge>(
            lookup(m.insert(spec_challenge_key(user_pubkey), Challenge::spec_write(challenge)), spec_challenge_key(user_pubkey)),
        ) == Ok::<Option<Seq<u8>>, ReadError>(Some(challenge)),
{
    lemma_serialize_deserialize::<Challenge>(challenge);
}

/// The session that `validate_challenge` stores is found by
/// `is_authorized` under its token, and has not expired when it begins.
pub proof fn lemma_new_session_usable(
    m: Map<Seq<u8>, Seq<u8>>,
    user_pubkey: Seq<u8>,
    token: u128,
    creation_time: u128,
    expiration_millis: u128,
)
    ensures
        session_of(
            m.insert(
                spec_auth_token_key(user_pubkey, token),
                AuthInfo::spec_write((creation_time, creation_time, expiration_millis)),
            ),
            user_pubkey,
            token,
        ) == Ok::<Option<(u128, u128, u128)>, ReadError>(Some((creation_time, creation_time, expiration_millis))),
        !expired(creation_time, creation_time, expiration_millis),
{
    lemma_serialize_deserialize::<AuthInfo>((creation_time, creation_time, expiration_millis));
}

/// The profile that `set_profile` stores is the one `get_profiles` reads.
pub proof fn lemma_profile_read_back(
    m: Map<Seq<u8>, Seq<u8>>,
    user_pubkey: Seq<u8>,
    server_pubkey: Seq<u8>,
    server_id: Seq<u8>,
    data: (Seq<char>, Seq<char>),
)
    requires
        ProfileData::spec_wf(data),
    ensures
        profile_of(
            m.insert(ProfileKey::spec_write((user_pubkey, server_pubkey, server_id)), ProfileData::spec_write(data)),
            user_pubkey,
            server_pubkey,
            server_id,
        ) == Ok::<Option<(Seq<char>, Seq<char>)>, ReadError>(Some(data)),
{
    lemma_serialize_deserialize::<ProfileData>(data);
}

/// A websocket token that `save_ws_auth_token` stores is found by
/// `check_ws_auth_token`.
pub proof fn lemma_ws_token_found(m: Map<Seq<u8>, Seq<u8>>, token: u128)
    ensures
        spec_decode::<u8>(lookup(m.insert(WSAuthToken::spec_write(token), seq![0u8]), WSAuthToken::spec_write(token)))
            == Ok::<Option<u8>, ReadError>(Some(0u8)),
{
    lemma_serialize_deserialize::<u8>(0u8);
    assert(<u8 as Ser>::spec_write(0u8) =~= seq![0u8]);
}

/// Once `set_member` has made a user a member of a server, the user's
/// record is found by key: with the roles and times it was saved with, or
/// those it already had.
pub proof fn lemma_set_member_found(
    m: Map<Seq<u8>, Seq<u8>>,
    server_pubkey: Seq<u8>,
    server_id: Seq<u8>,
    user_pubkey: Seq<u8>,
    roles: u128,
    join_time: u64,
    modified_time: u64,
)
    requires
        member_set(m, server_pubkey, server_id, user_pubkey, roles, join_time, modified_time) is Some,
    ensures
        ({
            let m2 = member_set(m, server_pubkey, server_id, user_pubkey, roles, join_time, modified_time)->0;
            match member_value_of(m, user_pubkey, server_id, server_pubkey) {
                Ok(Some(v)) => member_value_of(m2, user_pubkey, server_id, server_pubkey) == Ok::<
                    Option<(u128, u64, u64, u64)>,
                    ReadError,
                >(Some(v)),
                _ => member_value_of(m2, user_pubkey, server_id, server_pubkey) matches Ok(Some(v)) && v.0 == roles
                    && v.1 == join_time && v.2 == modified_time,
            }
        }),
{
    match member_value_of(m, user_pubkey, server_id, server_pubkey) {
        Ok(Some(_)) => {},
        _ => {
            let c = member_count_of(m, server_pubkey, server_id)->Ok_0;
            let batch_num = match c {
                Some(n) => n / MEMBER_BATCH_SIZE,
                None => 0,
            };
            let value = MemberValueImpl::spec_write((roles, join_time, modified_time, batch_num));
            let hash_key = MemberKeyHashImpl::spec_write((server_pubkey, server_id, user_pubkey));
            let itt_key = MemberKeyIttImpl::spec_write((server_pubkey, server_id, batch_num, join_time, user_pubkey));
            let auth_key = MemberKeyAuthImpl::spec_write((server_pubkey, server_id, roles, batch_num, join_time, user_pubkey));
            let ops = spec_save_member_ops(server_pubkey, server_id, user_pubkey, roles, join_time, modified_time, batch_num);
            let m1 = m.insert(MemberMetaDataKey::spec_write((server_pubkey, server_id)), MemberMetaDataValue::spec_write(
                (match c {
                    Some(n) => n + 1,
                    None => 1,
                }) as u64,
            ));
            assert(hash_key[0] == MEMBER_HASH_PREFIX);
            assert(itt_key[0] == MEMBER_ITT_PREFIX);
            assert(auth_key[0] == MEMBER_AUTH_PREFIX);
            assert(hash_key != itt_key);
            assert(hash_key != auth_key);
            reveal_with_fuel(apply_ops, 4);
            assert(apply_ops(m1, ops)[hash_key] == value);
            assert(apply_ops(m1, ops).contains_key(hash_key));
            lemma_serialize_deserialize::<MemberValueImpl>((roles, join_time, modified_time, batch_num));
        },
    }
}

/// Profiles read from the records that a profile write left: the user it
/// was written for gets the written profile, on that server; any other user
/// or server reads as before the write.
pub proof fn lemma_profile_write_then_read(
    before: Map<Seq<u8>, Seq<u8>>,
    after: Map<Seq<u8>, Seq<u8>>,
    user_pubkey: Pubkey,
    server_pubkey: Pubkey,
    server_id: ServerId,
    profile_data: ProfileData,
    user_pubkeys: Seq<Pubkey>,
    res: Result<Vec<Option<Profile>>, Error>,
)
    requires
        set_profile_outcome(before, after, user_pubkey, server_pubkey, server_id, profile_data, Ok(())),
        ProfileData::spec_wf(profile_data@),
        get_profiles_outcome(after, user_pubkeys, server_pubkey, server_id, res),
    ensures
        res matches Ok(r) ==> forall|i: int|
            0 <= i < user_pubkeys.len() && (#[trigger] user_pubkeys[i])@ == user_pubkey@ ==> (r@[i] matches Some(p)
                && p@ == (user_pubkey@, server_pubkey@, server_id@, profile_data@)),
        forall|u: Seq<u8>, s: Seq<u8>, d: Seq<u8>|
            u.len() == 32 && s.len() == 32 && d.len() == 8 && (u, s, d) != (user_pubkey@, server_pubkey@, server_id@)
                ==> #[trigger] profile_of(after, u, s, d) == profile_of(before, u, s, d),
{
    let key = ProfileKey::spec_write((user_pubkey@, server_pubkey@, server_id@));
    lemma_pubkey_len(user_pubkey);
    lemma_pubkey_len(server_pubkey);
    lemma_server_id_len(server_id);
    lemma_profile_read_back(before, user_pubkey@, server_pubkey@, server_id@, profile_data@);
    assert(profile_of(after, user_pubkey@, server_pubkey@, server_id@) == Ok::<
        Option<(Seq<char>, Seq<char>)>,
        ReadError,
    >(Some(profile_data@)));
    assert forall|u: Seq<u8>, s: Seq<u8>, d: Seq<u8>|
        u.len() == 32 && s.len() == 32 && d.len() == 8 && (u, s, d) != (user_pubkey@, server_pubkey@, server_id@)
            implies #[trigger] profile_of(after, u, s, d) == profile_of(before, u, s, d) by {
        let k2 = ProfileKey::spec_write((u, s, d));
        if k2 == key {
            lemma_serialize_deserialize::<ProfileKey>((u, s, d));
            lemma_serialize_deserialize::<ProfileKey>((user_pubkey@, server_pubkey@, server_id@));
        }
    }
}

/// Making a user a member of a server leaves every record whose key starts
/// with a byte other than those of the member records as it was.
proof fn lemma_member_set_keeps(
    m: Map<Seq<u8>, Seq<u8>>,
    server_pubkey: Seq<u8>,
    server_id: Seq<u8>,
    user_pubkey: Seq<u8>,
    roles: u128,
    join_time: u64,
    modified_time: u64,
    k: Seq<u8>,
)
    requires
        member_set(m, server_pubkey, server_id, user_pubkey, roles, join_time, modified_time) is Some,
        k.len() > 0,
        k[0] != MEMBER_HASH_PREFIX,
        k[0] != MEMBER_ITT_PREFIX,
        k[0] != MEMBER_AUTH_PREFIX,
        k[0] != MEMBER_META_DATA_PREFIX,
    ensures
        lookup(member_set(m, server_pubkey, server_id, user_pubkey, roles, join_time, modified_time)->0, k)
            == lookup(m, k),
{
    match member_value_of(m, user_pubkey, server_id, server_pubkey) {
        Ok(Some(_)) => {},
        _ => {
            let c = member_count_of(m, server_pubkey, server_id)->Ok_0;
            let batch_num = match c {
                Some(n) => n / MEMBER_BATCH_SIZE,
                None => 0,
            };
            let hash_key = MemberKeyHashImpl::spec_write((server_pubkey, server_id, user_pubkey));
            let itt_key = MemberKeyIttImpl::spec_write((server_pubkey, server_id, batch_num, join_time, user_pubkey));
            let auth_key = MemberKeyAuthImpl::spec_write((server_pubkey, server_id, roles, batch_num, join_time, user_pubkey));
            let meta_key = MemberMetaDataKey::spec_write((server_pubkey, server_id));
            assert(hash_key[0] == MEMBER_HASH_PREFIX);
            assert(itt_key[0] == MEMBER_ITT_PREFIX);
            assert(auth_key[0] == MEMBER_AUTH_PREFIX);
            assert(meta_key[0] == MEMBER_META_DATA_PREFIX);
            assert(k != hash_key && k != itt_key && k != auth_key && k != meta_key);
            reveal_with_fuel(apply_ops, 4);
        },
    }
}

/// An accepted invite is counted once more: when `accept_invite` succeeds
/// on an invite that may still be accepted, the stored invite reads as
/// accepted one time more, and no more often than it may be; on one that
/// may not be accepted any more, nothing changes. So an invite made to be
/// accepted a number of times lets no more acceptances through.
pub proof fn lemma_accept_invite_counts(
    before: Map<Seq<u8>, Seq<u8>>,
    after: Map<Seq<u8>, Seq<u8>>,
    invite_id: u128,
    user_pubkey: [u8; 32],
    server_pubkey: [u8; 32],
    user_name: String,
    user_bio: String,
    time_now: Option<u64>,
    res: Result<Option<ServerInfoReply>, Error>,
    v: <Invite as View>::V,
)
    requires
        accept_invite_outcome(before, after, invite_id, user_pubkey, server_pubkey, user_name, user_bio, time_now, res),
        res is Ok,
        invite_of(before, invite_id) == Ok::<Option<<Invite as View>::V>, ReadError>(Some(v)),
        Invite::spec_wf(v),
    ensures
        usable(v) ==> invite_of(after, invite_id) == Ok::<Option<<Invite as View>::V>, ReadError>(
            Some(one_more_acceptance(v)),
        ),
        usable(v) ==> one_more_acceptance(v).3 == v.3 + 1 && one_more_acceptance(v).3 <= one_more_acceptance(v).4,
        !usable(v) ==> after == before,
{
    if usable(v) {
        let ik = spec_invite_id_key(invite_id);
        let w = Invite::spec_write(one_more_acceptance(v));
        let pk = ProfileKey::spec_write((user_pubkey@, server_pubkey@, v.1));
        let m1 = before.insert(ik, w).insert(pk, ProfileData::spec_write((user_name@, user_bio@)));
        assert(ik[0] == INVITE_ID_PREFIX);
        assert(pk[0] == PROFILE_PREFIX);
        assert(lookup(m1, ik) == Some(w));
        let t = time_now->0;
        lemma_member_set_keeps(m1, server_pubkey@, v.1, user_pubkey@, AUTH_FLAG_MEMBER, t, t, ik);
        lemma_serialize_deserialize::<Invite>(one_more_acceptance(v));
    }
}

/// The batch of plain members that a user joining a server with the member
/// count `c` is filed in.
pub open spec fn joining_batch(c: Result<Option<u64>, ReadError>) -> u64 {
    match c {
        Ok(Some(n)) => n / MEMBER_BATCH_SIZE,
        _ => 0,
    }
}

/// A user who joins a server through an invite, having not been a member of
/// it, is filed as a plain member: found by key with the plain member's
/// roles, joined at the time of the call; listed among the plain members of
/// the batch that the member count put it in, whenever every record of that
/// batch reads; and given no record among the members with privileges.
pub proof fn lemma_joined_member_listed(
    before: Map<Seq<u8>, Seq<u8>>,
    after: Map<Seq<u8>, Seq<u8>>,
    invite_id: u128,
    user_pubkey: [u8; 32],
    server_pubkey: [u8; 32],
    user_name: String,
    user_bio: String,
    time_now: Option<u64>,
    r: Option<ServerInfoReply>,
    v: <Invite as View>::V,
    es: Seq<(Seq<u8>, Seq<u8>)>,
)
    requires
        accept_invite_outcome(
            before,
            after,
            invite_id,
            user_pubkey,
            server_pubkey,
            user_name,
            user_bio,
            time_now,
            Ok::<Option<ServerInfoReply>, Error>(r),
        ),
        invite_of(before, invite_id) == Ok::<Option<<Invite as View>::V>, ReadError>(Some(v)),
        Invite::spec_wf(v),
        usable(v),
        member_value_of(before, user_pubkey@, v.1, server_pubkey@) == Ok::<Option<(u128, u64, u64, u64)>, ReadError>(
            None,
        ),
    ensures
        ({
            let t = time_now->0;
            let b = joining_batch(member_count_of(before, server_pubkey@, v.1));
            &&& time_now is Some
            &&& member_value_of(after, user_pubkey@, v.1, server_pubkey@) == Ok::<
                Option<(u128, u64, u64, u64)>,
                ReadError,
            >(Some((AUTH_FLAG_MEMBER, t, t, b)))
            &&& (is_listing(after, members_batch_prefix(server_pubkey@, v.1, b, false), es) && (forall|i: int|
                0 <= i < es.len() ==> member_entry_ok(#[trigger] es[i], false)) ==> exists|j: int|
                0 <= j < member_records(after, server_pubkey@, v.1, b, false).len() && #[trigger] member_records(
                    after,
                    server_pubkey@,
                    v.1,
                    b,
                    false,
                )[j] == (user_pubkey@, server_pubkey@, v.1, AUTH_FLAG_MEMBER, b, t, t))
            &&& forall|k: Seq<u8>|
                k.len() > 0 && k[0] == MEMBER_AUTH_PREFIX && #[trigger] after.contains_key(k) ==> before.contains_key(k)
        }),
{
    let t = time_now->0;
    let spk = server_pubkey@;
    let u = user_pubkey@;
    let sid = v.1;
    let ik = spec_invite_id_key(invite_id);
    let pk = ProfileKey::spec_write((u, spk, sid));
    let m1 = before.insert(ik, Invite::spec_write(one_more_acceptance(v))).insert(
        pk,
        ProfileData::spec_write((user_name@, user_bio@)),
    );
    let c = member_count_of(before, spk, sid);
    let b = joining_batch(c);
    let hash_key = MemberKeyHashImpl::spec_write((spk, sid, u));
    let meta_key = MemberMetaDataKey::spec_write((spk, sid));
    let itt_key = MemberKeyIttImpl::spec_write((spk, sid, b, t, u));
    let auth_key = MemberKeyAuthImpl::spec_write((spk, sid, AUTH_FLAG_MEMBER, b, t, u));
    assert(ik[0] == INVITE_ID_PREFIX);
    assert(pk[0] == PROFILE_PREFIX);
    assert(hash_key[0] == MEMBER_HASH_PREFIX);
    assert(meta_key[0] == MEMBER_META_DATA_PREFIX);
    assert(itt_key[0] == MEMBER_ITT_PREFIX);
    assert(auth_key[0] == MEMBER_AUTH_PREFIX);
    assert(lookup(m1, hash_key) == lookup(before, hash_key));
    assert(lookup(m1, meta_key) == lookup(before, meta_key));
    assert(member_value_of(m1, u, sid, spk) == member_value_of(before, u, sid, spk));
    assert(member_count_of(m1, spk, sid) == c);
    let value = MemberValueImpl::spec_write((AUTH_FLAG_MEMBER, t, t, b));
    assert(!is_privileged(AUTH_FLAG_MEMBER));
    let ops = spec_save_member_ops(spk, sid, u, AUTH_FLAG_MEMBER, t, t, b);
    assert(ops == seq![StoreOpModel::Put(hash_key, value), StoreOpModel::Put(itt_key, value), StoreOpModel::Delete(auth_key)]);
    let m2 = m1.insert(meta_key, MemberMetaDataValue::spec_write((match c {
        Ok(Some(n)) => n + 1,
        _ => 1,
    }) as u64));
    reveal_with_fuel(apply_ops, 4);
    assert(after == apply_ops(m2, ops));
    assert(after == m2.insert(hash_key, value).insert(itt_key, value).remove(auth_key));
    lemma_serialize_deserialize::<MemberValueImpl>((AUTH_FLAG_MEMBER, t, t, b));
    assert(lookup(after, hash_key) == Some(value));
    if is_listing(after, members_batch_prefix(spk, sid, b, false), es) && (forall|i: int|
        0 <= i < es.len() ==> member_entry_ok(#[trigger] es[i], false)) {
        let prefix = members_batch_prefix(spk, sid, b, false);
        assert(spk.len() == 32 && u.len() == 32);
        assert(itt_key.take(prefix.len() as int) =~= prefix);
        assert(has_prefix(itt_key, prefix));
        assert(after.contains_key(itt_key));
        let i = choose|i: int| 0 <= i < es.len() && es[i].0 == itt_key;
        lemma_listing_unique(after, prefix, es, listing(after, prefix));
        lemma_good_prefix_len(es, |e: (Seq<u8>, Seq<u8>)| member_entry_ok(e, false), es.len());
        assert(es.take(es.len() as int) =~= es);
        lemma_serialize_deserialize::<MemberKeyIttImpl>((spk, sid, b, t, u));
        assert(es[i].1 == value);
        let recs = member_records(after, spk, sid, b, false);
        assert(recs[i] == member_of(es[i], false));
        assert(recs[i] == (u, spk, sid, AUTH_FLAG_MEMBER, b, t, t));
    }
}

/// The records `after` are what a successful `accept_invite` of the invite
/// `invite_id` left of the records `before`, for some user and time.
pub open spec fn invite_accepted_step(before: Map<Seq<u8>, Seq<u8>>, after: Map<Seq<u8>, Seq<u8>>, invite_id: u128) -> bool {
    exists|u: [u8; 32], s: [u8; 32], n: String, b: String, t: Option<u64>, r: Option<ServerInfoReply>|
        #[trigger] accept_invite_outcome(before, after, invite_id, u, s, n, b, t, Ok::<Option<ServerInfoReply>, Error>(r))
}

/// How many of the first `k` records of the run `ms` hold the invite
/// `invite_id` as one that may still be accepted: the acceptances that the
/// calls from them made.
pub open spec fn acceptances(ms: Seq<Map<Seq<u8>, Seq<u8>>>, invite_id: u128, k: int) -> nat
    decreases k,
{
    if k <= 0 {
        0
    } else {
        acceptances(ms, invite_id, k - 1) + if invite_of(ms[k - 1], invite_id) matches Ok(Some(w)) && usable(w) {
            1nat
        } else {
            0nat
        }
    }
}

proof fn lemma_invite_run(ms: Seq<Map<Seq<u8>, Seq<u8>>>, invite_id: u128, v: <Invite as View>::V, k: int)
    requires
        0 <= k < ms.len(),
        invite_of(ms[0], invite_id) == Ok::<Option<<Invite as View>::V>, ReadError>(Some(v)),
        Invite::spec_wf(v),
        v.3 <= v.4,
        forall|j: int| 0 <= j < ms.len() - 1 ==> #[trigger] invite_accepted_step(ms[j], ms[j + 1], invite_id),
    ensures
        v.3 + acceptances(ms, invite_id, k) <= v.4,
        invite_of(ms[k], invite_id) == Ok::<Option<<Invite as View>::V>, ReadError>(
            Some((v.0, v.1, v.2, (v.3 + acceptances(ms, invite_id, k)) as u64, v.4, v.5)),
        ),
    decreases k,
{
    if k > 0 {
        lemma_invite_run(ms, invite_id, v, k - 1);
        let a = acceptances(ms, invite_id, k - 1);
        let w = (v.0, v.1, v.2, (v.3 + a) as u64, v.4, v.5);
        let j = k - 1;
        assert(invite_accepted_step(ms[j], ms[j + 1], invite_id));
        assert(j + 1 == k);
        let (u, s, n, b, t, r) = choose|u: [u8; 32], s: [u8; 32], n: String, b: String, t: Option<u64>, r: Option<ServerInfoReply>|
            #[trigger] accept_invite_outcome(ms[k - 1], ms[k], invite_id, u, s, n, b, t, Ok::<Option<ServerInfoReply>, Error>(r));
        lemma_accept_invite_counts(ms[k - 1], ms[k], invite_id, u, s, n, b, t, Ok::<Option<ServerInfoReply>, Error>(r), w);
        if usable(w) {
            assert(one_more_acceptance(w) == (v.0, v.1, v.2, (v.3 + a + 1) as u64, v.4, v.5));
        }
    }
}

/// Over any run of successful `accept_invite` calls of one invite, each
/// made on the records that the one before it left, the invite is accepted
/// once more at each call that finds it may still be accepted and stays as
/// it is at every other: so it is never accepted more often than it may be,
/// and no more calls than that enroll a member.
pub proof fn lemma_invite_acceptances_bounded(ms: Seq<Map<Seq<u8>, Seq<u8>>>, invite_id: u128, v: <Invite as View>::V)
    requires
        ms.len() > 0,
        invite_of(ms[0], invite_id) == Ok::<Option<<Invite as View>::V>, ReadError>(Some(v)),
        Invite::spec_wf(v),
        v.3 <= v.4,
        forall|j: int| 0 <= j < ms.len() - 1 ==> #[trigger] invite_accepted_step(ms[j], ms[j + 1], invite_id),
    ensures
        forall|k: int|
            0 <= k < ms.len() ==> v.3 + #[trigger] acceptances(ms, invite_id, k) <= v.4 && invite_of(ms[k], invite_id)
                == Ok::<Option<<Invite as View>::V>, ReadError>(
                Some((v.0, v.1, v.2, (v.3 + acceptances(ms, invite_id, k)) as u64, v.4, v.5)),
            ),
{
    assert forall|k: int| 0 <= k < ms.len() implies v.3 + #[trigger] acceptances(ms, invite_id, k) <= v.4
        && invite_of(ms[k], invite_id) == Ok::<Option<<Invite as View>::V>, ReadError>(
        Some((v.0, v.1, v.2, (v.3 + acceptances(ms, invite_id, k)) as u64, v.4, v.5)),
    ) by {
        lemma_invite_run(ms, invite_id, v, k);
    }
}

/// An invite that is stored, accepted fewer times than it may be, for a
/// server whose record is stored under its identifier and the key asked
/// about: checking it answers with that server (its key and name), the
/// server's identifier and the inviter; only a failure of LMDB stops it.
pub proof fn lemma_check_invite_finds_server(
    m: Map<Seq<u8>, Seq<u8>>,
    invite_id: u128,
    server_pubkey: [u8; 32],
    invite: <Invite as View>::V,
    server: <ServerInfo as View>::V,
    res: Result<Option<JoinInfoReply>, Error>,
)
    requires
        lookup(m, spec_invite_id_key(invite_id)) == Some(Invite::spec_write(invite)),
        Invite::spec_wf(invite),
        invite.3 < invite.4,
        lookup(m, spec_server_key(invite.1, server_pubkey@)) == Some(ServerInfo::spec_write(server)),
        ServerInfo::spec_wf(server),
        check_invite_outcome(m, invite_id, server_pubkey, res),
    ensures
        res matches Err(e) ==> is_lmdb_error(e),
        res matches Ok(r) ==> (r matches Some(x) && x@ == (server.0, invite.1, server.1, invite.0)),
{
    lemma_serialize_deserialize::<Invite>(invite);
    lemma_serialize_deserialize::<ServerInfo>(server);
}

/// Posting a message to a channel whose count reads and is below the
/// greatest there is succeeds unless LMDB fails, and leaves the count one
/// more and the message stored in the batch its number falls in, under its
/// time, author and nonce.
pub proof fn lemma_post_message_succeeds(
    before: Map<Seq<u8>, Seq<u8>>,
    after: Map<Seq<u8>, Seq<u8>>,
    message: Message,
    res: Result<(), Error>,
    count: Option<u64>,
)
    requires
        message_count_of(before, message.server_pubkey@, message.server_id@, message.channel_id) == Ok::<
            Option<u64>,
            ReadError,
        >(count),
        stored_count(count) < u64::MAX,
        post_message_outcome(before, after, message, res),
    ensures
        res matches Err(e) ==> is_lmdb_error(e),
        res is Ok ==> message_count_of(after, message.server_pubkey@, message.server_id@, message.channel_id) == Ok::<
            Option<u64>,
            ReadError,
        >(Some((stored_count(count) + 1) as u64)),
        res is Ok ==> lookup(
            after,
            MessageKeyImpl::spec_write((
                message.server_pubkey@,
                message.server_id@,
                message.channel_id,
                stored_count(count) / MESSAGE_BATCH_SIZE,
                message.timestamp,
                message.user_pubkey@,
                message.nonce,
            )),
        ) == Some(MessageValueImpl::spec_write((message.payload@, message.signature@, message.message_type))),
{
    let meta_key = MessageMetaDataKey::spec_write((message.server_pubkey@, message.server_id@, message.channel_id));
    let msg_key = MessageKeyImpl::spec_write((
        message.server_pubkey@,
        message.server_id@,
        message.channel_id,
        stored_count(count) / MESSAGE_BATCH_SIZE,
        message.timestamp,
        message.user_pubkey@,
        message.nonce,
    ));
    assert(meta_key[0] != msg_key[0]);
    reveal_with_fuel(apply_ops, 3);
    lemma_serialize_deserialize::<MessageMetaDataValue>((stored_count(count) + 1) as u64);
}

/// A signed-in user whose session is stored under the token and has not
/// gone unused for longer than its expiry at `time_now`, and who is stored
/// as a member of the server holding one of the roles asked for, is
/// authorized: only a failure of LMDB stops it. A session that has gone
/// unused for longer is refused as expired, whatever the roles.
pub proof fn lemma_authorized_session(
    m: Map<Seq<u8>, Seq<u8>>,
    user_pubkey: [u8; 32],
    server_pubkey: [u8; 32],
    token: u128,
    server_id: [u8; 8],
    requested_roles: u128,
    time_now: u128,
    session: (u128, u128, u128),
    res: Result<(), Error>,
)
    requires
        lookup(m, spec_auth_token_key(user_pubkey@, token)) == Some(AuthInfo::spec_write(session)),
        authorization(m, user_pubkey@, server_pubkey@, token, server_id@, requested_roles, Some(time_now), res),
    ensures
        elapsed(time_now, session.1) > session.2 ==> (res matches Err(e) && (is_lmdb_error(e) || (e.inner matches ErrorKind::NotAuthorized(msg)
            && msg@ == "invalid token - expired"@))),
        forall|member: (u128, u64, u64, u64)|
            elapsed(time_now, session.1) <= session.2 && member.0 & requested_roles != 0 && lookup(
                m,
                MemberKeyHashImpl::spec_write((server_pubkey@, server_id@, user_pubkey@)),
            ) == Some(#[trigger] MemberValueImpl::spec_write(member)) ==> (res is Ok || (res matches Err(e)
                && is_lmdb_error(e))),
{
    lemma_serialize_deserialize::<AuthInfo>(session);
    assert forall|member: (u128, u64, u64, u64)|
        elapsed(time_now, session.1) <= session.2 && member.0 & requested_roles != 0 && lookup(
            m,
            MemberKeyHashImpl::spec_write((server_pubkey@, server_id@, user_pubkey@)),
        ) == Some(#[trigger] MemberValueImpl::spec_write(member)) implies (res is Ok || (res matches Err(e)
            && is_lmdb_error(e))) by {
        lemma_serialize_deserialize::<MemberValueImpl>(member);
    }
}

/// Accepting, at a time after the Unix epoch, an invite that is stored and
/// accepted fewer times than it may be, for a user who is not yet a member,
/// on a server whose member count is below the greatest there is, succeeds
/// unless LMDB fails: the invite is stored accepted once more, the user's
/// profile is stored, the user is a plain member joined at that time, and
/// the answer is the server stored under the invite's server identifier
/// alone, or nothing when no server is stored there.
pub proof fn lemma_accept_invite_succeeds(
    before: Map<Seq<u8>, Seq<u8>>,
    after: Map<Seq<u8>, Seq<u8>>,
    invite_id: u128,
    user_pubkey: [u8; 32],
    server_pubkey: [u8; 32],
    user_name: String,
    user_bio: String,
    time_now: u64,
    invite: <Invite as View>::V,
    members: Option<u64>,
    res: Result<Option<ServerInfoReply>, Error>,
)
    requires
        lookup(before, spec_invite_id_key(invite_id)) == Some(Invite::spec_write(invite)),
        Invite::spec_wf(invite),
        invite.3 < invite.4,
        lookup(before, MemberKeyHashImpl::spec_write((server_pubkey@, invite.1, user_pubkey@))) is None,
        member_count_of(before, server_pubkey@, invite.1) == Ok::<Option<u64>, ReadError>(members),
        members != Some(u64::MAX),
        spec_decode::<ServerInfo>(lookup(before, seq![SERVER_PREFIX] + invite.1)) is Ok,
        ProfileData::spec_wf((user_name@, user_bio@)),
        accept_invite_outcome(
            before,
            after,
            invite_id,
            user_pubkey,
            server_pubkey,
            user_name,
            user_bio,
            Some(time_now),
            res,
        ),
    ensures
        res matches Err(e) ==> is_lmdb_error(e),
        res matches Ok(r) ==> match spec_decode::<ServerInfo>(lookup(before, seq![SERVER_PREFIX] + invite.1)) {
            Ok(Some(sv)) => r matches Some(x) && x@ == (sv.0, invite.1, sv.1, sv.3),
            _ => r is None,
        },
        res is Ok ==> invite_of(after, invite_id) == Ok::<Option<<Invite as View>::V>, ReadError>(
            Some(one_more_acceptance(invite)),
        ),
        res is Ok ==> profile_of(after, user_pubkey@, server_pubkey@, invite.1) == Ok::<
            Option<(Seq<char>, Seq<char>)>,
            ReadError,
        >(Some((user_name@, user_bio@))),
        res is Ok ==> member_value_of(after, user_pubkey@, invite.1, server_pubkey@) == Ok::<
            Option<(u128, u64, u64, u64)>,
            ReadError,
        >(Some((AUTH_FLAG_MEMBER, time_now, time_now, joining_batch(Ok::<Option<u64>, ReadError>(members))))),
{
    lemma_serialize_deserialize::<Invite>(invite);
    let u = user_pubkey@;
    let spk = server_pubkey@;
    let sid = invite.1;
    let ik = spec_invite_id_key(invite_id);
    let pk = ProfileKey::spec_write((u, spk, sid));
    let sk = seq![SERVER_PREFIX] + sid;
    let hash_key = MemberKeyHashImpl::spec_write((spk, sid, u));
    let meta_key = MemberMetaDataKey::spec_write((spk, sid));
    let m1 = before.insert(ik, Invite::spec_write(one_more_acceptance(invite))).insert(
        pk,
        ProfileData::spec_write((user_name@, user_bio@)),
    );
    assert(ik[0] == INVITE_ID_PREFIX);
    assert(pk[0] == PROFILE_PREFIX);
    assert(hash_key[0] == MEMBER_HASH_PREFIX);
    assert(meta_key[0] == MEMBER_META_DATA_PREFIX);
    assert(sk[0] == SERVER_PREFIX);
    assert(lookup(m1, hash_key) == lookup(before, hash_key));
    assert(lookup(m1, meta_key) == lookup(before, meta_key));
    assert(lookup(m1, sk) == lookup(before, sk));
    assert(member_value_of(m1, u, sid, spk) == Ok::<Option<(u128, u64, u64, u64)>, ReadError>(None));
    assert(member_count_of(m1, spk, sid) == Ok::<Option<u64>, ReadError>(members));
    assert(member_set(m1, spk, sid, u, AUTH_FLAG_MEMBER, time_now, time_now) is Some);
    let m2 = member_set(m1, spk, sid, u, AUTH_FLAG_MEMBER, time_now, time_now)->0;
    lemma_member_set_keeps(m1, spk, sid, u, AUTH_FLAG_MEMBER, time_now, time_now, sk);
    lemma_member_set_keeps(m1, spk, sid, u, AUTH_FLAG_MEMBER, time_now, time_now, pk);
    lemma_profile_read_back(before.insert(ik, Invite::spec_write(one_more_acceptance(invite))), u, spk, sid, (user_name@, user_bio@));
    assert(lookup(m2, sk) == lookup(before, sk));
    if let Ok(r) = res {
        lemma_accept_invite_counts(before, after, invite_id, user_pubkey, server_pubkey, user_name, user_bio, Some(time_now), res, invite);
        lemma_joined_member_listed(
            before,
            after,
            invite_id,
            user_pubkey,
            server_pubkey,
            user_name,
            user_bio,
            Some(time_now),
            r,
            invite,
            Seq::empty(),
        );
        assert(profile_of(after, u, spk, sid) == profile_of(m1, u, spk, sid));
    }
}

/// The message that posting `message` stores, as the first of its batch
/// reads it back: numbered 0, with the placeholder name and bio.
pub open spec fn first_posted(message: MessageModel) -> MessageModel {
    MessageModel { seqno: 0, user_name: "not implemented"@, user_bio: "not implemented"@, ..message }
}

/// A message posted to a channel that had no count and no messages in its
/// first batch is read back from the records the post left: the channel
/// then has one batch, and its first batch holds exactly that message,
/// numbered 0; only a failure of LMDB stops the read.
pub proof fn lemma_posted_message_read_back(
    before: Map<Seq<u8>, Seq<u8>>,
    after: Map<Seq<u8>, Seq<u8>>,
    message: Message,
    res: Result<(u64, Vec<Message>), Error>,
)
    requires
        message_count_of(before, message.server_pubkey@, message.server_id@, message.channel_id) == Ok::<
            Option<u64>,
            ReadError,
        >(None),
        forall|k: Seq<u8>|
            #[trigger] before.contains_key(k) ==> !has_prefix(
                k,
                spec_message_batch_prefix(message.server_pubkey@, message.server_id@, message.channel_id, 0),
            ),
        message.payload@.len() <= u32::MAX,
        post_message_outcome(before, after, message, Ok(())),
        get_messages_outcome(after, message.server_pubkey, message.server_id, message.channel_id, 0, res),
    ensures
        res matches Err(e) ==> is_lmdb_error(e),
        res matches Ok((n, r)) ==> n == 1 && r@.len() == 1 && r@[0]@ == first_posted(message@),
{
    let spk = message.server_pubkey@;
    let sid = message.server_id@;
    let cid = message.channel_id;
    lemma_post_message_succeeds(before, after, message, Ok(()), None);
    let meta_key = MessageMetaDataKey::spec_write((spk, sid, cid));
    let kv = (spk, sid, cid, 0u64, message.timestamp, message.user_pubkey@, message.nonce);
    let msg_key = MessageKeyImpl::spec_write(kv);
    let vv = (message.payload@, message.signature@, message.message_type);
    let value = MessageValueImpl::spec_write(vv);
    reveal_with_fuel(apply_ops, 3);
    assert(after == before.insert(meta_key, MessageMetaDataValue::spec_write(1u64)).insert(msg_key, value));
    let p = spec_message_batch_prefix(spk, sid, cid, 0);
    assert(msg_key.take(p.len() as int) =~= p);
    assert(has_prefix(msg_key, p));
    assert(!has_prefix(meta_key, p)) by {
        if has_prefix(meta_key, p) {
            assert(meta_key.take(p.len() as int)[0] == p[0]);
        }
    }
    let es = seq![(msg_key, value)];
    assert(is_listing(after, p, es)) by {
        assert forall|k: Seq<u8>| #[trigger] after.contains_key(k) && has_prefix(k, p) implies exists|i: int|
            0 <= i < es.len() && es[i].0 == k by {
            assert(es[0].0 == msg_key);
        }
    }
    lemma_listing_unique(after, p, es, listing(after, p));
    lemma_serialize_deserialize::<MessageKeyImpl>(kv);
    lemma_serialize_deserialize::<MessageValueImpl>(vv);
    assert(message_entry_ok(es[0]));
    lemma_good_prefix_len(es, |e: (Seq<u8>, Seq<u8>)| message_entry_ok(e), 1);
    assert(es.take(1) =~= es);
    assert(batch_read(1, 0) == 0);
    assert(batch_count(1) == 1);
    let msgs = batch_messages(after, spk, sid, cid, 0);
    assert(msgs.len() == 1);
    assert(msgs[0] == message_of(es[0], 0));
    assert(msgs[0] == first_posted(message@));
    if let Ok((n, r)) = res {
        assert(views(r@) == msgs);
        assert(r@[0]@ == views(r@)[0]);
    }
}

} // verus!
