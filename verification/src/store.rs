//! The records kept in the local store: their keys, their values, and the
//! byte layout of each.
//!
//! Every record is written with the wire format of [`crate::ser`]. A key
//! starts with a one-byte prefix that says which table it belongs to, so that
//! the records of one table are found by walking the keys with that prefix.

use crate::ser::{ReadError, Ser, lemma_from_pos_skip, lemma_skip_front, lemma_write_read_bytes32, lemma_write_read_str32, read_bytes32, read_str32, spec_read_bytes32, spec_read_str32, spec_write_bytes32, spec_write_str32, wf_str32, write_bytes32, write_str32};
use crate::types::{ProfileData, Pubkey, SerString, ServerId};
use vstd::prelude::*;

verus! {

/// Messages are numbered in batches of this many.
pub const MESSAGE_BATCH_SIZE: u64 = 100;

/// Members are numbered in batches of this many.
pub const MEMBER_BATCH_SIZE: u64 = 100;

/// How long a signed-in session lasts without use: one hour, in milliseconds.
pub const TOKEN_EXPIRATION: u128 = 3_600_000;

/// The prefix of the server records.
pub const SERVER_PREFIX: u8 = 0;
/// The prefix of the session tokens.
pub const TOKEN_PREFIX: u8 = 1;
/// The prefix of the messages.
pub const MESSAGE_PREFIX: u8 = 2;
/// The prefix of the channels.
pub const CHANNEL_PREFIX: u8 = 3;
/// The prefix of the plain members, walked in join order.
pub const MEMBER_ITT_PREFIX: u8 = 4;
/// The prefix of the invites, keyed by server and inviter.
pub const INVITE_PREFIX: u8 = 5;
/// The prefix of the invites, keyed by their identifier.
pub const INVITE_ID_PREFIX: u8 = 6;
/// The prefix of the sign-in challenges.
pub const CHALLENGE_PREFIX: u8 = 7;
/// The prefix of the stored server tokens.
pub const STORED_AUTH_TOKEN_PREFIX: u8 = 8;
/// The prefix of the per-channel message counts.
pub const MESSAGE_METADATA_PREFIX: u8 = 9;
/// The prefix of the profiles.
pub const PROFILE_PREFIX: u8 = 10;
/// The prefix of the members, keyed by their public key.
pub const MEMBER_HASH_PREFIX: u8 = 11;
/// The prefix of the per-server member counts.
pub const MEMBER_META_DATA_PREFIX: u8 = 12;
/// The prefix of the members with roles.
pub const MEMBER_AUTH_PREFIX: u8 = 13;
/// The prefix of the websocket tokens.
pub const WS_AUTH_TOKEN: u8 = 14;

/// The role of the owner of a server.
pub const AUTH_FLAG_OWNER: u128 = 1;
/// The role of a member of a server.
pub const AUTH_FLAG_MEMBER: u128 = 2;

/// A profile: what a user says of themself on one server.
#[derive(Debug)]
pub struct Profile {
    pub user_pubkey: Pubkey,
    pub server_pubkey: Pubkey,
    pub server_id: ServerId,
    pub profile_data: ProfileData,
}

/// The key of a profile.
pub struct ProfileKey {
    pub user_pubkey: Pubkey,
    pub server_pubkey: Pubkey,
    pub server_id: ServerId,
}

/// A token that a server handed out.
pub struct AuthToken {
    pub auth_token: u128,
}

/// A user's public key, as stored.
pub struct UserPubKey {
    pub user_pubkey: [u8; 32],
}

/// A sign-in challenge, as stored.
pub struct Challenge {
    pub challenge: [u8; 8],
}

/// The key of an invite, found by server and inviter.
pub struct InviteKey {
    pub server_id: [u8; 8],
    pub inviter: [u8; 32],
    pub id: u128,
}

/// A member of a server, as returned to callers.
#[derive(Debug)]
pub struct Member {
    pub user_pubkey: Pubkey,
    pub profile_data: Option<ProfileData>,
    pub roles: u128,
    pub join_time: u64,
    pub modified_time: u64,
}

/// A member of a server, as stored.
#[derive(Debug, Clone, Copy)]
pub struct MemberImpl {
    pub user_pubkey: Pubkey,
    pub server_pubkey: Pubkey,
    pub server_id: ServerId,
    pub roles: u128,
    pub batch_num: u64,
    pub join_time: u64,
    pub modified_time: u64,
}

/// The key of the member count of a server.
pub struct MemberMetaDataKey {
    pub server_pubkey: Pubkey,
    pub server_id: ServerId,
}

/// The number of members a server has had.
pub struct MemberMetaDataValue {
    pub member_count: u64,
}

/// The key of a member without roles, in the table walked in join order.
pub struct MemberKeyIttImpl {
    pub server_pubkey: Pubkey,
    pub server_id: ServerId,
    pub batch_num: u64,
    pub join_time: u64,
    pub user_pubkey: Pubkey,
}

/// The key of a member, found by public key.
pub struct MemberKeyHashImpl {
    pub server_pubkey: Pubkey,
    pub server_id: ServerId,
    pub user_pubkey: Pubkey,
}

/// The key of a member with roles.
pub struct MemberKeyAuthImpl {
    pub server_pubkey: Pubkey,
    pub server_id: ServerId,
    pub roles: u128,
    pub batch_num: u64,
    pub join_time: u64,
    pub user_pubkey: Pubkey,
}

/// The start of the keys of one batch of plain members.
#[derive(Debug)]
pub struct MemberBatchLookupKeyImpl {
    pub server_pubkey: Pubkey,
    pub server_id: ServerId,
    pub batch_num: u64,
}

/// The start of the keys of one batch of members with roles.
#[derive(Debug)]
pub struct AuthBatchLookupKeyImpl {
    pub server_pubkey: Pubkey,
    pub server_id: ServerId,
    pub batch_num: u64,
}

/// What is stored of a member under each of its keys.
#[derive(Debug, Clone, Copy)]
pub struct MemberValueImpl {
    pub roles: u128,
    pub join_time: u64,
    pub modified_time: u64,
    pub batch_num: u64,
}

/// The kind of a message.
#[derive(Debug, Clone, Copy, PartialEq, Eq, Structural)]
pub enum MessageType {
    Text,
    Binary,
}

/// A message posted to a channel.
#[derive(Debug)]
pub struct Message {
    pub payload: Vec<u8>,
    pub signature: [u8; 64],
    pub message_type: MessageType,
    pub server_pubkey: [u8; 32],
    pub server_id: [u8; 8],
    pub channel_id: u64,
    pub timestamp: u64,
    pub user_pubkey: [u8; 32],
    pub nonce: u16,
    pub seqno: u64,
    pub user_name: String,
    pub user_bio: String,
}

/// The key of a message.
#[derive(Debug)]
pub struct MessageKeyImpl {
    pub server_pubkey: [u8; 32],
    pub server_id: [u8; 8],
    pub channel_id: u64,
    pub batch_num: u64,
    pub timestamp: u64,
    pub user_pubkey: [u8; 32],
    pub nonce: u16,
}

/// What is stored of a message.
#[derive(Debug)]
pub struct MessageValueImpl {
    pub payload: Vec<u8>,
    pub signature: [u8; 64],
    pub message_type: MessageType,
}

/// The key of the message count of a channel.
#[derive(Debug)]
pub struct MessageMetaDataKey {
    pub server_pubkey: [u8; 32],
    pub server_id: [u8; 8],
    pub channel_id: u64,
}

/// The number of messages posted to a channel.
#[derive(Debug)]
pub struct MessageMetaDataValue {
    pub message_count: u64,
}

/// What someone joining a server with an invite learns of it.
#[derive(Debug)]
pub struct JoinInfoReply {
    pub server_pubkey: [u8; 32],
    pub server_id: [u8; 8],
    pub name: String,
    pub inviter_pubkey: [u8; 32],
}

/// A server, as stored.
#[derive(Debug)]
pub struct ServerInfo {
    pub pubkey: [u8; 32],
    pub name: String,
    pub joined: bool,
    pub seqno: u64,
}

/// A server, as returned to callers.
#[derive(Debug)]
pub struct ServerInfoReply {
    pub pubkey: [u8; 32],
    pub server_id: [u8; 8],
    pub name: String,
    pub seqno: u64,
}

/// The key of a channel, after its prefix.
#[derive(Debug)]
pub struct ChannelKey {
    pub server_pubkey: [u8; 32],
    pub server_id: [u8; 8],
    pub channel_id: u64,
}

/// A channel, as stored.
#[derive(Debug)]
pub struct Channel {
    pub name: String,
    pub description: String,
    pub channel_id: u64,
}

/// The key of a websocket token.
pub struct WSAuthToken {
    pub token: u128,
}

/// A signed-in session: when it began, when it was last used, and how long
/// it may go unused.
pub struct AuthInfo {
    pub creation_time: u128,
    pub last_access_time: u128,
    pub expiration_millis: u128,
}

impl View for MessageType {
    type V = MessageType;

    open spec fn view(&self) -> MessageType {
        *self
    }
}

impl Ser for MessageType {
    open spec fn spec_write(v: MessageType) -> Seq<u8> {
        match v {
            MessageType::Text => seq![0u8],
            MessageType::Binary => seq![1u8],
        }
    }

    open spec fn spec_read(s: Seq<u8>) -> Result<(MessageType, nat), ReadError> {
        match <u8 as Ser>::spec_read(s) {
            Err(e) => Err(e),
            Ok((t, n)) => Ok((if t == 0 { MessageType::Text } else { MessageType::Binary }, n)),
        }
    }

    open spec fn spec_wf(v: MessageType) -> bool {
        true
    }

    proof fn lemma_write_read(v: MessageType, rest: Seq<u8>) {
    }

    fn write(&self, out: &mut Vec<u8>) {
        match self {
            MessageType::Text => out.push(0),
            MessageType::Binary => out.push(1),
        }
    }

    fn read(buf: &[u8], pos: usize) -> (res: Result<(MessageType, usize), ReadError>) {
        let (t, p) = <u8 as Ser>::read(buf, pos)?;
        if t == 0 {
            Ok((MessageType::Text, p))
        } else {
            Ok((MessageType::Binary, p))
        }
    }
}

impl View for Profile {
    type V = (<Pubkey as View>::V, <Pubkey as View>::V, <ServerId as View>::V, <ProfileData as View>::V);

    open spec fn view(&self) -> (<Pubkey as View>::V, <Pubkey as View>::V, <ServerId as View>::V, <ProfileData as View>::V) {
        (self.user_pubkey@, self.server_pubkey@, self.server_id@, self.profile_data@)
    }
}

impl Ser for Profile {
    open spec fn spec_write(v: (<Pubkey as View>::V, <Pubkey as View>::V, <ServerId as View>::V, <ProfileData as View>::V)) -> Seq<u8> {
        <Pubkey as Ser>::spec_write(v.0) + <Pubkey as Ser>::spec_write(v.1) + <ServerId as Ser>::spec_write(v.2) + <ProfileData as Ser>::spec_write(v.3)
    }

    open spec fn spec_read(s: Seq<u8>) -> Result<((<Pubkey as View>::V, <Pubkey as View>::V, <ServerId as View>::V, <ProfileData as View>::V), nat), ReadError> {
        match <Pubkey as Ser>::spec_read(s) {
            Err(e) => Err(e),
            Ok((user_pubkey, n1)) => {
                let s1 = s.skip(n1 as int);
                match <Pubkey as Ser>::spec_read(s1) {
                    Err(e) => Err(e),
                    Ok((server_pubkey, n2)) => {
                        let s2 = s1.skip(n2 as int);
                        match <ServerId as Ser>::spec_read(s2) {
                            Err(e) => Err(e),
                            Ok((server_id, n3)) => {
                                let s3 = s2.skip(n3 as int);
                                match <ProfileData as Ser>::spec_read(s3) {
                                    Err(e) => Err(e),
                                    Ok((profile_data, n4)) => {
                                        Ok(((user_pubkey, server_pubkey, server_id, profile_data), n1 + n2 + n3 + n4))
                                    },
                                }
                            },
                        }
                    },
                }
            },
        }
    }

    open spec fn spec_wf(v: (<Pubkey as View>::V, <Pubkey as View>::V, <ServerId as View>::V, <ProfileData as View>::V)) -> bool {
        <Pubkey as Ser>::spec_wf(v.0) && <Pubkey as Ser>::spec_wf(v.1) && <ServerId as Ser>::spec_wf(v.2) && <ProfileData as Ser>::spec_wf(v.3)
    }

    proof fn lemma_write_read(v: (<Pubkey as View>::V, <Pubkey as View>::V, <ServerId as View>::V, <ProfileData as View>::V), rest: Seq<u8>) {
        let e1 = <Pubkey as Ser>::spec_write(v.0);
        let e2 = <Pubkey as Ser>::spec_write(v.1);
        let e3 = <ServerId as Ser>::spec_write(v.2);
        let e4 = <ProfileData as Ser>::spec_write(v.3);
        assert(Self::spec_write(v) + rest =~= e1 + (e2 + (e3 + (e4 + rest))));
        <Pubkey as Ser>::lemma_write_read(v.0, e2 + (e3 + (e4 + rest)));
        lemma_skip_front(e1, e2 + (e3 + (e4 + rest)));
        <Pubkey as Ser>::lemma_write_read(v.1, e3 + (e4 + rest));
        lemma_skip_front(e2, e3 + (e4 + rest));
        <ServerId as Ser>::lemma_write_read(v.2, e4 + rest);
        lemma_skip_front(e3, e4 + rest);
        <ProfileData as Ser>::lemma_write_read(v.3, rest);
    }

    fn write(&self, out: &mut Vec<u8>) {
        let ghost start = out@;
        self.user_pubkey.write(out);
        self.server_pubkey.write(out);
        self.server_id.write(out);
        self.profile_data.write(out);
        assert(out@ =~= start + Self::spec_write(self@));
    }

    fn read(buf: &[u8], pos: usize) -> (res: Result<(Profile, usize), ReadError>) {
        let (user_pubkey, p1) = <Pubkey as Ser>::read(buf, pos)?;
        proof {
            lemma_from_pos_skip(buf@, pos as int, p1 as int);
        }
        let (server_pubkey, p2) = <Pubkey as Ser>::read(buf, p1)?;
        proof {
            lemma_from_pos_skip(buf@, p1 as int, p2 as int);
        }
        let (server_id, p3) = <ServerId as Ser>::read(buf, p2)?;
        proof {
            lemma_from_pos_skip(buf@, p2 as int, p3 as int);
        }
        let (profile_data, p4) = <ProfileData as Ser>::read(buf, p3)?;
        Ok((Profile { user_pubkey, server_pubkey, server_id, profile_data }, p4))
    }
}

impl View for ProfileKey {
    type V = (<Pubkey as View>::V, <Pubkey as View>::V, <ServerId as View>::V);

    open spec fn view(&self) -> (<Pubkey as View>::V, <Pubkey as View>::V, <ServerId as View>::V) {
        (self.user_pubkey@, self.server_pubkey@, self.server_id@)
    }
}

impl Ser for ProfileKey {
    open spec fn spec_write(v: (<Pubkey as View>::V, <Pubkey as View>::V, <ServerId as View>::V)) -> Seq<u8> {
        seq![PROFILE_PREFIX] + <Pubkey as Ser>::spec_write(v.0) + <Pubkey as Ser>::spec_write(v.1) + <ServerId as Ser>::spec_write(v.2)
    }

    open spec fn spec_read(s: Seq<u8>) -> Result<((<Pubkey as View>::V, <Pubkey as View>::V, <ServerId as View>::V), nat), ReadError> {
        match <u8 as Ser>::spec_read(s) {
            Err(e) => Err(e),
            Ok((_, n1)) => {
                let s1 = s.skip(n1 as int);
                match <Pubkey as Ser>::spec_read(s1) {
                    Err(e) => Err(e),
                    Ok((user_pubkey, n2)) => {
                        let s2 = s1.skip(n2 as int);
                        match <Pubkey as Ser>::spec_read(s2) {
                            Err(e) => Err(e),
                            Ok((server_pubkey, n3)) => {
                                let s3 = s2.skip(n3 as int);
                                match <ServerId as Ser>::spec_read(s3) {
                                    Err(e) => Err(e),
                                    Ok((server_id, n4)) => {
                                        Ok(((user_pubkey, server_pubkey, server_id), n1 + n2 + n3 + n4))
                                    },
                                }
                            },
                        }
                    },
                }
            },
        }
    }

    open spec fn spec_wf(v: (<Pubkey as View>::V, <Pubkey as View>::V, <ServerId as View>::V)) -> bool {
        <Pubkey as Ser>::spec_wf(v.0) && <Pubkey as Ser>::spec_wf(v.1) && <ServerId as Ser>::spec_wf(v.2)
    }

    proof fn lemma_write_read(v: (<Pubkey as View>::V, <Pubkey as View>::V, <ServerId as View>::V), rest: Seq<u8>) {
        let e1 = seq![PROFILE_PREFIX];
        let e2 = <Pubkey as Ser>::spec_write(v.0);
        let e3 = <Pubkey as Ser>::spec_write(v.1);
        let e4 = <ServerId as Ser>::spec_write(v.2);
        assert(Self::spec_write(v) + rest =~= e1 + (e2 + (e3 + (e4 + rest))));
        <u8 as Ser>::lemma_write_read(PROFILE_PREFIX, e2 + (e3 + (e4 + rest)));
        lemma_skip_front(e1, e2 + (e3 + (e4 + rest)));
        <Pubkey as Ser>::lemma_write_read(v.0, e3 + (e4 + rest));
        lemma_skip_front(e2, e3 + (e4 + rest));
        <Pubkey as Ser>::lemma_write_read(v.1, e4 + rest);
        lemma_skip_front(e3, e4 + rest);
        <ServerId as Ser>::lemma_write_read(v.2, rest);
    }

    fn write(&self, out: &mut Vec<u8>) {
        let ghost start = out@;
        out.push(PROFILE_PREFIX);
        self.user_pubkey.write(out);
        self.server_pubkey.write(out);
        self.server_id.write(out);
        assert(out@ =~= start + Self::spec_write(self@));
    }

    fn read(buf: &[u8], pos: usize) -> (res: Result<(ProfileKey, usize), ReadError>) {
        let (_, p1) = <u8 as Ser>::read(buf, pos)?;
        proof {
            lemma_from_pos_skip(buf@, pos as int, p1 as int);
        }
        let (user_pubkey, p2) = <Pubkey as Ser>::read(buf, p1)?;
        proof {
            lemma_from_pos_skip(buf@, p1 as int, p2 as int);
        }
        let (server_pubkey, p3) = <Pubkey as Ser>::read(buf, p2)?;
        proof {
            lemma_from_pos_skip(buf@, p2 as int, p3 as int);
        }
        let (server_id, p4) = <ServerId as Ser>::read(buf, p3)?;
        Ok((ProfileKey { user_pubkey, server_pubkey, server_id }, p4))
    }
}

impl View for AuthToken {
    type V = u128;

    open spec fn view(&self) -> u128 {
        self.auth_token
    }
}

impl Ser for AuthToken {
    open spec fn spec_write(v: u128) -> Seq<u8> {
        <u128 as Ser>::spec_write(v)
    }

    open spec fn spec_read(s: Seq<u8>) -> Result<(u128, nat), ReadError> {
        match <u128 as Ser>::spec_read(s) {
            Err(e) => Err(e),
            Ok((auth_token, n1)) => {
                Ok((auth_token, n1))
            },
        }
    }

    open spec fn spec_wf(v: u128) -> bool {
        true
    }

    proof fn lemma_write_read(v: u128, rest: Seq<u8>) {
        let e1 = <u128 as Ser>::spec_write(v);
        assert(Self::spec_write(v) + rest =~= e1 + rest);
        <u128 as Ser>::lemma_write_read(v, rest);
    }

    fn write(&self, out: &mut Vec<u8>) {
        let ghost start = out@;
        self.auth_token.write(out);
        assert(out@ =~= start + Self::spec_write(self@));
    }

    fn read(buf: &[u8], pos: usize) -> (res: Result<(AuthToken, usize), ReadError>) {
        let (auth_token, p1) = <u128 as Ser>::read(buf, pos)?;
        Ok((AuthToken { auth_token }, p1))
    }
}

impl View for UserPubKey {
    type V = Seq<u8>;

    open spec fn view(&self) -> Seq<u8> {
        self.user_pubkey@
    }
}

impl Ser for UserPubKey {
    open spec fn spec_write(v: Seq<u8>) -> Seq<u8> {
        <[u8; 32] as Ser>::spec_write(v)
    }

    open spec fn spec_read(s: Seq<u8>) -> Result<(Seq<u8>, nat), ReadError> {
        match <[u8; 32] as Ser>::spec_read(s) {
            Err(e) => Err(e),
            Ok((user_pubkey, n1)) => {
                Ok((user_pubkey, n1))
            },
        }
    }

    open spec fn spec_wf(v: Seq<u8>) -> bool {
        v.len() == 32
    }

    proof fn lemma_write_read(v: Seq<u8>, rest: Seq<u8>) {
        let e1 = <[u8; 32] as Ser>::spec_write(v);
        assert(Self::spec_write(v) + rest =~= e1 + rest);
        <[u8; 32] as Ser>::lemma_write_read(v, rest);
    }

    fn write(&self, out: &mut Vec<u8>) {
        let ghost start = out@;
        self.user_pubkey.write(out);
        assert(out@ =~= start + Self::spec_write(self@));
    }

    fn read(buf: &[u8], pos: usize) -> (res: Result<(UserPubKey, usize), ReadError>) {
        let (user_pubkey, p1) = <[u8; 32] as Ser>::read(buf, pos)?;
        Ok((UserPubKey { user_pubkey }, p1))
    }
}

impl View for Challenge {
    type V = Seq<u8>;

    open spec fn view(&self) -> Seq<u8> {
        self.challenge@
    }
}

impl Ser for Challenge {
    open spec fn spec_write(v: Seq<u8>) -> Seq<u8> {
        <[u8; 8] as Ser>::spec_write(v)
    }

    open spec fn spec_read(s: Seq<u8>) -> Result<(Seq<u8>, nat), ReadError> {
        match <[u8; 8] as Ser>::spec_read(s) {
            Err(e) => Err(e),
            Ok((challenge, n1)) => {
                Ok((challenge, n1))
            },
        }
    }

    open spec fn spec_wf(v: Seq<u8>) -> bool {
        v.len() == 8
    }

    proof fn lemma_write_read(v: Seq<u8>, rest: Seq<u8>) {
        let e1 = <[u8; 8] as Ser>::spec_write(v);
        assert(Self::spec_write(v) + rest =~= e1 + rest);
        <[u8; 8] as Ser>::lemma_write_read(v, rest);
    }

    fn write(&self, out: &mut Vec<u8>) {
        let ghost start = out@;
        self.challenge.write(out);
        assert(out@ =~= start + Self::spec_write(self@));
    }

    fn read(buf: &[u8], pos: usize) -> (res: Result<(Challenge, usize), ReadError>) {
        let (challenge, p1) = <[u8; 8] as Ser>::read(buf, pos)?;
        Ok((Challenge { challenge }, p1))
    }
}

impl View for InviteKey {
    type V = (Seq<u8>, Seq<u8>, u128);

    open spec fn view(&self) -> (Seq<u8>, Seq<u8>, u128) {
        (self.server_id@, self.inviter@, self.id)
    }
}

impl Ser for InviteKey {
    open spec fn spec_write(v: (Seq<u8>, Seq<u8>, u128)) -> Seq<u8> {
        <[u8; 8] as Ser>::spec_write(v.0) + <[u8; 32] as Ser>::spec_write(v.1) + <u128 as Ser>::spec_write(v.2)
    }

    open spec fn spec_read(s: Seq<u8>) -> Result<((Seq<u8>, Seq<u8>, u128), nat), ReadError> {
        match <[u8; 8] as Ser>::spec_read(s) {
            Err(e) => Err(e),
            Ok((server_id, n1)) => {
                let s1 = s.skip(n1 as int);
                match <[u8; 32] as Ser>::spec_read(s1) {
                    Err(e) => Err(e),
                    Ok((inviter, n2)) => {
                        let s2 = s1.skip(n2 as int);
                        match <u128 as Ser>::spec_read(s2) {
                            Err(e) => Err(e),
                            Ok((id, n3)) => {
                                Ok(((server_id, inviter, id), n1 + n2 + n3))
                            },
                        }
                    },
                }
            },
        }
    }

    open spec fn spec_wf(v: (Seq<u8>, Seq<u8>, u128)) -> bool {
        v.0.len() == 8 && v.1.len() == 32
    }

    proof fn lemma_write_read(v: (Seq<u8>, Seq<u8>, u128), rest: Seq<u8>) {
        let e1 = <[u8; 8] as Ser>::spec_write(v.0);
        let e2 = <[u8; 32] as Ser>::spec_write(v.1);
        let e3 = <u128 as Ser>::spec_write(v.2);
        assert(Self::spec_write(v) + rest =~= e1 + (e2 + (e3 + rest)));
        <[u8; 8] as Ser>::lemma_write_read(v.0, e2 + (e3 + rest));
        lemma_skip_front(e1, e2 + (e3 + rest));
        <[u8; 32] as Ser>::lemma_write_read(v.1, e3 + rest);
        lemma_skip_front(e2, e3 + rest);
        <u128 as Ser>::lemma_write_read(v.2, rest);
    }

    fn write(&self, out: &mut Vec<u8>) {
        let ghost start = out@;
        self.server_id.write(out);
        self.inviter.write(out);
        self.id.write(out);
        assert(out@ =~= start + Self::spec_write(self@));
    }

    fn read(buf: &[u8], pos: usize) -> (res: Result<(InviteKey, usize), ReadError>) {
        let (server_id, p1) = <[u8; 8] as Ser>::read(buf, pos)?;
        proof {
            lemma_from_pos_skip(buf@, pos as int, p1 as int);
        }
        let (inviter, p2) = <[u8; 32] as Ser>::read(buf, p1)?;
        proof {
            lemma_from_pos_skip(buf@, p1 as int, p2 as int);
        }
        let (id, p3) = <u128 as Ser>::read(buf, p2)?;
        Ok((InviteKey { server_id, inviter, id }, p3))
    }
}

impl View for MemberMetaDataKey {
    type V = (<Pubkey as View>::V, <ServerId as View>::V);

    open spec fn view(&self) -> (<Pubkey as View>::V, <ServerId as View>::V) {
        (self.server_pubkey@, self.server_id@)
    }
}

impl Ser for MemberMetaDataKey {
    open spec fn spec_write(v: (<Pubkey as View>::V, <ServerId as View>::V)) -> Seq<u8> {
        seq![MEMBER_META_DATA_PREFIX] + <Pubkey as Ser>::spec_write(v.0) + <ServerId as Ser>::spec_write(v.1)
    }

    open spec fn spec_read(s: Seq<u8>) -> Result<((<Pubkey as View>::V, <ServerId as View>::V), nat), ReadError> {
        match <u8 as Ser>::spec_read(s) {
            Err(e) => Err(e),
            Ok((_, n1)) => {
                let s1 = s.skip(n1 as int);
                match <Pubkey as Ser>::spec_read(s1) {
                    Err(e) => Err(e),
                    Ok((server_pubkey, n2)) => {
                        let s2 = s1.skip(n2 as int);
                        match <ServerId as Ser>::spec_read(s2) {
                            Err(e) => Err(e),
                            Ok((server_id, n3)) => {
                                Ok(((server_pubkey, server_id), n1 + n2 + n3))
                            },
                        }
                    },
                }
            },
        }
    }

    open spec fn spec_wf(v: (<Pubkey as View>::V, <ServerId as View>::V)) -> bool {
        <Pubkey as Ser>::spec_wf(v.0) && <ServerId as Ser>::spec_wf(v.1)
    }

    proof fn lemma_write_read(v: (<Pubkey as View>::V, <ServerId as View>::V), rest: Seq<u8>) {
        let e1 = seq![MEMBER_META_DATA_PREFIX];
        let e2 = <Pubkey as Ser>::spec_write(v.0);
        let e3 = <ServerId as Ser>::spec_write(v.1);
        assert(Self::spec_write(v) + rest =~= e1 + (e2 + (e3 + rest)));
        <u8 as Ser>::lemma_write_read(MEMBER_META_DATA_PREFIX, e2 + (e3 + rest));
        lemma_skip_front(e1, e2 + (e3 + rest));
        <Pubkey as Ser>::lemma_write_read(v.0, e3 + rest);
        lemma_skip_front(e2, e3 + rest);
        <ServerId as Ser>::lemma_write_read(v.1, rest);
    }

    fn write(&self, out: &mut Vec<u8>) {
        let ghost start = out@;
        out.push(MEMBER_META_DATA_PREFIX);
        self.server_pubkey.write(out);
        self.server_id.write(out);
        assert(out@ =~= start + Self::spec_write(self@));
    }

    fn read(buf: &[u8], pos: usize) -> (res: Result<(MemberMetaDataKey, usize), ReadError>) {
        let (_, p1) = <u8 as Ser>::read(buf, pos)?;
        proof {
            lemma_from_pos_skip(buf@, pos as int, p1 as int);
        }
        let (server_pubkey, p2) = <Pubkey as Ser>::read(buf, p1)?;
        proof {
            lemma_from_pos_skip(buf@, p1 as int, p2 as int);
        }
        let (server_id, p3) = <ServerId as Ser>::read(buf, p2)?;
        Ok((MemberMetaDataKey { server_pubkey, server_id }, p3))
    }
}

impl View for MemberMetaDataValue {
    type V = u64;

    open spec fn view(&self) -> u64 {
        self.member_count
    }
}

impl Ser for MemberMetaDataValue {
    open spec fn spec_write(v: u64) -> Seq<u8> {
        <u64 as Ser>::spec_write(v)
    }

    open spec fn spec_read(s: Seq<u8>) -> Result<(u64, nat), ReadError> {
        match <u64 as Ser>::spec_read(s) {
            Err(e) => Err(e),
            Ok((member_count, n1)) => {
                Ok((member_count, n1))
            },
        }
    }

    open spec fn spec_wf(v: u64) -> bool {
        true
    }

    proof fn lemma_write_read(v: u64, rest: Seq<u8>) {
        let e1 = <u64 as Ser>::spec_write(v);
        assert(Self::spec_write(v) + rest =~= e1 + rest);
        <u64 as Ser>::lemma_write_read(v, rest);
    }

    fn write(&self, out: &mut Vec<u8>) {
        let ghost start = out@;
        self.member_count.write(out);
        assert(out@ =~= start + Self::spec_write(self@));
    }

    fn read(buf: &[u8], pos: usize) -> (res: Result<(MemberMetaDataValue, usize), ReadError>) {
        let (member_count, p1) = <u64 as Ser>::read(buf, pos)?;
        Ok((MemberMetaDataValue { member_count }, p1))
    }
}

impl View for MemberKeyIttImpl {
    type V = (<Pubkey as View>::V, <ServerId as View>::V, u64, u64, <Pubkey as View>::V);

    open spec fn view(&self) -> (<Pubkey as View>::V, <ServerId as View>::V, u64, u64, <Pubkey as View>::V) {
        (self.server_pubkey@, self.server_id@, self.batch_num, self.join_time, self.user_pubkey@)
    }
}

impl Ser for MemberKeyIttImpl {
    open spec fn spec_write(v: (<Pubkey as View>::V, <ServerId as View>::V, u64, u64, <Pubkey as View>::V)) -> Seq<u8> {
        seq![MEMBER_ITT_PREFIX] + <Pubkey as Ser>::spec_write(v.0) + <ServerId as Ser>::spec_write(v.1) + <u64 as Ser>::spec_write(v.2) + <u64 as Ser>::spec_write(v.3) + <Pubkey as Ser>::spec_write(v.4)
    }

    open spec fn spec_read(s: Seq<u8>) -> Result<((<Pubkey as View>::V, <ServerId as View>::V, u64, u64, <Pubkey as View>::V), nat), ReadError> {
        match <u8 as Ser>::spec_read(s) {
            Err(e) => Err(e),
            Ok((_, n1)) => {
                let s1 = s.skip(n1 as int);
                match <Pubkey as Ser>::spec_read(s1) {
                    Err(e) => Err(e),
                    Ok((server_pubkey, n2)) => {
                        let s2 = s1.skip(n2 as int);
                        match <ServerId as Ser>::spec_read(s2) {
                            Err(e) => Err(e),
                            Ok((server_id, n3)) => {
                                let s3 = s2.skip(n3 as int);
                                match <u64 as Ser>::spec_read(s3) {
                                    Err(e) => Err(e),
                                    Ok((batch_num, n4)) => {
                                        let s4 = s3.skip(n4 as int);
                                        match <u64 as Ser>::spec_read(s4) {
                                            Err(e) => Err(e),
                                            Ok((join_time, n5)) => {
                                                let s5 = s4.skip(n5 as int);
                                                match <Pubkey as Ser>::spec_read(s5) {
                                                    Err(e) => Err(e),
                                                    Ok((user_pubkey, n6)) => {
                                                        Ok(((server_pubkey, server_id, batch_num, join_time, user_pubkey), n1 + n2 + n3 + n4 + n5 + n6))
                                                    },
                                                }
                                            },
                                        }
                                    },
                                }
                            },
                        }
                    },
                }
            },
        }
    }

    open spec fn spec_wf(v: (<Pubkey as View>::V, <ServerId as View>::V, u64, u64, <Pubkey as View>::V)) -> bool {
        <Pubkey as Ser>::spec_wf(v.0) && <ServerId as Ser>::spec_wf(v.1) && <Pubkey as Ser>::spec_wf(v.4)
    }

    proof fn lemma_write_read(v: (<Pubkey as View>::V, <ServerId as View>::V, u64, u64, <Pubkey as View>::V), rest: Seq<u8>) {
        let e1 = seq![MEMBER_ITT_PREFIX];
        let e2 = <Pubkey as Ser>::spec_write(v.0);
        let e3 = <ServerId as Ser>::spec_write(v.1);
        let e4 = <u64 as Ser>::spec_write(v.2);
        let e5 = <u64 as Ser>::spec_write(v.3);
        let e6 = <Pubkey as Ser>::spec_write(v.4);
        assert(Self::spec_write(v) + rest =~= e1 + (e2 + (e3 + (e4 + (e5 + (e6 + rest))))));
        <u8 as Ser>::lemma_write_read(MEMBER_ITT_PREFIX, e2 + (e3 + (e4 + (e5 + (e6 + rest)))));
        lemma_skip_front(e1, e2 + (e3 + (e4 + (e5 + (e6 + rest)))));
        <Pubkey as Ser>::lemma_write_read(v.0, e3 + (e4 + (e5 + (e6 + rest))));
        lemma_skip_front(e2, e3 + (e4 + (e5 + (e6 + rest))));
        <ServerId as Ser>::lemma_write_read(v.1, e4 + (e5 + (e6 + rest)));
        lemma_skip_front(e3, e4 + (e5 + (e6 + rest)));
        <u64 as Ser>::lemma_write_read(v.2, e5 + (e6 + rest));
        lemma_skip_front(e4, e5 + (e6 + rest));
        <u64 as Ser>::lemma_write_read(v.3, e6 + rest);
        lemma_skip_front(e5, e6 + rest);
        <Pubkey as Ser>::lemma_write_read(v.4, rest);
    }

    fn write(&self, out: &mut Vec<u8>) {
        let ghost start = out@;
        out.push(MEMBER_ITT_PREFIX);
        self.server_pubkey.write(out);
        self.server_id.write(out);
        self.batch_num.write(out);
        self.join_time.write(out);
        self.user_pubkey.write(out);
        assert(out@ =~= start + Self::spec_write(self@));
    }

    fn read(buf: &[u8], pos: usize) -> (res: Result<(MemberKeyIttImpl, usize), ReadError>) {
        let (_, p1) = <u8 as Ser>::read(buf, pos)?;
        proof {
            lemma_from_pos_skip(buf@, pos as int, p1 as int);
        }
        let (server_pubkey, p2) = <Pubkey as Ser>::read(buf, p1)?;
        proof {
            lemma_from_pos_skip(buf@, p1 as int, p2 as int);
        }
        let (server_id, p3) = <ServerId as Ser>::read(buf, p2)?;
        proof {
            lemma_from_pos_skip(buf@, p2 as int, p3 as int);
        }
        let (batch_num, p4) = <u64 as Ser>::read(buf, p3)?;
        proof {
            lemma_from_pos_skip(buf@, p3 as int, p4 as int);
        }
        let (join_time, p5) = <u64 as Ser>::read(buf, p4)?;
        proof {
            lemma_from_pos_skip(buf@, p4 as int, p5 as int);
        }
        let (user_pubkey, p6) = <Pubkey as Ser>::read(buf, p5)?;
        Ok((MemberKeyIttImpl { server_pubkey, server_id, batch_num, join_time, user_pubkey }, p6))
    }
}

impl View for MemberKeyHashImpl {
    type V = (<Pubkey as View>::V, <ServerId as View>::V, <Pubkey as View>::V);

    open spec fn view(&self) -> (<Pubkey as View>::V, <ServerId as View>::V, <Pubkey as View>::V) {
        (self.server_pubkey@, self.server_id@, self.user_pubkey@)
    }
}

impl Ser for MemberKeyHashImpl {
    open spec fn spec_write(v: (<Pubkey as View>::V, <ServerId as View>::V, <Pubkey as View>::V)) -> Seq<u8> {
        seq![MEMBER_HASH_PREFIX] + <Pubkey as Ser>::spec_write(v.0) + <ServerId as Ser>::spec_write(v.1) + <Pubkey as Ser>::spec_write(v.2)
    }

    open spec fn spec_read(s: Seq<u8>) -> Result<((<Pubkey as View>::V, <ServerId as View>::V, <Pubkey as View>::V), nat), ReadError> {
        match <u8 as Ser>::spec_read(s) {
            Err(e) => Err(e),
            Ok((_, n1)) => {
                let s1 = s.skip(n1 as int);
                match <Pubkey as Ser>::spec_read(s1) {
                    Err(e) => Err(e),
                    Ok((server_pubkey, n2)) => {
                        let s2 = s1.skip(n2 as int);
                        match <ServerId as Ser>::spec_read(s2) {
                            Err(e) => Err(e),
                            Ok((server_id, n3)) => {
                                let s3 = s2.skip(n3 as int);
                                match <Pubkey as Ser>::spec_read(s3) {
                                    Err(e) => Err(e),
                                    Ok((user_pubkey, n4)) => {
                                        Ok(((server_pubkey, server_id, user_pubkey), n1 + n2 + n3 + n4))
                                    },
                                }
                            },
                        }
                    },
                }
            },
        }
    }

    open spec fn spec_wf(v: (<Pubkey as View>::V, <ServerId as View>::V, <Pubkey as View>::V)) -> bool {
        <Pubkey as Ser>::spec_wf(v.0) && <ServerId as Ser>::spec_wf(v.1) && <Pubkey as Ser>::spec_wf(v.2)
    }

    proof fn lemma_write_read(v: (<Pubkey as View>::V, <ServerId as View>::V, <Pubkey as View>::V), rest: Seq<u8>) {
        let e1 = seq![MEMBER_HASH_PREFIX];
        let e2 = <Pubkey as Ser>::spec_write(v.0);
        let e3 = <ServerId as Ser>::spec_write(v.1);
        let e4 = <Pubkey as Ser>::spec_write(v.2);
        assert(Self::spec_write(v) + rest =~= e1 + (e2 + (e3 + (e4 + rest))));
        <u8 as Ser>::lemma_write_read(MEMBER_HASH_PREFIX, e2 + (e3 + (e4 + rest)));
        lemma_skip_front(e1, e2 + (e3 + (e4 + rest)));
        <Pubkey as Ser>::lemma_write_read(v.0, e3 + (e4 + rest));
        lemma_skip_front(e2, e3 + (e4 + rest));
        <ServerId as Ser>::lemma_write_read(v.1, e4 + rest);
        lemma_skip_front(e3, e4 + rest);
        <Pubkey as Ser>::lemma_write_read(v.2, rest);
    }

    fn write(&self, out: &mut Vec<u8>) {
        let ghost start = out@;
        out.push(MEMBER_HASH_PREFIX);
        self.server_pubkey.write(out);
        self.server_id.write(out);
        self.user_pubkey.write(out);
        assert(out@ =~= start + Self::spec_write(self@));
    }

    fn read(buf: &[u8], pos: usize) -> (res: Result<(MemberKeyHashImpl, usize), ReadError>) {
        let (_, p1) = <u8 as Ser>::read(buf, pos)?;
        proof {
            lemma_from_pos_skip(buf@, pos as int, p1 as int);
        }
        let (server_pubkey, p2) = <Pubkey as Ser>::read(buf, p1)?;
        proof {
            lemma_from_pos_skip(buf@, p1 as int, p2 as int);
        }
        let (server_id, p3) = <ServerId as Ser>::read(buf, p2)?;
        proof {
            lemma_from_pos_skip(buf@, p2 as int, p3 as int);
        }
        let (user_pubkey, p4) = <Pubkey as Ser>::read(buf, p3)?;
        Ok((MemberKeyHashImpl { server_pubkey, server_id, user_pubkey }, p4))
    }
}

impl View for MemberKeyAuthImpl {
    type V = (<Pubkey as View>::V, <ServerId as View>::V, u128, u64, u64, <Pubkey as View>::V);

    open spec fn view(&self) -> (<Pubkey as View>::V, <ServerId as View>::V, u128, u64, u64, <Pubkey as View>::V) {
        (self.server_pubkey@, self.server_id@, self.roles, self.batch_num, self.join_time, self.user_pubkey@)
    }
}

impl Ser for MemberKeyAuthImpl {
    open spec fn spec_write(v: (<Pubkey as View>::V, <ServerId as View>::V, u128, u64, u64, <Pubkey as View>::V)) -> Seq<u8> {
        seq![MEMBER_AUTH_PREFIX] + <Pubkey as Ser>::spec_write(v.0) + <ServerId as Ser>::spec_write(v.1) + <u64 as Ser>::spec_write(v.3) + <u128 as Ser>::spec_write(v.2) + <u64 as Ser>::spec_write(v.4) + <Pubkey as Ser>::spec_write(v.5)
    }

    open spec fn spec_read(s: Seq<u8>) -> Result<((<Pubkey as View>::V, <ServerId as View>::V, u128, u64, u64, <Pubkey as View>::V), nat), ReadError> {
        match <u8 as Ser>::spec_read(s) {
            Err(e) => Err(e),
            Ok((_, n1)) => {
                let s1 = s.skip(n1 as int);
                match <Pubkey as Ser>::spec_read(s1) {
                    Err(e) => Err(e),
                    Ok((server_pubkey, n2)) => {
                        let s2 = s1.skip(n2 as int);
                        match <ServerId as Ser>::spec_read(s2) {
                            Err(e) => Err(e),
                            Ok((server_id, n3)) => {
                                let s3 = s2.skip(n3 as int);
                                match <u64 as Ser>::spec_read(s3) {
                                    Err(e) => Err(e),
                                    Ok((batch_num, n4)) => {
                                        let s4 = s3.skip(n4 as int);
                                        match <u128 as Ser>::spec_read(s4) {
                                            Err(e) => Err(e),
                                            Ok((roles, n5)) => {
                                                let s5 = s4.skip(n5 as int);
                                                match <u64 as Ser>::spec_read(s5) {
                                                    Err(e) => Err(e),
                                                    Ok((join_time, n6)) => {
                                                        let s6 = s5.skip(n6 as int);
                                                        match <Pubkey as Ser>::spec_read(s6) {
                                                            Err(e) => Err(e),
                                                            Ok((user_pubkey, n7)) => {
                                                                Ok(((server_pubkey, server_id, roles, batch_num, join_time, user_pubkey), n1 + n2 + n3 + n4 + n5 + n6 + n7))
                                                            },
                                                        }
                                                    },
                                                }
                                            },
                                        }
                                    },
                                }
                            },
                        }
                    },
                }
            },
        }
    }

    open spec fn spec_wf(v: (<Pubkey as View>::V, <ServerId as View>::V, u128, u64, u64, <Pubkey as View>::V)) -> bool {
        <Pubkey as Ser>::spec_wf(v.0) && <ServerId as Ser>::spec_wf(v.1) && <Pubkey as Ser>::spec_wf(v.5)
    }

    proof fn lemma_write_read(v: (<Pubkey as View>::V, <ServerId as View>::V, u128, u64, u64, <Pubkey as View>::V), rest: Seq<u8>) {
        let e1 = seq![MEMBER_AUTH_PREFIX];
        let e2 = <Pubkey as Ser>::spec_write(v.0);
        let e3 = <ServerId as Ser>::spec_write(v.1);
        let e4 = <u64 as Ser>::spec_write(v.3);
        let e5 = <u128 as Ser>::spec_write(v.2);
        let e6 = <u64 as Ser>::spec_write(v.4);
        let e7 = <Pubkey as Ser>::spec_write(v.5);
        assert(Self::spec_write(v) + rest =~= e1 + (e2 + (e3 + (e4 + (e5 + (e6 + (e7 + rest)))))));
        <u8 as Ser>::lemma_write_read(MEMBER_AUTH_PREFIX, e2 + (e3 + (e4 + (e5 + (e6 + (e7 + rest))))));
        lemma_skip_front(e1, e2 + (e3 + (e4 + (e5 + (e6 + (e7 + rest))))));
        <Pubkey as Ser>::lemma_write_read(v.0, e3 + (e4 + (e5 + (e6 + (e7 + rest)))));
        lemma_skip_front(e2, e3 + (e4 + (e5 + (e6 + (e7 + rest)))));
        <ServerId as Ser>::lemma_write_read(v.1, e4 + (e5 + (e6 + (e7 + rest))));
        lemma_skip_front(e3, e4 + (e5 + (e6 + (e7 + rest))));
        <u64 as Ser>::lemma_write_read(v.3, e5 + (e6 + (e7 + rest)));
        lemma_skip_front(e4, e5 + (e6 + (e7 + rest)));
        <u128 as Ser>::lemma_write_read(v.2, e6 + (e7 + rest));
        lemma_skip_front(e5, e6 + (e7 + rest));
        <u64 as Ser>::lemma_write_read(v.4, e7 + rest);
        lemma_skip_front(e6, e7 + rest);
        <Pubkey as Ser>::lemma_write_read(v.5, rest);
    }

    fn write(&self, out: &mut Vec<u8>) {
        let ghost start = out@;
        out.push(MEMBER_AUTH_PREFIX);
        self.server_pubkey.write(out);
        self.server_id.write(out);
        self.batch_num.write(out);
        self.roles.write(out);
        self.join_time.write(out);
        self.user_pubkey.write(out);
        assert(out@ =~= start + Self::spec_write(self@));
    }

    fn read(buf: &[u8], pos: usize) -> (res: Result<(MemberKeyAuthImpl, usize), ReadError>) {
        let (_, p1) = <u8 as Ser>::read(buf, pos)?;
        proof {
            lemma_from_pos_skip(buf@, pos as int, p1 as int);
        }
        let (server_pubkey, p2) = <Pubkey as Ser>::read(buf, p1)?;
        proof {
            lemma_from_pos_skip(buf@, p1 as int, p2 as int);
        }
        let (server_id, p3) = <ServerId as Ser>::read(buf, p2)?;
        proof {
            lemma_from_pos_skip(buf@, p2 as int, p3 as int);
        }
        let (batch_num, p4) = <u64 as Ser>::read(buf, p3)?;
        proof {
            lemma_from_pos_skip(buf@, p3 as int, p4 as int);
        }
        let (roles, p5) = <u128 as Ser>::read(buf, p4)?;
        proof {
            lemma_from_pos_skip(buf@, p4 as int, p5 as int);
        }
        let (join_time, p6) = <u64 as Ser>::read(buf, p5)?;
        proof {
            lemma_from_pos_skip(buf@, p5 as int, p6 as int);
        }
        let (user_pubkey, p7) = <Pubkey as Ser>::read(buf, p6)?;
        Ok((MemberKeyAuthImpl { server_pubkey, server_id, roles, batch_num, join_time, user_pubkey }, p7))
    }
}

impl View for MemberBatchLookupKeyImpl {
    type V = (<Pubkey as View>::V, <ServerId as View>::V, u64);

    open spec fn view(&self) -> (<Pubkey as View>::V, <ServerId as View>::V, u64) {
        (self.server_pubkey@, self.server_id@, self.batch_num)
    }
}

impl Ser for MemberBatchLookupKeyImpl {
    open spec fn spec_write(v: (<Pubkey as View>::V, <ServerId as View>::V, u64)) -> Seq<u8> {
        seq![MEMBER_ITT_PREFIX] + <Pubkey as Ser>::spec_write(v.0) + <ServerId as Ser>::spec_write(v.1) + <u64 as Ser>::spec_write(v.2)
    }

    open spec fn spec_read(s: Seq<u8>) -> Result<((<Pubkey as View>::V, <ServerId as View>::V, u64), nat), ReadError> {
        match <u8 as Ser>::spec_read(s) {
            Err(e) => Err(e),
            Ok((_, n1)) => {
                let s1 = s.skip(n1 as int);
                match <Pubkey as Ser>::spec_read(s1) {
                    Err(e) => Err(e),
                    Ok((server_pubkey, n2)) => {
                        let s2 = s1.skip(n2 as int);
                        match <ServerId as Ser>::spec_read(s2) {
                            Err(e) => Err(e),
                            Ok((server_id, n3)) => {
                                let s3 = s2.skip(n3 as int);
                                match <u64 as Ser>::spec_read(s3) {
                                    Err(e) => Err(e),
                                    Ok((batch_num, n4)) => {
                                        Ok(((server_pubkey, server_id, batch_num), n1 + n2 + n3 + n4))
                                    },
                                }
                            },
                        }
                    },
                }
            },
        }
    }

    open spec fn spec_wf(v: (<Pubkey as View>::V, <ServerId as View>::V, u64)) -> bool {
        <Pubkey as Ser>::spec_wf(v.0) && <ServerId as Ser>::spec_wf(v.1)
    }

    proof fn lemma_write_read(v: (<Pubkey as View>::V, <ServerId as View>::V, u64), rest: Seq<u8>) {
        let e1 = seq![MEMBER_ITT_PREFIX];
        let e2 = <Pubkey as Ser>::spec_write(v.0);
        let e3 = <ServerId as Ser>::spec_write(v.1);
        let e4 = <u64 as Ser>::spec_write(v.2);
        assert(Self::spec_write(v) + rest =~= e1 + (e2 + (e3 + (e4 + rest))));
        <u8 as Ser>::lemma_write_read(MEMBER_ITT_PREFIX, e2 + (e3 + (e4 + rest)));
        lemma_skip_front(e1, e2 + (e3 + (e4 + rest)));
        <Pubkey as Ser>::lemma_write_read(v.0, e3 + (e4 + rest));
        lemma_skip_front(e2, e3 + (e4 + rest));
        <ServerId as Ser>::lemma_write_read(v.1, e4 + rest);
        lemma_skip_front(e3, e4 + rest);
        <u64 as Ser>::lemma_write_read(v.2, rest);
    }

    fn write(&self, out: &mut Vec<u8>) {
        let ghost start = out@;
        out.push(MEMBER_ITT_PREFIX);
        self.server_pubkey.write(out);
        self.server_id.write(out);
        self.batch_num.write(out);
        assert(out@ =~= start + Self::spec_write(self@));
    }

    fn read(buf: &[u8], pos: usize) -> (res: Result<(MemberBatchLookupKeyImpl, usize), ReadError>) {
        let (_, p1) = <u8 as Ser>::read(buf, pos)?;
        proof {
            lemma_from_pos_skip(buf@, pos as int, p1 as int);
        }
        let (server_pubkey, p2) = <Pubkey as Ser>::read(buf, p1)?;
        proof {
            lemma_from_pos_skip(buf@, p1 as int, p2 as int);
        }
        let (server_id, p3) = <ServerId as Ser>::read(buf, p2)?;
        proof {
            lemma_from_pos_skip(buf@, p2 as int, p3 as int);
        }
        let (batch_num, p4) = <u64 as Ser>::read(buf, p3)?;
        Ok((MemberBatchLookupKeyImpl { server_pubkey, server_id, batch_num }, p4))
    }
}

impl View for AuthBatchLookupKeyImpl {
    type V = (<Pubkey as View>::V, <ServerId as View>::V, u64);

    open spec fn view(&self) -> (<Pubkey as View>::V, <ServerId as View>::V, u64) {
        (self.server_pubkey@, self.server_id@, self.batch_num)
    }
}

impl Ser for AuthBatchLookupKeyImpl {
    open spec fn spec_write(v: (<Pubkey as View>::V, <ServerId as View>::V, u64)) -> Seq<u8> {
        seq![MEMBER_AUTH_PREFIX] + <Pubkey as Ser>::spec_write(v.0) + <ServerId as Ser>::spec_write(v.1) + <u64 as Ser>::spec_write(v.2)
    }

    open spec fn spec_read(s: Seq<u8>) -> Result<((<Pubkey as View>::V, <ServerId as View>::V, u64), nat), ReadError> {
        match <u8 as Ser>::spec_read(s) {
            Err(e) => Err(e),
            Ok((_, n1)) => {
                let s1 = s.skip(n1 as int);
                match <Pubkey as Ser>::spec_read(s1) {
                    Err(e) => Err(e),
                    Ok((server_pubkey, n2)) => {
                        let s2 = s1.skip(n2 as int);
                        match <ServerId as Ser>::spec_read(s2) {
                            Err(e) => Err(e),
                            Ok((server_id, n3)) => {
                                let s3 = s2.skip(n3 as int);
                                match <u64 as Ser>::spec_read(s3) {
                                    Err(e) => Err(e),
                                    Ok((batch_num, n4)) => {
                                        Ok(((server_pubkey, server_id, batch_num), n1 + n2 + n3 + n4))
                                    },
                                }
                            },
                        }
                    },
                }
            },
        }
    }

    open spec fn spec_wf(v: (<Pubkey as View>::V, <ServerId as View>::V, u64)) -> bool {
        <Pubkey as Ser>::spec_wf(v.0) && <ServerId as Ser>::spec_wf(v.1)
    }

    proof fn lemma_write_read(v: (<Pubkey as View>::V, <ServerId as View>::V, u64), rest: Seq<u8>) {
        let e1 = seq![MEMBER_AUTH_PREFIX];
        let e2 = <Pubkey as Ser>::spec_write(v.0);
        let e3 = <ServerId as Ser>::spec_write(v.1);
        let e4 = <u64 as Ser>::spec_write(v.2);
        assert(Self::spec_write(v) + rest =~= e1 + (e2 + (e3 + (e4 + rest))));
        <u8 as Ser>::lemma_write_read(MEMBER_AUTH_PREFIX, e2 + (e3 + (e4 + rest)));
        lemma_skip_front(e1, e2 + (e3 + (e4 + rest)));
        <Pubkey as Ser>::lemma_write_read(v.0, e3 + (e4 + rest));
        lemma_skip_front(e2, e3 + (e4 + rest));
        <ServerId as Ser>::lemma_write_read(v.1, e4 + rest);
        lemma_skip_front(e3, e4 + rest);
        <u64 as Ser>::lemma_write_read(v.2, rest);
    }

    fn write(&self, out: &mut Vec<u8>) {
        let ghost start = out@;
        out.push(MEMBER_AUTH_PREFIX);
        self.server_pubkey.write(out);
        self.server_id.write(out);
        self.batch_num.write(out);
        assert(out@ =~= start + Self::spec_write(self@));
    }

    fn read(buf: &[u8], pos: usize) -> (res: Result<(AuthBatchLookupKeyImpl, usize), ReadError>) {
        let (_, p1) = <u8 as Ser>::read(buf, pos)?;
        proof {
            lemma_from_pos_skip(buf@, pos as int, p1 as int);
        }
        let (server_pubkey, p2) = <Pubkey as Ser>::read(buf, p1)?;
        proof {
            lemma_from_pos_skip(buf@, p1 as int, p2 as int);
        }
        let (server_id, p3) = <ServerId as Ser>::read(buf, p2)?;
        proof {
            lemma_from_pos_skip(buf@, p2 as int, p3 as int);
        }
        let (batch_num, p4) = <u64 as Ser>::read(buf, p3)?;
        Ok((AuthBatchLookupKeyImpl { server_pubkey, server_id, batch_num }, p4))
    }
}

impl View for MemberValueImpl {
    type V = (u128, u64, u64, u64);

    open spec fn view(&self) -> (u128, u64, u64, u64) {
        (self.roles, self.join_time, self.modified_time, self.batch_num)
    }
}

impl Ser for MemberValueImpl {
    open spec fn spec_write(v: (u128, u64, u64, u64)) -> Seq<u8> {
        <u128 as Ser>::spec_write(v.0) + <u64 as Ser>::spec_write(v.1) + <u64 as Ser>::spec_write(v.2) + <u64 as Ser>::spec_write(v.3)
    }

    open spec fn spec_read(s: Seq<u8>) -> Result<((u128, u64, u64, u64), nat), ReadError> {
        match <u128 as Ser>::spec_read(s) {
            Err(e) => Err(e),
            Ok((roles, n1)) => {
                let s1 = s.skip(n1 as int);
                match <u64 as Ser>::spec_read(s1) {
                    Err(e) => Err(e),
                    Ok((join_time, n2)) => {
                        let s2 = s1.skip(n2 as int);
                        match <u64 as Ser>::spec_read(s2) {
                            Err(e) => Err(e),
                            Ok((modified_time, n3)) => {
                                let s3 = s2.skip(n3 as int);
                                match <u64 as Ser>::spec_read(s3) {
                                    Err(e) => Err(e),
                                    Ok((batch_num, n4)) => {
                                        Ok(((roles, join_time, modified_time, batch_num), n1 + n2 + n3 + n4))
                                    },
                                }
                            },
                        }
                    },
                }
            },
        }
    }

    open spec fn spec_wf(v: (u128, u64, u64, u64)) -> bool {
        true
    }

    proof fn lemma_write_read(v: (u128, u64, u64, u64), rest: Seq<u8>) {
        let e1 = <u128 as Ser>::spec_write(v.0);
        let e2 = <u64 as Ser>::spec_write(v.1);
        let e3 = <u64 as Ser>::spec_write(v.2);
        let e4 = <u64 as Ser>::spec_write(v.3);
        assert(Self::spec_write(v) + rest =~= e1 + (e2 + (e3 + (e4 + rest))));
        <u128 as Ser>::lemma_write_read(v.0, e2 + (e3 + (e4 + rest)));
        lemma_skip_front(e1, e2 + (e3 + (e4 + rest)));
        <u64 as Ser>::lemma_write_read(v.1, e3 + (e4 + rest));
        lemma_skip_front(e2, e3 + (e4 + rest));
        <u64 as Ser>::lemma_write_read(v.2, e4 + rest);
        lemma_skip_front(e3, e4 + rest);
        <u64 as Ser>::lemma_write_read(v.3, rest);
    }

    fn write(&self, out: &mut Vec<u8>) {
        let ghost start = out@;
        self.roles.write(out);
        self.join_time.write(out);
        self.modified_time.write(out);
        self.batch_num.write(out);
        assert(out@ =~= start + Self::spec_write(self@));
    }

    fn read(buf: &[u8], pos: usize) -> (res: Result<(MemberValueImpl, usize), ReadError>) {
        let (roles, p1) = <u128 as Ser>::read(buf, pos)?;
        proof {
            lemma_from_pos_skip(buf@, pos as int, p1 as int);
        }
        let (join_time, p2) = <u64 as Ser>::read(buf, p1)?;
        proof {
            lemma_from_pos_skip(buf@, p1 as int, p2 as int);
        }
        let (modified_time, p3) = <u64 as Ser>::read(buf, p2)?;
        proof {
            lemma_from_pos_skip(buf@, p2 as int, p3 as int);
        }
        let (batch_num, p4) = <u64 as Ser>::read(buf, p3)?;
        Ok((MemberValueImpl { roles, join_time, modified_time, batch_num }, p4))
    }
}

impl View for MessageKeyImpl {
    type V = (Seq<u8>, Seq<u8>, u64, u64, u64, Seq<u8>, u16);

    open spec fn view(&self) -> (Seq<u8>, Seq<u8>, u64, u64, u64, Seq<u8>, u16) {
        (self.server_pubkey@, self.server_id@, self.channel_id, self.batch_num, self.timestamp, self.user_pubkey@, self.nonce)
    }
}

impl Ser for MessageKeyImpl {
    open spec fn spec_write(v: (Seq<u8>, Seq<u8>, u64, u64, u64, Seq<u8>, u16)) -> Seq<u8> {
        seq![MESSAGE_PREFIX] + <[u8; 32] as Ser>::spec_write(v.0) + <[u8; 8] as Ser>::spec_write(v.1) + <u64 as Ser>::spec_write(v.2) + <u64 as Ser>::spec_write(v.3) + <u64 as Ser>::spec_write(v.4) + <[u8; 32] as Ser>::spec_write(v.5) + <u16 as Ser>::spec_write(v.6)
    }

    open spec fn spec_read(s: Seq<u8>) -> Result<((Seq<u8>, Seq<u8>, u64, u64, u64, Seq<u8>, u16), nat), ReadError> {
        match <u8 as Ser>::spec_read(s) {
            Err(e) => Err(e),
            Ok((_, n1)) => {
                let s1 = s.skip(n1 as int);
                match <[u8; 32] as Ser>::spec_read(s1) {
                    Err(e) => Err(e),
                    Ok((server_pubkey, n2)) => {
                        let s2 = s1.skip(n2 as int);
                        match <[u8; 8] as Ser>::spec_read(s2) {
                            Err(e) => Err(e),
                            Ok((server_id, n3)) => {
                                let s3 = s2.skip(n3 as int);
                                match <u64 as Ser>::spec_read(s3) {
                                    Err(e) => Err(e),
                                    Ok((channel_id, n4)) => {
                                        let s4 = s3.skip(n4 as int);
                                        match <u64 as Ser>::spec_read(s4) {
                                            Err(e) => Err(e),
                                            Ok((batch_num, n5)) => {
                                                let s5 = s4.skip(n5 as int);
                                                match <u64 as Ser>::spec_read(s5) {
                                                    Err(e) => Err(e),
                                                    Ok((timestamp, n6)) => {
                                                        let s6 = s5.skip(n6 as int);
                                                        match <[u8; 32] as Ser>::spec_read(s6) {
                                                            Err(e) => Err(e),
                                                            Ok((user_pubkey, n7)) => {
                                                                let s7 = s6.skip(n7 as int);
                                                                match <u16 as Ser>::spec_read(s7) {
                                                                    Err(e) => Err(e),
                                                                    Ok((nonce, n8)) => {
                                                                        Ok(((server_pubkey, server_id, channel_id, batch_num, timestamp, user_pubkey, nonce), n1 + n2 + n3 + n4 + n5 + n6 + n7 + n8))
                                                                    },
                                                                }
                                                            },
                                                        }
                                                    },
                                                }
                                            },
                                        }
                                    },
                                }
                            },
                        }
                    },
                }
            },
        }
    }

    open spec fn spec_wf(v: (Seq<u8>, Seq<u8>, u64, u64, u64, Seq<u8>, u16)) -> bool {
        v.0.len() == 32 && v.1.len() == 8 && v.5.len() == 32
    }

    proof fn lemma_write_read(v: (Seq<u8>, Seq<u8>, u64, u64, u64, Seq<u8>, u16), rest: Seq<u8>) {
        let e1 = seq![MESSAGE_PREFIX];
        let e2 = <[u8; 32] as Ser>::spec_write(v.0);
        let e3 = <[u8; 8] as Ser>::spec_write(v.1);
        let e4 = <u64 as Ser>::spec_write(v.2);
        let e5 = <u64 as Ser>::spec_write(v.3);
        let e6 = <u64 as Ser>::spec_write(v.4);
        let e7 = <[u8; 32] as Ser>::spec_write(v.5);
        let e8 = <u16 as Ser>::spec_write(v.6);
        assert(Self::spec_write(v) + rest =~= e1 + (e2 + (e3 + (e4 + (e5 + (e6 + (e7 + (e8 + rest))))))));
        <u8 as Ser>::lemma_write_read(MESSAGE_PREFIX, e2 + (e3 + (e4 + (e5 + (e6 + (e7 + (e8 + rest)))))));
        lemma_skip_front(e1, e2 + (e3 + (e4 + (e5 + (e6 + (e7 + (e8 + rest)))))));
        <[u8; 32] as Ser>::lemma_write_read(v.0, e3 + (e4 + (e5 + (e6 + (e7 + (e8 + rest))))));
        lemma_skip_front(e2, e3 + (e4 + (e5 + (e6 + (e7 + (e8 + rest))))));
        <[u8; 8] as Ser>::lemma_write_read(v.1, e4 + (e5 + (e6 + (e7 + (e8 + rest)))));
        lemma_skip_front(e3, e4 + (e5 + (e6 + (e7 + (e8 + rest)))));
        <u64 as Ser>::lemma_write_read(v.2, e5 + (e6 + (e7 + (e8 + rest))));
        lemma_skip_front(e4, e5 + (e6 + (e7 + (e8 + rest))));
        <u64 as Ser>::lemma_write_read(v.3, e6 + (e7 + (e8 + rest)));
        lemma_skip_front(e5, e6 + (e7 + (e8 + rest)));
        <u64 as Ser>::lemma_write_read(v.4, e7 + (e8 + rest));
        lemma_skip_front(e6, e7 + (e8 + rest));
        <[u8; 32] as Ser>::lemma_write_read(v.5, e8 + rest);
        lemma_skip_front(e7, e8 + rest);
        <u16 as Ser>::lemma_write_read(v.6, rest);
    }

    fn write(&self, out: &mut Vec<u8>) {
        let ghost start = out@;
        out.push(MESSAGE_PREFIX);
        self.server_pubkey.write(out);
        self.server_id.write(out);
        self.channel_id.write(out);
        self.batch_num.write(out);
        self.timestamp.write(out);
        self.user_pubkey.write(out);
        self.nonce.write(out);
        assert(out@ =~= start + Self::spec_write(self@));
    }

    fn read(buf: &[u8], pos: usize) -> (res: Result<(MessageKeyImpl, usize), ReadError>) {
        let (_, p1) = <u8 as Ser>::read(buf, pos)?;
        proof {
            lemma_from_pos_skip(buf@, pos as int, p1 as int);
        }
        let (server_pubkey, p2) = <[u8; 32] as Ser>::read(buf, p1)?;
        proof {
            lemma_from_pos_skip(buf@, p1 as int, p2 as int);
        }
        let (server_id, p3) = <[u8; 8] as Ser>::read(buf, p2)?;
        proof {
            lemma_from_pos_skip(buf@, p2 as int, p3 as int);
        }
        let (channel_id, p4) = <u64 as Ser>::read(buf, p3)?;
        proof {
            lemma_from_pos_skip(buf@, p3 as int, p4 as int);
        }
        let (batch_num, p5) = <u64 as Ser>::read(buf, p4)?;
        proof {
            lemma_from_pos_skip(buf@, p4 as int, p5 as int);
        }
        let (timestamp, p6) = <u64 as Ser>::read(buf, p5)?;
        proof {
            lemma_from_pos_skip(buf@, p5 as int, p6 as int);
        }
        let (user_pubkey, p7) = <[u8; 32] as Ser>::read(buf, p6)?;
        proof {
            lemma_from_pos_skip(buf@, p6 as int, p7 as int);
        }
        let (nonce, p8) = <u16 as Ser>::read(buf, p7)?;
        Ok((MessageKeyImpl { server_pubkey, server_id, channel_id, batch_num, timestamp, user_pubkey, nonce }, p8))
    }
}

impl View for MessageValueImpl {
    type V = (Seq<u8>, Seq<u8>, <MessageType as View>::V);

    open spec fn view(&self) -> (Seq<u8>, Seq<u8>, <MessageType as View>::V) {
        (self.payload@, self.signature@, self.message_type@)
    }
}

impl Ser for MessageValueImpl {
    open spec fn spec_write(v: (Seq<u8>, Seq<u8>, <MessageType as View>::V)) -> Seq<u8> {
        spec_write_bytes32(v.0) + <[u8; 64] as Ser>::spec_write(v.1) + <MessageType as Ser>::spec_write(v.2)
    }

    open spec fn spec_read(s: Seq<u8>) -> Result<((Seq<u8>, Seq<u8>, <MessageType as View>::V), nat), ReadError> {
        match spec_read_bytes32(s) {
            Err(e) => Err(e),
            Ok((payload, n1)) => {
                let s1 = s.skip(n1 as int);
                match <[u8; 64] as Ser>::spec_read(s1) {
                    Err(e) => Err(e),
                    Ok((signature, n2)) => {
                        let s2 = s1.skip(n2 as int);
                        match <MessageType as Ser>::spec_read(s2) {
                            Err(e) => Err(e),
                            Ok((message_type, n3)) => {
                                Ok(((payload, signature, message_type), n1 + n2 + n3))
                            },
                        }
                    },
                }
            },
        }
    }

    open spec fn spec_wf(v: (Seq<u8>, Seq<u8>, <MessageType as View>::V)) -> bool {
        v.0.len() <= u32::MAX && v.1.len() == 64 && <MessageType as Ser>::spec_wf(v.2)
    }

    proof fn lemma_write_read(v: (Seq<u8>, Seq<u8>, <MessageType as View>::V), rest: Seq<u8>) {
        let e1 = spec_write_bytes32(v.0);
        let e2 = <[u8; 64] as Ser>::spec_write(v.1);
        let e3 = <MessageType as Ser>::spec_write(v.2);
        assert(Self::spec_write(v) + rest =~= e1 + (e2 + (e3 + rest)));
        lemma_write_read_bytes32(v.0, e2 + (e3 + rest));
        lemma_skip_front(e1, e2 + (e3 + rest));
        <[u8; 64] as Ser>::lemma_write_read(v.1, e3 + rest);
        lemma_skip_front(e2, e3 + rest);
        <MessageType as Ser>::lemma_write_read(v.2, rest);
    }

    fn write(&self, out: &mut Vec<u8>) {
        let ghost start = out@;
        write_bytes32(self.payload.as_slice(), out);
        self.signature.write(out);
        self.message_type.write(out);
        assert(out@ =~= start + Self::spec_write(self@));
    }

    fn read(buf: &[u8], pos: usize) -> (res: Result<(MessageValueImpl, usize), ReadError>) {
        let (payload, p1) = read_bytes32(buf, pos)?;
        proof {
            lemma_from_pos_skip(buf@, pos as int, p1 as int);
        }
        let (signature, p2) = <[u8; 64] as Ser>::read(buf, p1)?;
        proof {
            lemma_from_pos_skip(buf@, p1 as int, p2 as int);
        }
        let (message_type, p3) = <MessageType as Ser>::read(buf, p2)?;
        Ok((MessageValueImpl { payload, signature, message_type }, p3))
    }
}

impl View for MessageMetaDataKey {
    type V = (Seq<u8>, Seq<u8>, u64);

    open spec fn view(&self) -> (Seq<u8>, Seq<u8>, u64) {
        (self.server_pubkey@, self.server_id@, self.channel_id)
    }
}

impl Ser for MessageMetaDataKey {
    open spec fn spec_write(v: (Seq<u8>, Seq<u8>, u64)) -> Seq<u8> {
        seq![MESSAGE_METADATA_PREFIX] + <[u8; 32] as Ser>::spec_write(v.0) + <[u8; 8] as Ser>::spec_write(v.1) + <u64 as Ser>::spec_write(v.2)
    }

    open spec fn spec_read(s: Seq<u8>) -> Result<((Seq<u8>, Seq<u8>, u64), nat), ReadError> {
        match <u8 as Ser>::spec_read(s) {
            Err(e) => Err(e),
            Ok((_, n1)) => {
                let s1 = s.skip(n1 as int);
                match <[u8; 32] as Ser>::spec_read(s1) {
                    Err(e) => Err(e),
                    Ok((server_pubkey, n2)) => {
                        let s2 = s1.skip(n2 as int);
                        match <[u8; 8] as Ser>::spec_read(s2) {
                            Err(e) => Err(e),
                            Ok((server_id, n3)) => {
                                let s3 = s2.skip(n3 as int);
                                match <u64 as Ser>::spec_read(s3) {
                                    Err(e) => Err(e),
                                    Ok((channel_id, n4)) => {
                                        Ok(((server_pubkey, server_id, channel_id), n1 + n2 + n3 + n4))
                                    },
                                }
                            },
                        }
                    },
                }
            },
        }
    }

    open spec fn spec_wf(v: (Seq<u8>, Seq<u8>, u64)) -> bool {
        v.0.len() == 32 && v.1.len() == 8
    }

    proof fn lemma_write_read(v: (Seq<u8>, Seq<u8>, u64), rest: Seq<u8>) {
        let e1 = seq![MESSAGE_METADATA_PREFIX];
        let e2 = <[u8; 32] as Ser>::spec_write(v.0);
        let e3 = <[u8; 8] as Ser>::spec_write(v.1);
        let e4 = <u64 as Ser>::spec_write(v.2);
        assert(Self::spec_write(v) + rest =~= e1 + (e2 + (e3 + (e4 + rest))));
        <u8 as Ser>::lemma_write_read(MESSAGE_METADATA_PREFIX, e2 + (e3 + (e4 + rest)));
        lemma_skip_front(e1, e2 + (e3 + (e4 + rest)));
        <[u8; 32] as Ser>::lemma_write_read(v.0, e3 + (e4 + rest));
        lemma_skip_front(e2, e3 + (e4 + rest));
        <[u8; 8] as Ser>::lemma_write_read(v.1, e4 + rest);
        lemma_skip_front(e3, e4 + rest);
        <u64 as Ser>::lemma_write_read(v.2, rest);
    }

    fn write(&self, out: &mut Vec<u8>) {
        let ghost start = out@;
        out.push(MESSAGE_METADATA_PREFIX);
        self.server_pubkey.write(out);
        self.server_id.write(out);
        self.channel_id.write(out);
        assert(out@ =~= start + Self::spec_write(self@));
    }

    fn read(buf: &[u8], pos: usize) -> (res: Result<(MessageMetaDataKey, usize), ReadError>) {
        let (_, p1) = <u8 as Ser>::read(buf, pos)?;
        proof {
            lemma_from_pos_skip(buf@, pos as int, p1 as int);
        }
        let (server_pubkey, p2) = <[u8; 32] as Ser>::read(buf, p1)?;
        proof {
            lemma_from_pos_skip(buf@, p1 as int, p2 as int);
        }
        let (server_id, p3) = <[u8; 8] as Ser>::read(buf, p2)?;
        proof {
            lemma_from_pos_skip(buf@, p2 as int, p3 as int);
        }
        let (channel_id, p4) = <u64 as Ser>::read(buf, p3)?;
        Ok((MessageMetaDataKey { server_pubkey, server_id, channel_id }, p4))
    }
}

impl View for MessageMetaDataValue {
    type V = u64;

    open spec fn view(&self) -> u64 {
        self.message_count
    }
}

impl Ser for MessageMetaDataValue {
    open spec fn spec_write(v: u64) -> Seq<u8> {
        <u64 as Ser>::spec_write(v)
    }

    open spec fn spec_read(s: Seq<u8>) -> Result<(u64, nat), ReadError> {
        match <u64 as Ser>::spec_read(s) {
            Err(e) => Err(e),
            Ok((message_count, n1)) => {
                Ok((message_count, n1))
            },
        }
    }

    open spec fn spec_wf(v: u64) -> bool {
        true
    }

    proof fn lemma_write_read(v: u64, rest: Seq<u8>) {
        let e1 = <u64 as Ser>::spec_write(v);
        assert(Self::spec_write(v) + rest =~= e1 + rest);
        <u64 as Ser>::lemma_write_read(v, rest);
    }

    fn write(&self, out: &mut Vec<u8>) {
        let ghost start = out@;
        self.message_count.write(out);
        assert(out@ =~= start + Self::spec_write(self@));
    }

    fn read(buf: &[u8], pos: usize) -> (res: Result<(MessageMetaDataValue, usize), ReadError>) {
        let (message_count, p1) = <u64 as Ser>::read(buf, pos)?;
        Ok((MessageMetaDataValue { message_count }, p1))
    }
}

impl View for ServerInfo {
    type V = (Seq<u8>, Seq<char>, bool, u64);

    open spec fn view(&self) -> (Seq<u8>, Seq<char>, bool, u64) {
        (self.pubkey@, self.name@, self.joined, self.seqno)
    }
}

impl Ser for ServerInfo {
    open spec fn spec_write(v: (Seq<u8>, Seq<char>, bool, u64)) -> Seq<u8> {
        <[u8; 32] as Ser>::spec_write(v.0) + spec_write_str32(v.1) + <bool as Ser>::spec_write(v.2) + <u64 as Ser>::spec_write(v.3)
    }

    open spec fn spec_read(s: Seq<u8>) -> Result<((Seq<u8>, Seq<char>, bool, u64), nat), ReadError> {
        match <[u8; 32] as Ser>::spec_read(s) {
            Err(e) => Err(e),
            Ok((pubkey, n1)) => {
                let s1 = s.skip(n1 as int);
                match spec_read_str32(s1) {
                    Err(e) => Err(e),
                    Ok((name, n2)) => {
                        let s2 = s1.skip(n2 as int);
                        match <bool as Ser>::spec_read(s2) {
                            Err(e) => Err(e),
                            Ok((joined, n3)) => {
                                let s3 = s2.skip(n3 as int);
                                match <u64 as Ser>::spec_read(s3) {
                                    Err(e) => Err(e),
                                    Ok((seqno, n4)) => {
                                        Ok(((pubkey, name, joined, seqno), n1 + n2 + n3 + n4))
                                    },
                                }
                            },
                        }
                    },
                }
            },
        }
    }

    open spec fn spec_wf(v: (Seq<u8>, Seq<char>, bool, u64)) -> bool {
        v.0.len() == 32 && wf_str32(v.1)
    }

    proof fn lemma_write_read(v: (Seq<u8>, Seq<char>, bool, u64), rest: Seq<u8>) {
        let e1 = <[u8; 32] as Ser>::spec_write(v.0);
        let e2 = spec_write_str32(v.1);
        let e3 = <bool as Ser>::spec_write(v.2);
        let e4 = <u64 as Ser>::spec_write(v.3);
        assert(Self::spec_write(v) + rest =~= e1 + (e2 + (e3 + (e4 + rest))));
        <[u8; 32] as Ser>::lemma_write_read(v.0, e2 + (e3 + (e4 + rest)));
        lemma_skip_front(e1, e2 + (e3 + (e4 + rest)));
        lemma_write_read_str32(v.1, e3 + (e4 + rest));
        lemma_skip_front(e2, e3 + (e4 + rest));
        <bool as Ser>::lemma_write_read(v.2, e4 + rest);
        lemma_skip_front(e3, e4 + rest);
        <u64 as Ser>::lemma_write_read(v.3, rest);
    }

    fn write(&self, out: &mut Vec<u8>) {
        let ghost start = out@;
        self.pubkey.write(out);
        write_str32(&self.name, out);
        self.joined.write(out);
        self.seqno.write(out);
        assert(out@ =~= start + Self::spec_write(self@));
    }

    fn read(buf: &[u8], pos: usize) -> (res: Result<(ServerInfo, usize), ReadError>) {
        let (pubkey, p1) = <[u8; 32] as Ser>::read(buf, pos)?;
        proof {
            lemma_from_pos_skip(buf@, pos as int, p1 as int);
        }
        let (name, p2) = read_str32(buf, p1)?;
        proof {
            lemma_from_pos_skip(buf@, p1 as int, p2 as int);
        }
        let (joined, p3) = <bool as Ser>::read(buf, p2)?;
        proof {
            lemma_from_pos_skip(buf@, p2 as int, p3 as int);
        }
        let (seqno, p4) = <u64 as Ser>::read(buf, p3)?;
        Ok((ServerInfo { pubkey, name, joined, seqno }, p4))
    }
}

impl View for ChannelKey {
    type V = (Seq<u8>, Seq<u8>, u64);

    open spec fn view(&self) -> (Seq<u8>, Seq<u8>, u64) {
        (self.server_pubkey@, self.server_id@, self.channel_id)
    }
}

impl Ser for ChannelKey {
    open spec fn spec_write(v: (Seq<u8>, Seq<u8>, u64)) -> Seq<u8> {
        <[u8; 32] as Ser>::spec_write(v.0) + <[u8; 8] as Ser>::spec_write(v.1) + <u64 as Ser>::spec_write(v.2)
    }

    open spec fn spec_read(s: Seq<u8>) -> Result<((Seq<u8>, Seq<u8>, u64), nat), ReadError> {
        match <[u8; 32] as Ser>::spec_read(s) {
            Err(e) => Err(e),
            Ok((server_pubkey, n1)) => {
                let s1 = s.skip(n1 as int);
                match <[u8; 8] as Ser>::spec_read(s1) {
                    Err(e) => Err(e),
                    Ok((server_id, n2)) => {
                        let s2 = s1.skip(n2 as int);
                        match <u64 as Ser>::spec_read(s2) {
                            Err(e) => Err(e),
                            Ok((channel_id, n3)) => {
                                Ok(((server_pubkey, server_id, channel_id), n1 + n2 + n3))
                            },
                        }
                    },
                }
            },
        }
    }

    open spec fn spec_wf(v: (Seq<u8>, Seq<u8>, u64)) -> bool {
        v.0.len() == 32 && v.1.len() == 8
    }

    proof fn lemma_write_read(v: (Seq<u8>, Seq<u8>, u64), rest: Seq<u8>) {
        let e1 = <[u8; 32] as Ser>::spec_write(v.0);
        let e2 = <[u8; 8] as Ser>::spec_write(v.1);
        let e3 = <u64 as Ser>::spec_write(v.2);
        assert(Self::spec_write(v) + rest =~= e1 + (e2 + (e3 + rest)));
        <[u8; 32] as Ser>::lemma_write_read(v.0, e2 + (e3 + rest));
        lemma_skip_front(e1, e2 + (e3 + rest));
        <[u8; 8] as Ser>::lemma_write_read(v.1, e3 + rest);
        lemma_skip_front(e2, e3 + rest);
        <u64 as Ser>::lemma_write_read(v.2, rest);
    }

    fn write(&self, out: &mut Vec<u8>) {
        let ghost start = out@;
        self.server_pubkey.write(out);
        self.server_id.write(out);
        self.channel_id.write(out);
        assert(out@ =~= start + Self::spec_write(self@));
    }

    fn read(buf: &[u8], pos: usize) -> (res: Result<(ChannelKey, usize), ReadError>) {
        let (server_pubkey, p1) = <[u8; 32] as Ser>::read(buf, pos)?;
        proof {
            lemma_from_pos_skip(buf@, pos as int, p1 as int);
        }
        let (server_id, p2) = <[u8; 8] as Ser>::read(buf, p1)?;
        proof {
            lemma_from_pos_skip(buf@, p1 as int, p2 as int);
        }
        let (channel_id, p3) = <u64 as Ser>::read(buf, p2)?;
        Ok((ChannelKey { server_pubkey, server_id, channel_id }, p3))
    }
}

impl View for Channel {
    type V = (Seq<char>, Seq<char>, u64);

    open spec fn view(&self) -> (Seq<char>, Seq<char>, u64) {
        (self.name@, self.description@, self.channel_id)
    }
}

impl Ser for Channel {
    open spec fn spec_write(v: (Seq<char>, Seq<char>, u64)) -> Seq<u8> {
        spec_write_str32(v.0) + spec_write_str32(v.1) + <u64 as Ser>::spec_write(v.2)
    }

    open spec fn spec_read(s: Seq<u8>) -> Result<((Seq<char>, Seq<char>, u64), nat), ReadError> {
        match spec_read_str32(s) {
            Err(e) => Err(e),
            Ok((name, n1)) => {
                let s1 = s.skip(n1 as int);
                match spec_read_str32(s1) {
                    Err(e) => Err(e),
                    Ok((description, n2)) => {
                        let s2 = s1.skip(n2 as int);
                        match <u64 as Ser>::spec_read(s2) {
                            Err(e) => Err(e),
                            Ok((channel_id, n3)) => {
                                Ok(((name, description, channel_id), n1 + n2 + n3))
                            },
                        }
                    },
                }
            },
        }
    }

    open spec fn spec_wf(v: (Seq<char>, Seq<char>, u64)) -> bool {
        wf_str32(v.0) && wf_str32(v.1)
    }

    proof fn lemma_write_read(v: (Seq<char>, Seq<char>, u64), rest: Seq<u8>) {
        let e1 = spec_write_str32(v.0);
        let e2 = spec_write_str32(v.1);
        let e3 = <u64 as Ser>::spec_write(v.2);
        assert(Self::spec_write(v) + rest =~= e1 + (e2 + (e3 + rest)));
        lemma_write_read_str32(v.0, e2 + (e3 + rest));
        lemma_skip_front(e1, e2 + (e3 + rest));
        lemma_write_read_str32(v.1, e3 + rest);
        lemma_skip_front(e2, e3 + rest);
        <u64 as Ser>::lemma_write_read(v.2, rest);
    }

    fn write(&self, out: &mut Vec<u8>) {
        let ghost start = out@;
        write_str32(&self.name, out);
        write_str32(&self.description, out);
        self.channel_id.write(out);
        assert(out@ =~= start + Self::spec_write(self@));
    }

    fn read(buf: &[u8], pos: usize) -> (res: Result<(Channel, usize), ReadError>) {
        let (name, p1) = read_str32(buf, pos)?;
        proof {
            lemma_from_pos_skip(buf@, pos as int, p1 as int);
        }
        let (description, p2) = read_str32(buf, p1)?;
        proof {
            lemma_from_pos_skip(buf@, p1 as int, p2 as int);
        }
        let (channel_id, p3) = <u64 as Ser>::read(buf, p2)?;
        Ok((Channel { name, description, channel_id }, p3))
    }
}

impl View for WSAuthToken {
    type V = u128;

    open spec fn view(&self) -> u128 {
        self.token
    }
}

impl Ser for WSAuthToken {
    open spec fn spec_write(v: u128) -> Seq<u8> {
        seq![WS_AUTH_TOKEN] + <u128 as Ser>::spec_write(v)
    }

    open spec fn spec_read(s: Seq<u8>) -> Result<(u128, nat), ReadError> {
        match <u8 as Ser>::spec_read(s) {
            Err(e) => Err(e),
            Ok((_, n1)) => {
                let s1 = s.skip(n1 as int);
                match <u128 as Ser>::spec_read(s1) {
                    Err(e) => Err(e),
                    Ok((token, n2)) => {
                        Ok((token, n1 + n2))
                    },
                }
            },
        }
    }

    open spec fn spec_wf(v: u128) -> bool {
        true
    }

    proof fn lemma_write_read(v: u128, rest: Seq<u8>) {
        let e1 = seq![WS_AUTH_TOKEN];
        let e2 = <u128 as Ser>::spec_write(v);
        assert(Self::spec_write(v) + rest =~= e1 + (e2 + rest));
        <u8 as Ser>::lemma_write_read(WS_AUTH_TOKEN, e2 + rest);
        lemma_skip_front(e1, e2 + rest);
        <u128 as Ser>::lemma_write_read(v, rest);
    }

    fn write(&self, out: &mut Vec<u8>) {
        let ghost start = out@;
        out.push(WS_AUTH_TOKEN);
        self.token.write(out);
        assert(out@ =~= start + Self::spec_write(self@));
    }

    fn read(buf: &[u8], pos: usize) -> (res: Result<(WSAuthToken, usize), ReadError>) {
        let (_, p1) = <u8 as Ser>::read(buf, pos)?;
        proof {
            lemma_from_pos_skip(buf@, pos as int, p1 as int);
        }
        let (token, p2) = <u128 as Ser>::read(buf, p1)?;
        Ok((WSAuthToken { token }, p2))
    }
}

impl View for AuthInfo {
    type V = (u128, u128, u128);

    open spec fn view(&self) -> (u128, u128, u128) {
        (self.creation_time, self.last_access_time, self.expiration_millis)
    }
}

impl Ser for AuthInfo {
    open spec fn spec_write(v: (u128, u128, u128)) -> Seq<u8> {
        <u128 as Ser>::spec_write(v.0) + <u128 as Ser>::spec_write(v.1) + <u128 as Ser>::spec_write(v.2)
    }

    open spec fn spec_read(s: Seq<u8>) -> Result<((u128, u128, u128), nat), ReadError> {
        match <u128 as Ser>::spec_read(s) {
            Err(e) => Err(e),
            Ok((creation_time, n1)) => {
                let s1 = s.skip(n1 as int);
                match <u128 as Ser>::spec_read(s1) {
                    Err(e) => Err(e),
                    Ok((last_access_time, n2)) => {
                        let s2 = s1.skip(n2 as int);
                        match <u128 as Ser>::spec_read(s2) {
                            Err(e) => Err(e),
                            Ok((expiration_millis, n3)) => {
                                Ok(((creation_time, last_access_time, expiration_millis), n1 + n2 + n3))
                            },
                        }
                    },
                }
            },
        }
    }

    open spec fn spec_wf(v: (u128, u128, u128)) -> bool {
        true
    }

    proof fn lemma_write_read(v: (u128, u128, u128), rest: Seq<u8>) {
        let e1 = <u128 as Ser>::spec_write(v.0);
        let e2 = <u128 as Ser>::spec_write(v.1);
        let e3 = <u128 as Ser>::spec_write(v.2);
        assert(Self::spec_write(v) + rest =~= e1 + (e2 + (e3 + rest)));
        <u128 as Ser>::lemma_write_read(v.0, e2 + (e3 + rest));
        lemma_skip_front(e1, e2 + (e3 + rest));
        <u128 as Ser>::lemma_write_read(v.1, e3 + rest);
        lemma_skip_front(e2, e3 + rest);
        <u128 as Ser>::lemma_write_read(v.2, rest);
    }

    fn write(&self, out: &mut Vec<u8>) {
        let ghost start = out@;
        self.creation_time.write(out);
        self.last_access_time.write(out);
        self.expiration_millis.write(out);
        assert(out@ =~= start + Self::spec_write(self@));
    }

    fn read(buf: &[u8], pos: usize) -> (res: Result<(AuthInfo, usize), ReadError>) {
        let (creation_time, p1) = <u128 as Ser>::read(buf, pos)?;
        proof {
            lemma_from_pos_skip(buf@, pos as int, p1 as int);
        }
        let (last_access_time, p2) = <u128 as Ser>::read(buf, p1)?;
        proof {
            lemma_from_pos_skip(buf@, p1 as int, p2 as int);
        }
        let (expiration_millis, p3) = <u128 as Ser>::read(buf, p2)?;
        Ok((AuthInfo { creation_time, last_access_time, expiration_millis }, p3))
    }
}

impl View for ServerInfoReply {
    type V = (Seq<u8>, Seq<u8>, Seq<char>, u64);

    open spec fn view(&self) -> (Seq<u8>, Seq<u8>, Seq<char>, u64) {
        (self.pubkey@, self.server_id@, self.name@, self.seqno)
    }
}

impl View for JoinInfoReply {
    type V = (Seq<u8>, Seq<u8>, Seq<char>, Seq<u8>);

    open spec fn view(&self) -> (Seq<u8>, Seq<u8>, Seq<char>, Seq<u8>) {
        (self.server_pubkey@, self.server_id@, self.name@, self.inviter_pubkey@)
    }
}

impl View for MemberImpl {
    type V = (Seq<u8>, Seq<u8>, Seq<u8>, u128, u64, u64, u64);

    open spec fn view(&self) -> (Seq<u8>, Seq<u8>, Seq<u8>, u128, u64, u64, u64) {
        (
            self.user_pubkey@,
            self.server_pubkey@,
            self.server_id@,
            self.roles,
            self.batch_num,
            self.join_time,
            self.modified_time,
        )
    }
}

/// The model of a member: its key, its profile if it has one, its roles, and
/// when it joined and was last changed.
impl View for Member {
    type V = (Seq<u8>, Option<(Seq<char>, Seq<char>)>, u128, u64, u64);

    open spec fn view(&self) -> (Seq<u8>, Option<(Seq<char>, Seq<char>)>, u128, u64, u64) {
        (
            self.user_pubkey@,
            match self.profile_data {
                Some(p) => Some(p@),
                None => None,
            },
            self.roles,
            self.join_time,
            self.modified_time,
        )
    }
}

/// The model of a message, field by field.
pub struct MessageModel {
    pub payload: Seq<u8>,
    pub signature: Seq<u8>,
    pub message_type: MessageType,
    pub server_pubkey: Seq<u8>,
    pub server_id: Seq<u8>,
    pub channel_id: u64,
    pub timestamp: u64,
    pub user_pubkey: Seq<u8>,
    pub nonce: u16,
    pub seqno: u64,
    pub user_name: Seq<char>,
    pub user_bio: Seq<char>,
}

impl View for Message {
    type V = MessageModel;

    open spec fn view(&self) -> MessageModel {
        MessageModel {
            payload: self.payload@,
            signature: self.signature@,
            message_type: self.message_type,
            server_pubkey: self.server_pubkey@,
            server_id: self.server_id@,
            channel_id: self.channel_id,
            timestamp: self.timestamp,
            user_pubkey: self.user_pubkey@,
            nonce: self.nonce,
            seqno: self.seqno,
            user_name: self.user_name@,
            user_bio: self.user_bio@,
        }
    }
}

/// The default profile: a placeholder name and bio, under all-zero keys.
pub fn get_default_profile() -> (p: Profile)
    ensures
        p.profile_data.user_name@ == "User Default"@,
        p.profile_data.user_bio@ == "Tell us about you.."@,
        p.server_id@ == seq![0u8; 8],
        p.server_pubkey@ == seq![0u8; 32],
        p.user_pubkey@ == seq![0u8; 32],
{
    let p = Profile {
        profile_data: ProfileData {
            user_name: SerString { data: "User Default".to_owned() },
            user_bio: SerString { data: "Tell us about you..".to_owned() },
        },
        server_id: ServerId::from_bytes([0u8; 8]),
        server_pubkey: Pubkey::from_bytes([0u8; 32]),
        user_pubkey: Pubkey::from_bytes([0u8; 32]),
    };
    assert(p.server_id@ =~= seq![0u8; 8]);
    assert(p.server_pubkey@ =~= seq![0u8; 32]);
    p
}

impl Default for Profile {
    fn default() -> (p: Profile)
        ensures
            p.profile_data.user_name@ == "User Default"@,
            p.profile_data.user_bio@ == "Tell us about you.."@,
            p.server_id@ == seq![0u8; 8],
            p.server_pubkey@ == seq![0u8; 32],
            p.user_pubkey@ == seq![0u8; 32],
    {
        let p = Profile {
            user_pubkey: Pubkey::from_bytes([0u8; 32]),
            server_pubkey: Pubkey::from_bytes([0u8; 32]),
            server_id: ServerId::from_bytes([0u8; 8]),
            profile_data: ProfileData::default(),
        };
        assert(p.server_id@ =~= seq![0u8; 8]);
        assert(p.server_pubkey@ =~= seq![0u8; 32]);
        p
    }
}

impl From<MemberImpl> for Member {
    fn from(mi: MemberImpl) -> (m: Member) {
        Member {
            user_pubkey: mi.user_pubkey,
            roles: mi.roles,
            profile_data: None,
            join_time: mi.join_time,
            modified_time: mi.modified_time,
        }
    }
}

impl vstd::std_specs::convert::FromSpecImpl<MemberImpl> for Member {
    open spec fn obeys_from_spec() -> bool {
        true
    }

    open spec fn from_spec(mi: MemberImpl) -> Member {
        Member {
            user_pubkey: mi.user_pubkey,
            roles: mi.roles,
            profile_data: None,
            join_time: mi.join_time,
            modified_time: mi.modified_time,
        }
    }
}

impl From<&MemberImpl> for MemberKeyIttImpl {
    fn from(member: &MemberImpl) -> (k: MemberKeyIttImpl) {
        MemberKeyIttImpl {
            server_pubkey: member.server_pubkey,
            server_id: member.server_id,
            batch_num: member.batch_num,
            join_time: member.join_time,
            user_pubkey: member.user_pubkey,
        }
    }
}

impl vstd::std_specs::convert::FromSpecImpl<&MemberImpl> for MemberKeyIttImpl {
    open spec fn obeys_from_spec() -> bool {
        true
    }

    open spec fn from_spec(member: &MemberImpl) -> MemberKeyIttImpl {
        MemberKeyIttImpl {
            server_pubkey: member.server_pubkey,
            server_id: member.server_id,
            batch_num: member.batch_num,
            join_time: member.join_time,
            user_pubkey: member.user_pubkey,
        }
    }
}

impl From<&MemberImpl> for MemberKeyHashImpl {
    fn from(member: &MemberImpl) -> (k: MemberKeyHashImpl) {
        MemberKeyHashImpl {
            server_pubkey: member.server_pubkey,
            server_id: member.server_id,
            user_pubkey: member.user_pubkey,
        }
    }
}

impl vstd::std_specs::convert::FromSpecImpl<&MemberImpl> for MemberKeyHashImpl {
    open spec fn obeys_from_spec() -> bool {
        true
    }

    open spec fn from_spec(member: &MemberImpl) -> MemberKeyHashImpl {
        MemberKeyHashImpl {
            server_pubkey: member.server_pubkey,
            server_id: member.server_id,
            user_pubkey: member.user_pubkey,
        }
    }
}

impl From<&MemberImpl> for MemberKeyAuthImpl {
    fn from(member: &MemberImpl) -> (k: MemberKeyAuthImpl) {
        MemberKeyAuthImpl {
            server_pubkey: member.server_pubkey,
            server_id: member.server_id,
            roles: member.roles,
            batch_num: member.batch_num,
            join_time: member.join_time,
            user_pubkey: member.user_pubkey,
        }
    }
}

impl vstd::std_specs::convert::FromSpecImpl<&MemberImpl> for MemberKeyAuthImpl {
    open spec fn obeys_from_spec() -> bool {
        true
    }

    open spec fn from_spec(member: &MemberImpl) -> MemberKeyAuthImpl {
        MemberKeyAuthImpl {
            server_pubkey: member.server_pubkey,
            server_id: member.server_id,
            roles: member.roles,
            batch_num: member.batch_num,
            join_time: member.join_time,
            user_pubkey: member.user_pubkey,
        }
    }
}

impl From<&MemberImpl> for MemberValueImpl {
    fn from(member: &MemberImpl) -> (v: MemberValueImpl) {
        MemberValueImpl {
            roles: member.roles,
            join_time: member.join_time,
            modified_time: member.modified_time,
            batch_num: member.batch_num,
        }
    }
}

impl vstd::std_specs::convert::FromSpecImpl<&MemberImpl> for MemberValueImpl {
    open spec fn obeys_from_spec() -> bool {
        true
    }

    open spec fn from_spec(member: &MemberImpl) -> MemberValueImpl {
        MemberValueImpl {
            roles: member.roles,
            join_time: member.join_time,
            modified_time: member.modified_time,
            batch_num: member.batch_num,
        }
    }
}

} // verus!
