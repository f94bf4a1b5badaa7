//! The events exchanged over a concord websocket connection.

use crate::ser::{ReadError, Ser, all_wf, lemma_from_pos_skip, lemma_skip_front, lemma_write_read_bytes64, lemma_write_read_list, read_bytes64, read_list, spec_read_bytes64, spec_read_list, spec_write_bytes64, spec_write_items, spec_write_list, views, write_bytes64, write_items, write_list};
use crate::types::{Image, Invite, ProfileData, Pubkey, SerOption, SerString, ServerId, Signature, U128};
use crate::store::Member as StoredMember;
use vstd::prelude::*;

verus! {

/// The protocol version written in every event.
pub const PROTOCOL_VERSION: u8 = 1;

/// Delete a server.
#[derive(Debug, Clone, Copy)]
pub struct DeleteServerEvent {
    pub server_pubkey: Pubkey,
    pub server_id: ServerId,
}

/// Change the name or icon of a server.
#[derive(Debug)]
pub struct ModifyServerEvent {
    pub name: SerOption<SerString>,
    pub icon: SerOption<Image>,
    pub server_id: ServerId,
    pub server_pubkey: Pubkey,
}

/// Create a server.
#[derive(Debug)]
pub struct CreateServerEvent {
    pub name: SerString,
    pub icon: Vec<u8>,
}

/// A channel of a server.
#[derive(Debug)]
pub struct Channel {
    pub name: SerString,
    pub description: SerString,
    pub channel_id: u64,
}

#[derive(Debug)]
pub struct AddChannelRequest {
    pub server_id: ServerId,
    pub server_pubkey: Pubkey,
    pub name: SerString,
    pub description: SerString,
}

#[derive(Debug, Clone, Copy)]
pub struct AddChannelResponse {
    pub channel_id: u64,
    pub success: bool,
}

#[derive(Debug)]
pub struct ModifyChannelRequest {
    pub server_id: ServerId,
    pub server_pubkey: Pubkey,
    pub channel_id: u64,
    pub name: SerString,
    pub description: SerString,
}

#[derive(Debug, Clone, Copy)]
pub struct ModifyChannelResponse {
    pub success: bool,
}

#[derive(Debug, Clone, Copy)]
pub struct DeleteChannelRequest {
    pub channel_id: u64,
    pub server_id: ServerId,
    pub server_pubkey: Pubkey,
}

#[derive(Debug, Clone, Copy)]
pub struct DeleteChannelResponse {
    pub success: bool,
}

#[derive(Debug)]
pub struct GetChannelsResponse {
    pub channels: Vec<Channel>,
    pub server_id: ServerId,
    pub server_pubkey: Pubkey,
}

#[derive(Debug, Clone, Copy)]
pub struct GetChannelsRequest {
    pub server_id: ServerId,
    pub server_pubkey: Pubkey,
}

#[derive(Debug, Clone, Copy)]
pub struct CreateInviteRequest {
    pub server_id: ServerId,
    pub server_pubkey: Pubkey,
    pub count: u64,
    pub expiration: u128,
}

#[derive(Debug, Clone, Copy)]
pub struct CreateInviteResponse {
    pub success: bool,
    pub invite_id: u128,
}

#[derive(Debug, Clone, Copy)]
pub struct ListInvitesRequest {
    pub server_id: ServerId,
    pub server_pubkey: Pubkey,
}

#[derive(Debug)]
pub struct ListInvitesResponse {
    pub invites: Vec<Invite>,
}

#[derive(Debug, Clone, Copy)]
pub struct ModifyInviteRequest {
    pub invite_id: u128,
    pub max: u64,
    pub expiration: u128,
}

#[derive(Debug, Clone, Copy)]
pub struct ModifyInviteResponse {
    pub success: bool,
}

#[derive(Debug, Clone, Copy)]
pub struct DeleteInviteRequest {
    pub invite_id: u128,
}

#[derive(Debug, Clone, Copy)]
pub struct DeleteInviteResponse {
    pub success: bool,
}

#[derive(Debug)]
pub struct JoinServerRequest {
    pub invite_url: SerString,
}

#[derive(Debug, Clone, Copy)]
pub struct JoinServerResponse {
    pub success: bool,
}

#[derive(Debug)]
pub struct ViewInviteRequest {
    pub invite_url: SerString,
}

/// What is shown of a server to someone holding an invite to it.
#[derive(Debug)]
pub struct InviteResponseInfo {
    pub inviter_name: SerString,
    pub inviter_icon: Image,
    pub server_icon: Image,
    pub server_name: SerString,
    pub current_members: u64,
    pub online_members: u64,
}

#[derive(Debug)]
pub struct ViewInviteResponse {
    pub response_info: Option<InviteResponseInfo>,
}

#[derive(Debug)]
pub struct AcceptInviteRequest {
    pub invite_id: u128,
    pub user_pubkey: [u8; 32],
    pub server_pubkey: [u8; 32],
    pub user_name: SerString,
    pub user_bio: SerString,
    pub avatar: Image,
}

#[derive(Debug, Clone, Copy)]
pub struct AcceptInviteResponse {
    pub success: bool,
}

/// What a profile request asks of avatars.
#[derive(PartialEq, Eq, Structural, Debug, Clone, Copy)]
pub enum ProfileImageRequestType {
    ReturnAvatars,
    SaveAvatars,
    NoAvatars,
}

#[derive(Debug)]
pub struct GetProfileRequest {
    pub user_pubkeys: Vec<Pubkey>,
    pub server_pubkey: Pubkey,
    pub server_id: ServerId,
    pub image_request_type: ProfileImageRequestType,
    pub include_profile_data: bool,
}

#[derive(Debug)]
pub struct GetProfileResponse {
    pub data: Vec<(SerOption<Image>, SerOption<ProfileData>)>,
}

#[derive(Debug)]
pub struct SetProfileRequest {
    pub server_pubkey: Pubkey,
    pub server_id: ServerId,
    pub avatar: SerOption<Image>,
    pub profile_data: SerOption<ProfileData>,
}

#[derive(Debug, Clone, Copy)]
pub struct SetProfileResponse {
    pub success: bool,
}

/// Whether a member is online.
#[derive(Debug, PartialEq, Eq, Structural, Clone, Copy)]
pub enum OnlineStatus {
    Offline,
    Online,
}

/// A member of a server, as sent to clients.
#[derive(Debug)]
pub struct Member {
    user_pubkey: Pubkey,
    user_name: SerString,
    user_bio: SerString,
    roles: u128,
    profile_seqno: u64,
    online_status: OnlineStatus,
}

#[derive(Debug, Clone, Copy)]
pub struct GetMembersRequest {
    pub server_id: ServerId,
    pub server_pubkey: Pubkey,
    pub batch_num: u64,
}

#[derive(Debug)]
pub struct GetMembersResponse {
    pub members: Vec<Member>,
    pub server_id: ServerId,
    pub server_pubkey: Pubkey,
    pub batch_num: u64,
}

#[derive(Debug, Clone, Copy)]
pub struct GetServersEvent {}

#[derive(Debug, Clone, Copy)]
pub struct ChallengeEvent {
    pub challenge: u128,
}

/// Authentication: either the token given when the server started, or a
/// signature of a challenge with the user's key.
#[derive(Debug)]
pub struct AuthEvent {
    pub signature: SerOption<Signature>,
    pub token: SerOption<U128>,
    pub pubkey: SerOption<Pubkey>,
}

#[derive(Debug)]
pub struct AuthResponse {
    pub success: bool,
    pub redirect: SerOption<SerString>,
}

/// A server, as sent to clients.
#[derive(Debug)]
pub struct ServerInfo {
    pub name: SerString,
    pub description: SerString,
    pub server_id: ServerId,
    pub server_pubkey: Pubkey,
    pub seqno: u64,
}

#[derive(Debug)]
pub struct GetServersResponse {
    pub servers: Vec<ServerInfo>,
}

/// The types of event, numbered in the order declared.
#[derive(Debug, Eq, PartialEq, Structural, Clone, Copy)]
pub enum EventType {
    AuthEvent,
    ChallengeEvent,
    AuthResponse,
    GetServersEvent,
    GetServersResponse,
    CreateServerEvent,
    DeleteServerEvent,
    ModifyServerEvent,
    GetChannelsRequest,
    GetChannelsResponse,
    AddChannelRequest,
    DeleteChannelRequest,
    ModifyChannelRequest,
    AddChannelResponse,
    DeleteChannelResponse,
    ModifyChannelResponse,
    GetMembersRequest,
    GetMembersResponse,
    CreateInviteRequest,
    CreateInviteResponse,
    ListInvitesRequest,
    ListInvitesResponse,
    ModifyInviteRequest,
    ModifyInviteResponse,
    DeleteInviteRequest,
    DeleteInviteResponse,
    ViewInviteRequest,
    ViewInviteResponse,
    AcceptInviteRequest,
    AcceptInviteResponse,
    JoinServerRequest,
    JoinServerResponse,
    GetProfileRequest,
    GetProfileResponse,
    SetProfileRequest,
    SetProfileResponse,
}

impl View for ProfileImageRequestType {
    type V = ProfileImageRequestType;

    open spec fn view(&self) -> ProfileImageRequestType {
        *self
    }
}

impl Ser for ProfileImageRequestType {
    open spec fn spec_write(v: ProfileImageRequestType) -> Seq<u8> {
        match v {
            ProfileImageRequestType::ReturnAvatars => seq![0u8],
            ProfileImageRequestType::SaveAvatars => seq![1u8],
            ProfileImageRequestType::NoAvatars => seq![2u8],
        }
    }

    closed spec fn spec_read(s: Seq<u8>) -> Result<(ProfileImageRequestType, nat), ReadError> {
        match <u8 as Ser>::spec_read(s) {
            Err(e) => Err(e),
            Ok((t, n)) => Ok((
                if t == 0 {
                    ProfileImageRequestType::ReturnAvatars
                } else if t == 1 {
                    ProfileImageRequestType::SaveAvatars
                } else {
                    ProfileImageRequestType::NoAvatars
                },
                n,
            )),
        }
    }

    open spec fn spec_wf(v: ProfileImageRequestType) -> bool {
        true
    }

    proof fn lemma_write_read(v: ProfileImageRequestType, rest: Seq<u8>) {
    }

    fn write(&self, out: &mut Vec<u8>) {
        match self {
            ProfileImageRequestType::ReturnAvatars => out.push(0),
            ProfileImageRequestType::SaveAvatars => out.push(1),
            ProfileImageRequestType::NoAvatars => out.push(2),
        }
    }

    fn read(buf: &[u8], pos: usize) -> (res: Result<(ProfileImageRequestType, usize), ReadError>) {
        let (t, p) = <u8 as Ser>::read(buf, pos)?;
        let r = if t == 0 {
            ProfileImageRequestType::ReturnAvatars
        } else if t == 1 {
            ProfileImageRequestType::SaveAvatars
        } else {
            ProfileImageRequestType::NoAvatars
        };
        Ok((r, p))
    }
}

impl View for OnlineStatus {
    type V = OnlineStatus;

    open spec fn view(&self) -> OnlineStatus {
        *self
    }
}

impl Ser for OnlineStatus {
    open spec fn spec_write(v: OnlineStatus) -> Seq<u8> {
        match v {
            OnlineStatus::Offline => seq![0u8],
            OnlineStatus::Online => seq![1u8],
        }
    }

    closed spec fn spec_read(s: Seq<u8>) -> Result<(OnlineStatus, nat), ReadError> {
        match <u8 as Ser>::spec_read(s) {
            Err(e) => Err(e),
            Ok((t, n)) => if t == 0 {
                Ok((OnlineStatus::Offline, n))
            } else if t == 1 {
                Ok((OnlineStatus::Online, n))
            } else {
                Err(ReadError::UnknownOnlineStatus)
            },
        }
    }

    open spec fn spec_wf(v: OnlineStatus) -> bool {
        true
    }

    proof fn lemma_write_read(v: OnlineStatus, rest: Seq<u8>) {
    }

    fn write(&self, out: &mut Vec<u8>) {
        match self {
            OnlineStatus::Offline => out.push(0),
            OnlineStatus::Online => out.push(1),
        }
    }

    fn read(buf: &[u8], pos: usize) -> (res: Result<(OnlineStatus, usize), ReadError>) {
        let (t, p) = <u8 as Ser>::read(buf, pos)?;
        if t == 0 {
            Ok((OnlineStatus::Offline, p))
        } else if t == 1 {
            Ok((OnlineStatus::Online, p))
        } else {
            Err(ReadError::UnknownOnlineStatus)
        }
    }
}

impl View for ViewInviteResponse {
    type V = Option<<InviteResponseInfo as View>::V>;

    open spec fn view(&self) -> Option<<InviteResponseInfo as View>::V> {
        match self.response_info {
            Some(x) => Some(x@),
            None => None,
        }
    }
}

impl Ser for ViewInviteResponse {
    open spec fn spec_write(v: Option<<InviteResponseInfo as View>::V>) -> Seq<u8> {
        match v {
            None => seq![0u8],
            Some(x) => seq![1u8] + InviteResponseInfo::spec_write(x),
        }
    }

    closed spec fn spec_read(s: Seq<u8>) -> Result<(Option<<InviteResponseInfo as View>::V>, nat), ReadError> {
        match <u8 as Ser>::spec_read(s) {
            Err(e) => Err(e),
            Ok((t, n1)) => if t == 0 {
                Ok((None, n1))
            } else {
                match InviteResponseInfo::spec_read(s.skip(n1 as int)) {
                    Err(e) => Err(e),
                    Ok((x, n2)) => Ok((Some(x), n1 + n2)),
                }
            },
        }
    }

    open spec fn spec_wf(v: Option<<InviteResponseInfo as View>::V>) -> bool {
        match v {
            None => true,
            Some(x) => InviteResponseInfo::spec_wf(x),
        }
    }

    proof fn lemma_write_read(v: Option<<InviteResponseInfo as View>::V>, rest: Seq<u8>) {
        match v {
            None => {
                assert(Self::spec_write(v) + rest =~= seq![0u8] + rest);
            },
            Some(x) => {
                let e = InviteResponseInfo::spec_write(x);
                assert(Self::spec_write(v) + rest =~= seq![1u8] + (e + rest));
                lemma_skip_front(seq![1u8], e + rest);
                InviteResponseInfo::lemma_write_read(x, rest);
            },
        }
    }

    fn write(&self, out: &mut Vec<u8>) {
        let ghost start = out@;
        match &self.response_info {
            Some(x) => {
                out.push(1);
                x.write(out);
            },
            None => {
                out.push(0);
            },
        }
        assert(out@ =~= start + Self::spec_write(self@));
    }

    fn read(buf: &[u8], pos: usize) -> (res: Result<(ViewInviteResponse, usize), ReadError>) {
        let (t, p1) = <u8 as Ser>::read(buf, pos)?;
        if t == 0 {
            Ok((ViewInviteResponse { response_info: None }, p1))
        } else {
            proof {
                lemma_from_pos_skip(buf@, pos as int, p1 as int);
            }
            let (x, p2) = InviteResponseInfo::read(buf, p1)?;
            Ok((ViewInviteResponse { response_info: Some(x) }, p2))
        }
    }
}

/// `n` copies of `b`, one after the other.
pub open spec fn repeat_bytes(b: Seq<u8>, n: nat) -> Seq<u8>
    decreases n,
{
    if n == 0 {
        Seq::empty()
    } else {
        repeat_bytes(b, (n - 1) as nat) + b
    }
}

impl View for GetMembersResponse {
    type V = (Seq<<Member as View>::V>, Seq<u8>, Seq<u8>, u64);

    open spec fn view(&self) -> (Seq<<Member as View>::V>, Seq<u8>, Seq<u8>, u64) {
        (views(self.members@), self.server_id@, self.server_pubkey@, self.batch_num)
    }
}

/// The response to a member list request is written with the number of
/// members, then the whole list once for each member, then the server and
/// the batch: a list of more than one member does not read back as written.
impl Ser for GetMembersResponse {
    open spec fn spec_write(v: (Seq<<Member as View>::V>, Seq<u8>, Seq<u8>, u64)) -> Seq<u8> {
        <u64 as Ser>::spec_write(v.0.len() as u64) + repeat_bytes(spec_write_items::<Member>(v.0), v.0.len())
            + <ServerId as Ser>::spec_write(v.1) + <Pubkey as Ser>::spec_write(v.2) + <u64 as Ser>::spec_write(v.3)
    }

    closed spec fn spec_read(s: Seq<u8>) -> Result<((Seq<<Member as View>::V>, Seq<u8>, Seq<u8>, u64), nat), ReadError> {
        match spec_read_list::<Member>(s) {
            Err(e) => Err(e),
            Ok((members, n1)) => {
                let s1 = s.skip(n1 as int);
                match <ServerId as Ser>::spec_read(s1) {
                    Err(e) => Err(e),
                    Ok((server_id, n2)) => {
                        let s2 = s1.skip(n2 as int);
                        match <Pubkey as Ser>::spec_read(s2) {
                            Err(e) => Err(e),
                            Ok((server_pubkey, n3)) => {
                                let s3 = s2.skip(n3 as int);
                                match <u64 as Ser>::spec_read(s3) {
                                    Err(e) => Err(e),
                                    Ok((batch_num, n4)) => Ok(
                                        ((members, server_id, server_pubkey, batch_num), n1 + n2 + n3 + n4),
                                    ),
                                }
                            },
                        }
                    },
                }
            },
        }
    }

    open spec fn spec_wf(v: (Seq<<Member as View>::V>, Seq<u8>, Seq<u8>, u64)) -> bool {
        all_wf::<Member>(v.0) && v.0.len() <= 1 && <ServerId as Ser>::spec_wf(v.1) && <Pubkey as Ser>::spec_wf(v.2)
    }

    proof fn lemma_write_read(v: (Seq<<Member as View>::V>, Seq<u8>, Seq<u8>, u64), rest: Seq<u8>) {
        let e1 = spec_write_list::<Member>(v.0);
        let e2 = <ServerId as Ser>::spec_write(v.1);
        let e3 = <Pubkey as Ser>::spec_write(v.2);
        let e4 = <u64 as Ser>::spec_write(v.3);
        let items = spec_write_items::<Member>(v.0);
        if v.0.len() == 0 {
            assert(repeat_bytes(items, 0) =~= Seq::<u8>::empty());
            assert(items =~= Seq::<u8>::empty());
        } else {
            assert(repeat_bytes(items, 1) =~= repeat_bytes(items, 0) + items);
            assert(repeat_bytes(items, 0) =~= Seq::<u8>::empty());
        }
        assert(Self::spec_write(v) + rest =~= e1 + (e2 + (e3 + (e4 + rest))));
        lemma_write_read_list::<Member>(v.0, e2 + (e3 + (e4 + rest)));
        lemma_skip_front(e1, e2 + (e3 + (e4 + rest)));
        <ServerId as Ser>::lemma_write_read(v.1, e3 + (e4 + rest));
        lemma_skip_front(e2, e3 + (e4 + rest));
        <Pubkey as Ser>::lemma_write_read(v.2, e4 + rest);
        lemma_skip_front(e3, e4 + rest);
        <u64 as Ser>::lemma_write_read(v.3, rest);
    }

    /// Writes the number of members, then the whole list once for each
    /// member, as the protocol does, then the server and the batch.
    fn write(&self, out: &mut Vec<u8>) {
        let ghost start = out@;
        let members_len = self.members.len() as u64;
        members_len.write(out);
        let ghost mid = out@;
        let ghost items = spec_write_items::<Member>(views(self.members@));
        let mut i: usize = 0;
        assert(out@ =~= mid + repeat_bytes(items, 0));
        while i < self.members.len()
            invariant
                i <= self.members@.len(),
                items == spec_write_items::<Member>(views(self.members@)),
                out@ == mid + repeat_bytes(items, i as nat),
            decreases self.members@.len() - i,
        {
            write_items(&self.members, out);
            assert(out@ =~= mid + repeat_bytes(items, (i + 1) as nat));
            i = i + 1;
        }
        self.server_id.write(out);
        self.server_pubkey.write(out);
        self.batch_num.write(out);
        assert(out@ =~= start + Self::spec_write(self@));
    }

    fn read(buf: &[u8], pos: usize) -> (res: Result<(GetMembersResponse, usize), ReadError>) {
        let (members, p1) = read_list::<Member>(buf, pos)?;
        proof {
            lemma_from_pos_skip(buf@, pos as int, p1 as int);
        }
        let (server_id, p2) = <ServerId as Ser>::read(buf, p1)?;
        proof {
            lemma_from_pos_skip(buf@, p1 as int, p2 as int);
        }
        let (server_pubkey, p3) = <Pubkey as Ser>::read(buf, p2)?;
        proof {
            lemma_from_pos_skip(buf@, p2 as int, p3 as int);
        }
        let (batch_num, p4) = <u64 as Ser>::read(buf, p3)?;
        Ok((GetMembersResponse { members, server_id, server_pubkey, batch_num }, p4))
    }
}

impl View for DeleteServerEvent {
    type V = (<Pubkey as View>::V, <ServerId as View>::V);

    open spec fn view(&self) -> (<Pubkey as View>::V, <ServerId as View>::V) {
        (self.server_pubkey@, self.server_id@)
    }
}

impl Ser for DeleteServerEvent {
    open spec fn spec_write(v: (<Pubkey as View>::V, <ServerId as View>::V)) -> Seq<u8> {
        <Pubkey as Ser>::spec_write(v.0) + <ServerId as Ser>::spec_write(v.1)
    }

    closed spec fn spec_read(s: Seq<u8>) -> Result<((<Pubkey as View>::V, <ServerId as View>::V), nat), ReadError> {
        match <Pubkey as Ser>::spec_read(s) {
            Err(e) => Err(e),
            Ok((server_pubkey, n1)) => {
                let s1 = s.skip(n1 as int);
                match <ServerId as Ser>::spec_read(s1) {
                    Err(e) => Err(e),
                    Ok((server_id, n2)) => {
                        Ok(((server_pubkey, server_id), n1 + n2))
                    },
                }
            },
        }
    }

    open spec fn spec_wf(v: (<Pubkey as View>::V, <ServerId as View>::V)) -> bool {
        <Pubkey as Ser>::spec_wf(v.0) && <ServerId as Ser>::spec_wf(v.1)
    }

    proof fn lemma_write_read(v: (<Pubkey as View>::V, <ServerId as View>::V), rest: Seq<u8>) {
        let e1 = <Pubkey as Ser>::spec_write(v.0);
        let e2 = <ServerId as Ser>::spec_write(v.1);
        assert(Self::spec_write(v) + rest =~= e1 + (e2 + rest));
        <Pubkey as Ser>::lemma_write_read(v.0, e2 + rest);
        lemma_skip_front(e1, e2 + rest);
        <ServerId as Ser>::lemma_write_read(v.1, rest);
    }

    fn write(&self, out: &mut Vec<u8>) {
        let ghost start = out@;
        self.server_pubkey.write(out);
        self.server_id.write(out);
        assert(out@ =~= start + Self::spec_write(self@));
    }

    fn read(buf: &[u8], pos: usize) -> (res: Result<(DeleteServerEvent, usize), ReadError>) {
        let (server_pubkey, p1) = <Pubkey as Ser>::read(buf, pos)?;
        proof {
            lemma_from_pos_skip(buf@, pos as int, p1 as int);
        }
        let (server_id, p2) = <ServerId as Ser>::read(buf, p1)?;
        Ok((DeleteServerEvent { server_pubkey, server_id }, p2))
    }
}

impl View for ModifyServerEvent {
    type V = (<SerOption<SerString> as View>::V, <SerOption<Image> as View>::V, <ServerId as View>::V, <Pubkey as View>::V);

    open spec fn view(&self) -> (<SerOption<SerString> as View>::V, <SerOption<Image> as View>::V, <ServerId as View>::V, <Pubkey as View>::V) {
        (self.name@, self.icon@, self.server_id@, self.server_pubkey@)
    }
}

impl Ser for ModifyServerEvent {
    open spec fn spec_write(v: (<SerOption<SerString> as View>::V, <SerOption<Image> as View>::V, <ServerId as View>::V, <Pubkey as View>::V)) -> Seq<u8> {
        <SerOption<SerString> as Ser>::spec_write(v.0) + <SerOption<Image> as Ser>::spec_write(v.1) + <ServerId as Ser>::spec_write(v.2) + <Pubkey as Ser>::spec_write(v.3)
    }

    closed spec fn spec_read(s: Seq<u8>) -> Result<((<SerOption<SerString> as View>::V, <SerOption<Image> as View>::V, <ServerId as View>::V, <Pubkey as View>::V), nat), ReadError> {
        match <SerOption<SerString> as Ser>::spec_read(s) {
            Err(e) => Err(e),
            Ok((name, n1)) => {
                let s1 = s.skip(n1 as int);
                match <SerOption<Image> as Ser>::spec_read(s1) {
                    Err(e) => Err(e),
                    Ok((icon, n2)) => {
                        let s2 = s1.skip(n2 as int);
                        match <ServerId as Ser>::spec_read(s2) {
                            Err(e) => Err(e),
                            Ok((server_id, n3)) => {
                                let s3 = s2.skip(n3 as int);
                                match <Pubkey as Ser>::spec_read(s3) {
                                    Err(e) => Err(e),
                                    Ok((server_pubkey, n4)) => {
                                        Ok(((name, icon, server_id, server_pubkey), n1 + n2 + n3 + n4))
                                    },
                                }
                            },
                        }
                    },
                }
            },
        }
    }

    open spec fn spec_wf(v: (<SerOption<SerString> as View>::V, <SerOption<Image> as View>::V, <ServerId as View>::V, <Pubkey as View>::V)) -> bool {
        <SerOption<SerString> as Ser>::spec_wf(v.0) && <SerOption<Image> as Ser>::spec_wf(v.1) && <ServerId as Ser>::spec_wf(v.2) && <Pubkey as Ser>::spec_wf(v.3)
    }

    proof fn lemma_write_read(v: (<SerOption<SerString> as View>::V, <SerOption<Image> as View>::V, <ServerId as View>::V, <Pubkey as View>::V), rest: Seq<u8>) {
        let e1 = <SerOption<SerString> as Ser>::spec_write(v.0);
        let e2 = <SerOption<Image> as Ser>::spec_write(v.1);
        let e3 = <ServerId as Ser>::spec_write(v.2);
        let e4 = <Pubkey as Ser>::spec_write(v.3);
        assert(Self::spec_write(v) + rest =~= e1 + (e2 + (e3 + (e4 + rest))));
        <SerOption<SerString> as Ser>::lemma_write_read(v.0, e2 + (e3 + (e4 + rest)));
        lemma_skip_front(e1, e2 + (e3 + (e4 + rest)));
        <SerOption<Image> as Ser>::lemma_write_read(v.1, e3 + (e4 + rest));
        lemma_skip_front(e2, e3 + (e4 + rest));
        <ServerId as Ser>::lemma_write_read(v.2, e4 + rest);
        lemma_skip_front(e3, e4 + rest);
        <Pubkey as Ser>::lemma_write_read(v.3, rest);
    }

    fn write(&self, out: &mut Vec<u8>) {
        let ghost start = out@;
        self.name.write(out);
        self.icon.write(out);
        self.server_id.write(out);
        self.server_pubkey.write(out);
        assert(out@ =~= start + Self::spec_write(self@));
    }

    fn read(buf: &[u8], pos: usize) -> (res: Result<(ModifyServerEvent, usize), ReadError>) {
        let (name, p1) = <SerOption<SerString> as Ser>::read(buf, pos)?;
        proof {
            lemma_from_pos_skip(buf@, pos as int, p1 as int);
        }
        let (icon, p2) = <SerOption<Image> as Ser>::read(buf, p1)?;
        proof {
            lemma_from_pos_skip(buf@, p1 as int, p2 as int);
        }
        let (server_id, p3) = <ServerId as Ser>::read(buf, p2)?;
        proof {
            lemma_from_pos_skip(buf@, p2 as int, p3 as int);
        }
        let (server_pubkey, p4) = <Pubkey as Ser>::read(buf, p3)?;
        Ok((ModifyServerEvent { name, icon, server_id, server_pubkey }, p4))
    }
}

impl View for CreateServerEvent {
    type V = (<SerString as View>::V, Seq<u8>);

    open spec fn view(&self) -> (<SerString as View>::V, Seq<u8>) {
        (self.name@, self.icon@)
    }
}

impl Ser for CreateServerEvent {
    open spec fn spec_write(v: (<SerString as View>::V, Seq<u8>)) -> Seq<u8> {
        <SerString as Ser>::spec_write(v.0) + spec_write_bytes64(v.1)
    }

    closed spec fn spec_read(s: Seq<u8>) -> Result<((<SerString as View>::V, Seq<u8>), nat), ReadError> {
        match <SerString as Ser>::spec_read(s) {
            Err(e) => Err(e),
            Ok((name, n1)) => {
                let s1 = s.skip(n1 as int);
                match spec_read_bytes64(s1) {
                    Err(e) => Err(e),
                    Ok((icon, n2)) => {
                        Ok(((name, icon), n1 + n2))
                    },
                }
            },
        }
    }

    open spec fn spec_wf(v: (<SerString as View>::V, Seq<u8>)) -> bool {
        <SerString as Ser>::spec_wf(v.0) && v.1.len() <= u64::MAX
    }

    proof fn lemma_write_read(v: (<SerString as View>::V, Seq<u8>), rest: Seq<u8>) {
        let e1 = <SerString as Ser>::spec_write(v.0);
        let e2 = spec_write_bytes64(v.1);
        assert(Self::spec_write(v) + rest =~= e1 + (e2 + rest));
        <SerString as Ser>::lemma_write_read(v.0, e2 + rest);
        lemma_skip_front(e1, e2 + rest);
        lemma_write_read_bytes64(v.1, rest);
    }

    fn write(&self, out: &mut Vec<u8>) {
        let ghost start = out@;
        self.name.write(out);
        write_bytes64(self.icon.as_slice(), out);
        assert(out@ =~= start + Self::spec_write(self@));
    }

    fn read(buf: &[u8], pos: usize) -> (res: Result<(CreateServerEvent, usize), ReadError>) {
        let (name, p1) = <SerString as Ser>::read(buf, pos)?;
        proof {
            lemma_from_pos_skip(buf@, pos as int, p1 as int);
        }
        let (icon, p2) = read_bytes64(buf, p1)?;
        Ok((CreateServerEvent { name, icon }, p2))
    }
}

impl View for Channel {
    type V = (<SerString as View>::V, <SerString as View>::V, u64);

    open spec fn view(&self) -> (<SerString as View>::V, <SerString as View>::V, u64) {
        (self.name@, self.description@, self.channel_id)
    }
}

impl Ser for Channel {
    open spec fn spec_write(v: (<SerString as View>::V, <SerString as View>::V, u64)) -> Seq<u8> {
        <u64 as Ser>::spec_write(v.2) + <SerString as Ser>::spec_write(v.0) + <SerString as Ser>::spec_write(v.1)
    }

    closed spec fn spec_read(s: Seq<u8>) -> Result<((<SerString as View>::V, <SerString as View>::V, u64), nat), ReadError> {
        match <u64 as Ser>::spec_read(s) {
            Err(e) => Err(e),
            Ok((channel_id, n1)) => {
                let s1 = s.skip(n1 as int);
                match <SerString as Ser>::spec_read(s1) {
                    Err(e) => Err(e),
                    Ok((name, n2)) => {
                        let s2 = s1.skip(n2 as int);
                        match <SerString as Ser>::spec_read(s2) {
                            Err(e) => Err(e),
                            Ok((description, n3)) => {
                                Ok(((name, description, channel_id), n1 + n2 + n3))
                            },
                        }
                    },
                }
            },
        }
    }

    open spec fn spec_wf(v: (<SerString as View>::V, <SerString as View>::V, u64)) -> bool {
        <SerString as Ser>::spec_wf(v.0) && <SerString as Ser>::spec_wf(v.1)
    }

    proof fn lemma_write_read(v: (<SerString as View>::V, <SerString as View>::V, u64), rest: Seq<u8>) {
        let e1 = <u64 as Ser>::spec_write(v.2);
        let e2 = <SerString as Ser>::spec_write(v.0);
        let e3 = <SerString as Ser>::spec_write(v.1);
        assert(Self::spec_write(v) + rest =~= e1 + (e2 + (e3 + rest)));
        <u64 as Ser>::lemma_write_read(v.2, e2 + (e3 + rest));
        lemma_skip_front(e1, e2 + (e3 + rest));
        <SerString as Ser>::lemma_write_read(v.0, e3 + rest);
        lemma_skip_front(e2, e3 + rest);
        <SerString as Ser>::lemma_write_read(v.1, rest);
    }

    fn write(&self, out: &mut Vec<u8>) {
        let ghost start = out@;
        self.channel_id.write(out);
        self.name.write(out);
        self.description.write(out);
        assert(out@ =~= start + Self::spec_write(self@));
    }

    fn read(buf: &[u8], pos: usize) -> (res: Result<(Channel, usize), ReadError>) {
        let (channel_id, p1) = <u64 as Ser>::read(buf, pos)?;
        proof {
            lemma_from_pos_skip(buf@, pos as int, p1 as int);
        }
        let (name, p2) = <SerString as Ser>::read(buf, p1)?;
        proof {
            lemma_from_pos_skip(buf@, p1 as int, p2 as int);
        }
        let (description, p3) = <SerString as Ser>::read(buf, p2)?;
        Ok((Channel { name, description, channel_id }, p3))
    }
}

impl View for AddChannelRequest {
    type V = (<ServerId as View>::V, <Pubkey as View>::V, <SerString as View>::V, <SerString as View>::V);

    open spec fn view(&self) -> (<ServerId as View>::V, <Pubkey as View>::V, <SerString as View>::V, <SerString as View>::V) {
        (self.server_id@, self.server_pubkey@, self.name@, self.description@)
    }
}

impl Ser for AddChannelRequest {
    open spec fn spec_write(v: (<ServerId as View>::V, <Pubkey as View>::V, <SerString as View>::V, <SerString as View>::V)) -> Seq<u8> {
        <ServerId as Ser>::spec_write(v.0) + <Pubkey as Ser>::spec_write(v.1) + <SerString as Ser>::spec_write(v.2) + <SerString as Ser>::spec_write(v.3)
    }

    closed spec fn spec_read(s: Seq<u8>) -> Result<((<ServerId as View>::V, <Pubkey as View>::V, <SerString as View>::V, <SerString as View>::V), nat), ReadError> {
        match <ServerId as Ser>::spec_read(s) {
            Err(e) => Err(e),
            Ok((server_id, n1)) => {
                let s1 = s.skip(n1 as int);
                match <Pubkey as Ser>::spec_read(s1) {
                    Err(e) => Err(e),
                    Ok((server_pubkey, n2)) => {
                        let s2 = s1.skip(n2 as int);
                        match <SerString as Ser>::spec_read(s2) {
                            Err(e) => Err(e),
                            Ok((name, n3)) => {
                                let s3 = s2.skip(n3 as int);
                                match <SerString as Ser>::spec_read(s3) {
                                    Err(e) => Err(e),
                                    Ok((description, n4)) => {
                                        Ok(((server_id, server_pubkey, name, description), n1 + n2 + n3 + n4))
                                    },
                                }
                            },
                        }
                    },
                }
            },
        }
    }

    open spec fn spec_wf(v: (<ServerId as View>::V, <Pubkey as View>::V, <SerString as View>::V, <SerString as View>::V)) -> bool {
        <ServerId as Ser>::spec_wf(v.0) && <Pubkey as Ser>::spec_wf(v.1) && <SerString as Ser>::spec_wf(v.2) && <SerString as Ser>::spec_wf(v.3)
    }

    proof fn lemma_write_read(v: (<ServerId as View>::V, <Pubkey as View>::V, <SerString as View>::V, <SerString as View>::V), rest: Seq<u8>) {
        let e1 = <ServerId as Ser>::spec_write(v.0);
        let e2 = <Pubkey as Ser>::spec_write(v.1);
        let e3 = <SerString as Ser>::spec_write(v.2);
        let e4 = <SerString as Ser>::spec_write(v.3);
        assert(Self::spec_write(v) + rest =~= e1 + (e2 + (e3 + (e4 + rest))));
        <ServerId as Ser>::lemma_write_read(v.0, e2 + (e3 + (e4 + rest)));
        lemma_skip_front(e1, e2 + (e3 + (e4 + rest)));
        <Pubkey as Ser>::lemma_write_read(v.1, e3 + (e4 + rest));
        lemma_skip_front(e2, e3 + (e4 + rest));
        <SerString as Ser>::lemma_write_read(v.2, e4 + rest);
        lemma_skip_front(e3, e4 + rest);
        <SerString as Ser>::lemma_write_read(v.3, rest);
    }

    fn write(&self, out: &mut Vec<u8>) {
        let ghost start = out@;
        self.server_id.write(out);
        self.server_pubkey.write(out);
        self.name.write(out);
        self.description.write(out);
        assert(out@ =~= start + Self::spec_write(self@));
    }

    fn read(buf: &[u8], pos: usize) -> (res: Result<(AddChannelRequest, usize), ReadError>) {
        let (server_id, p1) = <ServerId as Ser>::read(buf, pos)?;
        proof {
            lemma_from_pos_skip(buf@, pos as int, p1 as int);
        }
        let (server_pubkey, p2) = <Pubkey as Ser>::read(buf, p1)?;
        proof {
            lemma_from_pos_skip(buf@, p1 as int, p2 as int);
        }
        let (name, p3) = <SerString as Ser>::read(buf, p2)?;
        proof {
            lemma_from_pos_skip(buf@, p2 as int, p3 as int);
        }
        let (description, p4) = <SerString as Ser>::read(buf, p3)?;
        Ok((AddChannelRequest { server_id, server_pubkey, name, description }, p4))
    }
}

impl View for AddChannelResponse {
    type V = (u64, bool);

    open spec fn view(&self) -> (u64, bool) {
        (self.channel_id, self.success)
    }
}

impl Ser for AddChannelResponse {
    open spec fn spec_write(v: (u64, bool)) -> Seq<u8> {
        <bool as Ser>::spec_write(v.1) + <u64 as Ser>::spec_write(v.0)
    }

    closed spec fn spec_read(s: Seq<u8>) -> Result<((u64, bool), nat), ReadError> {
        match <bool as Ser>::spec_read(s) {
            Err(e) => Err(e),
            Ok((success, n1)) => {
                let s1 = s.skip(n1 as int);
                match <u64 as Ser>::spec_read(s1) {
                    Err(e) => Err(e),
                    Ok((channel_id, n2)) => {
                        Ok(((channel_id, success), n1 + n2))
                    },
                }
            },
        }
    }

    open spec fn spec_wf(v: (u64, bool)) -> bool {
        true
    }

    proof fn lemma_write_read(v: (u64, bool), rest: Seq<u8>) {
        let e1 = <bool as Ser>::spec_write(v.1);
        let e2 = <u64 as Ser>::spec_write(v.0);
        assert(Self::spec_write(v) + rest =~= e1 + (e2 + rest));
        <bool as Ser>::lemma_write_read(v.1, e2 + rest);
        lemma_skip_front(e1, e2 + rest);
        <u64 as Ser>::lemma_write_read(v.0, rest);
    }

    fn write(&self, out: &mut Vec<u8>) {
        let ghost start = out@;
        self.success.write(out);
        self.channel_id.write(out);
        assert(out@ =~= start + Self::spec_write(self@));
    }

    fn read(buf: &[u8], pos: usize) -> (res: Result<(AddChannelResponse, usize), ReadError>) {
        let (success, p1) = <bool as Ser>::read(buf, pos)?;
        proof {
            lemma_from_pos_skip(buf@, pos as int, p1 as int);
        }
        let (channel_id, p2) = <u64 as Ser>::read(buf, p1)?;
        Ok((AddChannelResponse { channel_id, success }, p2))
    }
}

impl View for ModifyChannelRequest {
    type V = (<ServerId as View>::V, <Pubkey as View>::V, u64, <SerString as View>::V, <SerString as View>::V);

    open spec fn view(&self) -> (<ServerId as View>::V, <Pubkey as View>::V, u64, <SerString as View>::V, <SerString as View>::V) {
        (self.server_id@, self.server_pubkey@, self.channel_id, self.name@, self.description@)
    }
}

impl Ser for ModifyChannelRequest {
    open spec fn spec_write(v: (<ServerId as View>::V, <Pubkey as View>::V, u64, <SerString as View>::V, <SerString as View>::V)) -> Seq<u8> {
        <ServerId as Ser>::spec_write(v.0) + <Pubkey as Ser>::spec_write(v.1) + <u64 as Ser>::spec_write(v.2) + <SerString as Ser>::spec_write(v.3) + <SerString as Ser>::spec_write(v.4)
    }

    closed spec fn spec_read(s: Seq<u8>) -> Result<((<ServerId as View>::V, <Pubkey as View>::V, u64, <SerString as View>::V, <SerString as View>::V), nat), ReadError> {
        match <ServerId as Ser>::spec_read(s) {
            Err(e) => Err(e),
            Ok((server_id, n1)) => {
                let s1 = s.skip(n1 as int);
                match <Pubkey as Ser>::spec_read(s1) {
                    Err(e) => Err(e),
                    Ok((server_pubkey, n2)) => {
                        let s2 = s1.skip(n2 as int);
                        match <u64 as Ser>::spec_read(s2) {
                            Err(e) => Err(e),
                            Ok((channel_id, n3)) => {
                                let s3 = s2.skip(n3 as int);
                                match <SerString as Ser>::spec_read(s3) {
                                    Err(e) => Err(e),
                                    Ok((name, n4)) => {
                                        let s4 = s3.skip(n4 as int);
                                        match <SerString as Ser>::spec_read(s4) {
                                            Err(e) => Err(e),
                                            Ok((description, n5)) => {
                                                Ok(((server_id, server_pubkey, channel_id, name, description), n1 + n2 + n3 + n4 + n5))
                                            },
                                        }
                                    },
                                }
                            },
                        }
                    },
                }
            },
        }
    }

    open spec fn spec_wf(v: (<ServerId as View>::V, <Pubkey as View>::V, u64, <SerString as View>::V, <SerString as View>::V)) -> bool {
        <ServerId as Ser>::spec_wf(v.0) && <Pubkey as Ser>::spec_wf(v.1) && <SerString as Ser>::spec_wf(v.3) && <SerString as Ser>::spec_wf(v.4)
    }

    proof fn lemma_write_read(v: (<ServerId as View>::V, <Pubkey as View>::V, u64, <SerString as View>::V, <SerString as View>::V), rest: Seq<u8>) {
        let e1 = <ServerId as Ser>::spec_write(v.0);
        let e2 = <Pubkey as Ser>::spec_write(v.1);
        let e3 = <u64 as Ser>::spec_write(v.2);
        let e4 = <SerString as Ser>::spec_write(v.3);
        let e5 = <SerString as Ser>::spec_write(v.4);
        assert(Self::spec_write(v) + rest =~= e1 + (e2 + (e3 + (e4 + (e5 + rest)))));
        <ServerId as Ser>::lemma_write_read(v.0, e2 + (e3 + (e4 + (e5 + rest))));
        lemma_skip_front(e1, e2 + (e3 + (e4 + (e5 + rest))));
        <Pubkey as Ser>::lemma_write_read(v.1, e3 + (e4 + (e5 + rest)));
        lemma_skip_front(e2, e3 + (e4 + (e5 + rest)));
        <u64 as Ser>::lemma_write_read(v.2, e4 + (e5 + rest));
        lemma_skip_front(e3, e4 + (e5 + rest));
        <SerString as Ser>::lemma_write_read(v.3, e5 + rest);
        lemma_skip_front(e4, e5 + rest);
        <SerString as Ser>::lemma_write_read(v.4, rest);
    }

    fn write(&self, out: &mut Vec<u8>) {
        let ghost start = out@;
        self.server_id.write(out);
        self.server_pubkey.write(out);
        self.channel_id.write(out);
        self.name.write(out);
        self.description.write(out);
        assert(out@ =~= start + Self::spec_write(self@));
    }

    fn read(buf: &[u8], pos: usize) -> (res: Result<(ModifyChannelRequest, usize), ReadError>) {
        let (server_id, p1) = <ServerId as Ser>::read(buf, pos)?;
        proof {
            lemma_from_pos_skip(buf@, pos as int, p1 as int);
        }
        let (server_pubkey, p2) = <Pubkey as Ser>::read(buf, p1)?;
        proof {
            lemma_from_pos_skip(buf@, p1 as int, p2 as int);
        }
        let (channel_id, p3) = <u64 as Ser>::read(buf, p2)?;
        proof {
            lemma_from_pos_skip(buf@, p2 as int, p3 as int);
        }
        let (name, p4) = <SerString as Ser>::read(buf, p3)?;
        proof {
            lemma_from_pos_skip(buf@, p3 as int, p4 as int);
        }
        let (description, p5) = <SerString as Ser>::read(buf, p4)?;
        Ok((ModifyChannelRequest { server_id, server_pubkey, channel_id, name, description }, p5))
    }
}

impl View for ModifyChannelResponse {
    type V = bool;

    open spec fn view(&self) -> bool {
        self.success
    }
}

impl Ser for ModifyChannelResponse {
    open spec fn spec_write(v: bool) -> Seq<u8> {
        <bool as Ser>::spec_write(v)
    }

    closed spec fn spec_read(s: Seq<u8>) -> Result<(bool, nat), ReadError> {
        match <bool as Ser>::spec_read(s) {
            Err(e) => Err(e),
            Ok((success, n1)) => {
                Ok((success, n1))
            },
        }
    }

    open spec fn spec_wf(v: bool) -> bool {
        true
    }

    proof fn lemma_write_read(v: bool, rest: Seq<u8>) {
        let e1 = <bool as Ser>::spec_write(v);
        assert(Self::spec_write(v) + rest =~= e1 + rest);
        <bool as Ser>::lemma_write_read(v, rest);
    }

    fn write(&self, out: &mut Vec<u8>) {
        let ghost start = out@;
        self.success.write(out);
        assert(out@ =~= start + Self::spec_write(self@));
    }

    fn read(buf: &[u8], pos: usize) -> (res: Result<(ModifyChannelResponse, usize), ReadError>) {
        let (success, p1) = <bool as Ser>::read(buf, pos)?;
        Ok((ModifyChannelResponse { success }, p1))
    }
}

impl View for DeleteChannelResponse {
    type V = bool;

    open spec fn view(&self) -> bool {
        self.success
    }
}

impl Ser for DeleteChannelResponse {
    open spec fn spec_write(v: bool) -> Seq<u8> {
        <bool as Ser>::spec_write(v)
    }

    closed spec fn spec_read(s: Seq<u8>) -> Result<(bool, nat), ReadError> {
        match <bool as Ser>::spec_read(s) {
            Err(e) => Err(e),
            Ok((success, n1)) => {
                Ok((success, n1))
            },
        }
    }

    open spec fn spec_wf(v: bool) -> bool {
        true
    }

    proof fn lemma_write_read(v: bool, rest: Seq<u8>) {
        let e1 = <bool as Ser>::spec_write(v);
        assert(Self::spec_write(v) + rest =~= e1 + rest);
        <bool as Ser>::lemma_write_read(v, rest);
    }

    fn write(&self, out: &mut Vec<u8>) {
        let ghost start = out@;
        self.success.write(out);
        assert(out@ =~= start + Self::spec_write(self@));
    }

    fn read(buf: &[u8], pos: usize) -> (res: Result<(DeleteChannelResponse, usize), ReadError>) {
        let (success, p1) = <bool as Ser>::read(buf, pos)?;
        Ok((DeleteChannelResponse { success }, p1))
    }
}

impl View for ModifyInviteResponse {
    type V = bool;

    open spec fn view(&self) -> bool {
        self.success
    }
}

impl Ser for ModifyInviteResponse {
    open spec fn spec_write(v: bool) -> Seq<u8> {
        <bool as Ser>::spec_write(v)
    }

    closed spec fn spec_read(s: Seq<u8>) -> Result<(bool, nat), ReadError> {
        match <bool as Ser>::spec_read(s) {
            Err(e) => Err(e),
            Ok((success, n1)) => {
                Ok((success, n1))
            },
        }
    }

    open spec fn spec_wf(v: bool) -> bool {
        true
    }

    proof fn lemma_write_read(v: bool, rest: Seq<u8>) {
        let e1 = <bool as Ser>::spec_write(v);
        assert(Self::spec_write(v) + rest =~= e1 + rest);
        <bool as Ser>::lemma_write_read(v, rest);
    }

    fn write(&self, out: &mut Vec<u8>) {
        let ghost start = out@;
        self.success.write(out);
        assert(out@ =~= start + Self::spec_write(self@));
    }

    fn read(buf: &[u8], pos: usize) -> (res: Result<(ModifyInviteResponse, usize), ReadError>) {
        let (success, p1) = <bool as Ser>::read(buf, pos)?;
        Ok((ModifyInviteResponse { success }, p1))
    }
}

impl View for DeleteInviteResponse {
    type V = bool;

    open spec fn view(&self) -> bool {
        self.success
    }
}

impl Ser for DeleteInviteResponse {
    open spec fn spec_write(v: bool) -> Seq<u8> {
        <bool as Ser>::spec_write(v)
    }

    closed spec fn spec_read(s: Seq<u8>) -> Result<(bool, nat), ReadError> {
        match <bool as Ser>::spec_read(s) {
            Err(e) => Err(e),
            Ok((success, n1)) => {
                Ok((success, n1))
            },
        }
    }

    open spec fn spec_wf(v: bool) -> bool {
        true
    }

    proof fn lemma_write_read(v: bool, rest: Seq<u8>) {
        let e1 = <bool as Ser>::spec_write(v);
        assert(Self::spec_write(v) + rest =~= e1 + rest);
        <bool as Ser>::lemma_write_read(v, rest);
    }

    fn write(&self, out: &mut Vec<u8>) {
        let ghost start = out@;
        self.success.write(out);
        assert(out@ =~= start + Self::spec_write(self@));
    }

    fn read(buf: &[u8], pos: usize) -> (res: Result<(DeleteInviteResponse, usize), ReadError>) {
        let (success, p1) = <bool as Ser>::read(buf, pos)?;
        Ok((DeleteInviteResponse { success }, p1))
    }
}

impl View for JoinServerResponse {
    type V = bool;

    open spec fn view(&self) -> bool {
        self.success
    }
}

impl Ser for JoinServerResponse {
    open spec fn spec_write(v: bool) -> Seq<u8> {
        <bool as Ser>::spec_write(v)
    }

    closed spec fn spec_read(s: Seq<u8>) -> Result<(bool, nat), ReadError> {
        match <bool as Ser>::spec_read(s) {
            Err(e) => Err(e),
            Ok((success, n1)) => {
                Ok((success, n1))
            },
        }
    }

    open spec fn spec_wf(v: bool) -> bool {
        true
    }

    proof fn lemma_write_read(v: bool, rest: Seq<u8>) {
        let e1 = <bool as Ser>::spec_write(v);
        assert(Self::spec_write(v) + rest =~= e1 + rest);
        <bool as Ser>::lemma_write_read(v, rest);
    }

    fn write(&self, out: &mut Vec<u8>) {
        let ghost start = out@;
        self.success.write(out);
        assert(out@ =~= start + Self::spec_write(self@));
    }

    fn read(buf: &[u8], pos: usize) -> (res: Result<(JoinServerResponse, usize), ReadError>) {
        let (success, p1) = <bool as Ser>::read(buf, pos)?;
        Ok((JoinServerResponse { success }, p1))
    }
}

impl View for AcceptInviteResponse {
    type V = bool;

    open spec fn view(&self) -> bool {
        self.success
    }
}

impl Ser for AcceptInviteResponse {
    open spec fn spec_write(v: bool) -> Seq<u8> {
        <bool as Ser>::spec_write(v)
    }

    closed spec fn spec_read(s: Seq<u8>) -> Result<(bool, nat), ReadError> {
        match <bool as Ser>::spec_read(s) {
            Err(e) => Err(e),
            Ok((success, n1)) => {
                Ok((success, n1))
            },
        }
    }

    open spec fn spec_wf(v: bool) -> bool {
        true
    }

    proof fn lemma_write_read(v: bool, rest: Seq<u8>) {
        let e1 = <bool as Ser>::spec_write(v);
        assert(Self::spec_write(v) + rest =~= e1 + rest);
        <bool as Ser>::lemma_write_read(v, rest);
    }

    fn write(&self, out: &mut Vec<u8>) {
        let ghost start = out@;
        self.success.write(out);
        assert(out@ =~= start + Self::spec_write(self@));
    }

    fn read(buf: &[u8], pos: usize) -> (res: Result<(AcceptInviteResponse, usize), ReadError>) {
        let (success, p1) = <bool as Ser>::read(buf, pos)?;
        Ok((AcceptInviteResponse { success }, p1))
    }
}

impl View for SetProfileResponse {
    type V = bool;

    open spec fn view(&self) -> bool {
        self.success
    }
}

impl Ser for SetProfileResponse {
    open spec fn spec_write(v: bool) -> Seq<u8> {
        <bool as Ser>::spec_write(v)
    }

    closed spec fn spec_read(s: Seq<u8>) -> Result<(bool, nat), ReadError> {
        match <bool as Ser>::spec_read(s) {
            Err(e) => Err(e),
            Ok((success, n1)) => {
                Ok((success, n1))
            },
        }
    }

    open spec fn spec_wf(v: bool) -> bool {
        true
    }

    proof fn lemma_write_read(v: bool, rest: Seq<u8>) {
        let e1 = <bool as Ser>::spec_write(v);
        assert(Self::spec_write(v) + rest =~= e1 + rest);
        <bool as Ser>::lemma_write_read(v, rest);
    }

    fn write(&self, out: &mut Vec<u8>) {
        let ghost start = out@;
        self.success.write(out);
        assert(out@ =~= start + Self::spec_write(self@));
    }

    fn read(buf: &[u8], pos: usize) -> (res: Result<(SetProfileResponse, usize), ReadError>) {
        let (success, p1) = <bool as Ser>::read(buf, pos)?;
        Ok((SetProfileResponse { success }, p1))
    }
}

impl View for DeleteChannelRequest {
    type V = (u64, <ServerId as View>::V, <Pubkey as View>::V);

    open spec fn view(&self) -> (u64, <ServerId as View>::V, <Pubkey as View>::V) {
        (self.channel_id, self.server_id@, self.server_pubkey@)
    }
}

impl Ser for DeleteChannelRequest {
    open spec fn spec_write(v: (u64, <ServerId as View>::V, <Pubkey as View>::V)) -> Seq<u8> {
        <ServerId as Ser>::spec_write(v.1) + <Pubkey as Ser>::spec_write(v.2) + <u64 as Ser>::spec_write(v.0)
    }

    closed spec fn spec_read(s: Seq<u8>) -> Result<((u64, <ServerId as View>::V, <Pubkey as View>::V), nat), ReadError> {
        match <ServerId as Ser>::spec_read(s) {
            Err(e) => Err(e),
            Ok((server_id, n1)) => {
                let s1 = s.skip(n1 as int);
                match <Pubkey as Ser>::spec_read(s1) {
                    Err(e) => Err(e),
                    Ok((server_pubkey, n2)) => {
                        let s2 = s1.skip(n2 as int);
                        match <u64 as Ser>::spec_read(s2) {
                            Err(e) => Err(e),
                            Ok((channel_id, n3)) => {
                                Ok(((channel_id, server_id, server_pubkey), n1 + n2 + n3))
                            },
                        }
                    },
                }
            },
        }
    }

    open spec fn spec_wf(v: (u64, <ServerId as View>::V, <Pubkey as View>::V)) -> bool {
        <ServerId as Ser>::spec_wf(v.1) && <Pubkey as Ser>::spec_wf(v.2)
    }

    proof fn lemma_write_read(v: (u64, <ServerId as View>::V, <Pubkey as View>::V), rest: Seq<u8>) {
        let e1 = <ServerId as Ser>::spec_write(v.1);
        let e2 = <Pubkey as Ser>::spec_write(v.2);
        let e3 = <u64 as Ser>::spec_write(v.0);
        assert(Self::spec_write(v) + rest =~= e1 + (e2 + (e3 + rest)));
        <ServerId as Ser>::lemma_write_read(v.1, e2 + (e3 + rest));
        lemma_skip_front(e1, e2 + (e3 + rest));
        <Pubkey as Ser>::lemma_write_read(v.2, e3 + rest);
        lemma_skip_front(e2, e3 + rest);
        <u64 as Ser>::lemma_write_read(v.0, rest);
    }

    fn write(&self, out: &mut Vec<u8>) {
        let ghost start = out@;
        self.server_id.write(out);
        self.server_pubkey.write(out);
        self.channel_id.write(out);
        assert(out@ =~= start + Self::spec_write(self@));
    }

    fn read(buf: &[u8], pos: usize) -> (res: Result<(DeleteChannelRequest, usize), ReadError>) {
        let (server_id, p1) = <ServerId as Ser>::read(buf, pos)?;
        proof {
            lemma_from_pos_skip(buf@, pos as int, p1 as int);
        }
        let (server_pubkey, p2) = <Pubkey as Ser>::read(buf, p1)?;
        proof {
            lemma_from_pos_skip(buf@, p1 as int, p2 as int);
        }
        let (channel_id, p3) = <u64 as Ser>::read(buf, p2)?;
        Ok((DeleteChannelRequest { channel_id, server_id, server_pubkey }, p3))
    }
}

impl View for GetChannelsResponse {
    type V = (Seq<<Channel as View>::V>, <ServerId as View>::V, <Pubkey as View>::V);

    open spec fn view(&self) -> (Seq<<Channel as View>::V>, <ServerId as View>::V, <Pubkey as View>::V) {
        (views(self.channels@), self.server_id@, self.server_pubkey@)
    }
}

impl Ser for GetChannelsResponse {
    open spec fn spec_write(v: (Seq<<Channel as View>::V>, <ServerId as View>::V, <Pubkey as View>::V)) -> Seq<u8> {
        <ServerId as Ser>::spec_write(v.1) + <Pubkey as Ser>::spec_write(v.2) + spec_write_list::<Channel>(v.0)
    }

    closed spec fn spec_read(s: Seq<u8>) -> Result<((Seq<<Channel as View>::V>, <ServerId as View>::V, <Pubkey as View>::V), nat), ReadError> {
        match <ServerId as Ser>::spec_read(s) {
            Err(e) => Err(e),
            Ok((server_id, n1)) => {
                let s1 = s.skip(n1 as int);
                match <Pubkey as Ser>::spec_read(s1) {
                    Err(e) => Err(e),
                    Ok((server_pubkey, n2)) => {
                        let s2 = s1.skip(n2 as int);
                        match spec_read_list::<Channel>(s2) {
                            Err(e) => Err(e),
                            Ok((channels, n3)) => {
                                Ok(((channels, server_id, server_pubkey), n1 + n2 + n3))
                            },
                        }
                    },
                }
            },
        }
    }

    open spec fn spec_wf(v: (Seq<<Channel as View>::V>, <ServerId as View>::V, <Pubkey as View>::V)) -> bool {
        <ServerId as Ser>::spec_wf(v.1) && <Pubkey as Ser>::spec_wf(v.2) && all_wf::<Channel>(v.0) && v.0.len() <= u64::MAX
    }

    proof fn lemma_write_read(v: (Seq<<Channel as View>::V>, <ServerId as View>::V, <Pubkey as View>::V), rest: Seq<u8>) {
        let e1 = <ServerId as Ser>::spec_write(v.1);
        let e2 = <Pubkey as Ser>::spec_write(v.2);
        let e3 = spec_write_list::<Channel>(v.0);
        assert(Self::spec_write(v) + rest =~= e1 + (e2 + (e3 + rest)));
        <ServerId as Ser>::lemma_write_read(v.1, e2 + (e3 + rest));
        lemma_skip_front(e1, e2 + (e3 + rest));
        <Pubkey as Ser>::lemma_write_read(v.2, e3 + rest);
        lemma_skip_front(e2, e3 + rest);
        lemma_write_read_list::<Channel>(v.0, rest);
    }

    fn write(&self, out: &mut Vec<u8>) {
        let ghost start = out@;
        self.server_id.write(out);
        self.server_pubkey.write(out);
        write_list(&self.channels, out);
        assert(out@ =~= start + Self::spec_write(self@));
    }

    fn read(buf: &[u8], pos: usize) -> (res: Result<(GetChannelsResponse, usize), ReadError>) {
        let (server_id, p1) = <ServerId as Ser>::read(buf, pos)?;
        proof {
            lemma_from_pos_skip(buf@, pos as int, p1 as int);
        }
        let (server_pubkey, p2) = <Pubkey as Ser>::read(buf, p1)?;
        proof {
            lemma_from_pos_skip(buf@, p1 as int, p2 as int);
        }
        let (channels, p3) = read_list::<Channel>(buf, p2)?;
        Ok((GetChannelsResponse { channels, server_id, server_pubkey }, p3))
    }
}

impl View for GetChannelsRequest {
    type V = (<ServerId as View>::V, <Pubkey as View>::V);

    open spec fn view(&self) -> (<ServerId as View>::V, <Pubkey as View>::V) {
        (self.server_id@, self.server_pubkey@)
    }
}

impl Ser for GetChannelsRequest {
    open spec fn spec_write(v: (<ServerId as View>::V, <Pubkey as View>::V)) -> Seq<u8> {
        <ServerId as Ser>::spec_write(v.0) + <Pubkey as Ser>::spec_write(v.1)
    }

    closed spec fn spec_read(s: Seq<u8>) -> Result<((<ServerId as View>::V, <Pubkey as View>::V), nat), ReadError> {
        match <ServerId as Ser>::spec_read(s) {
            Err(e) => Err(e),
            Ok((server_id, n1)) => {
                let s1 = s.skip(n1 as int);
                match <Pubkey as Ser>::spec_read(s1) {
                    Err(e) => Err(e),
                    Ok((server_pubkey, n2)) => {
                        Ok(((server_id, server_pubkey), n1 + n2))
                    },
                }
            },
        }
    }

    open spec fn spec_wf(v: (<ServerId as View>::V, <Pubkey as View>::V)) -> bool {
        <ServerId as Ser>::spec_wf(v.0) && <Pubkey as Ser>::spec_wf(v.1)
    }

    proof fn lemma_write_read(v: (<ServerId as View>::V, <Pubkey as View>::V), rest: Seq<u8>) {
        let e1 = <ServerId as Ser>::spec_write(v.0);
        let e2 = <Pubkey as Ser>::spec_write(v.1);
        assert(Self::spec_write(v) + rest =~= e1 + (e2 + rest));
        <ServerId as Ser>::lemma_write_read(v.0, e2 + rest);
        lemma_skip_front(e1, e2 + rest);
        <Pubkey as Ser>::lemma_write_read(v.1, rest);
    }

    fn write(&self, out: &mut Vec<u8>) {
        let ghost start = out@;
        self.server_id.write(out);
        self.server_pubkey.write(out);
        assert(out@ =~= start + Self::spec_write(self@));
    }

    fn read(buf: &[u8], pos: usize) -> (res: Result<(GetChannelsRequest, usize), ReadError>) {
        let (server_id, p1) = <ServerId as Ser>::read(buf, pos)?;
        proof {
            lemma_from_pos_skip(buf@, pos as int, p1 as int);
        }
        let (server_pubkey, p2) = <Pubkey as Ser>::read(buf, p1)?;
        Ok((GetChannelsRequest { server_id, server_pubkey }, p2))
    }
}

impl View for ListInvitesRequest {
    type V = (<ServerId as View>::V, <Pubkey as View>::V);

    open spec fn view(&self) -> (<ServerId as View>::V, <Pubkey as View>::V) {
        (self.server_id@, self.server_pubkey@)
    }
}

impl Ser for ListInvitesRequest {
    open spec fn spec_write(v: (<ServerId as View>::V, <Pubkey as View>::V)) -> Seq<u8> {
        <ServerId as Ser>::spec_write(v.0) + <Pubkey as Ser>::spec_write(v.1)
    }

    closed spec fn spec_read(s: Seq<u8>) -> Result<((<ServerId as View>::V, <Pubkey as View>::V), nat), ReadError> {
        match <ServerId as Ser>::spec_read(s) {
            Err(e) => Err(e),
            Ok((server_id, n1)) => {
                let s1 = s.skip(n1 as int);
                match <Pubkey as Ser>::spec_read(s1) {
                    Err(e) => Err(e),
                    Ok((server_pubkey, n2)) => {
                        Ok(((server_id, server_pubkey), n1 + n2))
                    },
                }
            },
        }
    }

    open spec fn spec_wf(v: (<ServerId as View>::V, <Pubkey as View>::V)) -> bool {
        <ServerId as Ser>::spec_wf(v.0) && <Pubkey as Ser>::spec_wf(v.1)
    }

    proof fn lemma_write_read(v: (<ServerId as View>::V, <Pubkey as View>::V), rest: Seq<u8>) {
        let e1 = <ServerId as Ser>::spec_write(v.0);
        let e2 = <Pubkey as Ser>::spec_write(v.1);
        assert(Self::spec_write(v) + rest =~= e1 + (e2 + rest));
        <ServerId as Ser>::lemma_write_read(v.0, e2 + rest);
        lemma_skip_front(e1, e2 + rest);
        <Pubkey as Ser>::lemma_write_read(v.1, rest);
    }

    fn write(&self, out: &mut Vec<u8>) {
        let ghost start = out@;
        self.server_id.write(out);
        self.server_pubkey.write(out);
        assert(out@ =~= start + Self::spec_write(self@));
    }

    fn read(buf: &[u8], pos: usize) -> (res: Result<(ListInvitesRequest, usize), ReadError>) {
        let (server_id, p1) = <ServerId as Ser>::read(buf, pos)?;
        proof {
            lemma_from_pos_skip(buf@, pos as int, p1 as int);
        }
        let (server_pubkey, p2) = <Pubkey as Ser>::read(buf, p1)?;
        Ok((ListInvitesRequest { server_id, server_pubkey }, p2))
    }
}

impl View for CreateInviteRequest {
    type V = (<ServerId as View>::V, <Pubkey as View>::V, u64, u128);

    open spec fn view(&self) -> (<ServerId as View>::V, <Pubkey as View>::V, u64, u128) {
        (self.server_id@, self.server_pubkey@, self.count, self.expiration)
    }
}

impl Ser for CreateInviteRequest {
    open spec fn spec_write(v: (<ServerId as View>::V, <Pubkey as View>::V, u64, u128)) -> Seq<u8> {
        <ServerId as Ser>::spec_write(v.0) + <Pubkey as Ser>::spec_write(v.1) + <u64 as Ser>::spec_write(v.2) + <u128 as Ser>::spec_write(v.3)
    }

    closed spec fn spec_read(s: Seq<u8>) -> Result<((<ServerId as View>::V, <Pubkey as View>::V, u64, u128), nat), ReadError> {
        match <ServerId as Ser>::spec_read(s) {
            Err(e) => Err(e),
            Ok((server_id, n1)) => {
                let s1 = s.skip(n1 as int);
                match <Pubkey as Ser>::spec_read(s1) {
                    Err(e) => Err(e),
                    Ok((server_pubkey, n2)) => {
                        let s2 = s1.skip(n2 as int);
                        match <u64 as Ser>::spec_read(s2) {
                            Err(e) => Err(e),
                            Ok((count, n3)) => {
                                let s3 = s2.skip(n3 as int);
                                match <u128 as Ser>::spec_read(s3) {
                                    Err(e) => Err(e),
                                    Ok((expiration, n4)) => {
                                        Ok(((server_id, server_pubkey, count, expiration), n1 + n2 + n3 + n4))
                                    },
                                }
                            },
                        }
                    },
                }
            },
        }
    }

    open spec fn spec_wf(v: (<ServerId as View>::V, <Pubkey as View>::V, u64, u128)) -> bool {
        <ServerId as Ser>::spec_wf(v.0) && <Pubkey as Ser>::spec_wf(v.1)
    }

    proof fn lemma_write_read(v: (<ServerId as View>::V, <Pubkey as View>::V, u64, u128), rest: Seq<u8>) {
        let e1 = <ServerId as Ser>::spec_write(v.0);
        let e2 = <Pubkey as Ser>::spec_write(v.1);
        let e3 = <u64 as Ser>::spec_write(v.2);
        let e4 = <u128 as Ser>::spec_write(v.3);
        assert(Self::spec_write(v) + rest =~= e1 + (e2 + (e3 + (e4 + rest))));
        <ServerId as Ser>::lemma_write_read(v.0, e2 + (e3 + (e4 + rest)));
        lemma_skip_front(e1, e2 + (e3 + (e4 + rest)));
        <Pubkey as Ser>::lemma_write_read(v.1, e3 + (e4 + rest));
        lemma_skip_front(e2, e3 + (e4 + rest));
        <u64 as Ser>::lemma_write_read(v.2, e4 + rest);
        lemma_skip_front(e3, e4 + rest);
        <u128 as Ser>::lemma_write_read(v.3, rest);
    }

    fn write(&self, out: &mut Vec<u8>) {
        let ghost start = out@;
        self.server_id.write(out);
        self.server_pubkey.write(out);
        self.count.write(out);
        self.expiration.write(out);
        assert(out@ =~= start + Self::spec_write(self@));
    }

    fn read(buf: &[u8], pos: usize) -> (res: Result<(CreateInviteRequest, usize), ReadError>) {
        let (server_id, p1) = <ServerId as Ser>::read(buf, pos)?;
        proof {
            lemma_from_pos_skip(buf@, pos as int, p1 as int);
        }
        let (server_pubkey, p2) = <Pubkey as Ser>::read(buf, p1)?;
        proof {
            lemma_from_pos_skip(buf@, p1 as int, p2 as int);
        }
        let (count, p3) = <u64 as Ser>::read(buf, p2)?;
        proof {
            lemma_from_pos_skip(buf@, p2 as int, p3 as int);
        }
        let (expiration, p4) = <u128 as Ser>::read(buf, p3)?;
        Ok((CreateInviteRequest { server_id, server_pubkey, count, expiration }, p4))
    }
}

impl View for CreateInviteResponse {
    type V = (bool, u128);

    open spec fn view(&self) -> (bool, u128) {
        (self.success, self.invite_id)
    }
}

impl Ser for CreateInviteResponse {
    open spec fn spec_write(v: (bool, u128)) -> Seq<u8> {
        <bool as Ser>::spec_write(v.0) + <u128 as Ser>::spec_write(v.1)
    }

    closed spec fn spec_read(s: Seq<u8>) -> Result<((bool, u128), nat), ReadError> {
        match <bool as Ser>::spec_read(s) {
            Err(e) => Err(e),
            Ok((success, n1)) => {
                let s1 = s.skip(n1 as int);
                match <u128 as Ser>::spec_read(s1) {
                    Err(e) => Err(e),
                    Ok((invite_id, n2)) => {
                        Ok(((success, invite_id), n1 + n2))
                    },
                }
            },
        }
    }

    open spec fn spec_wf(v: (bool, u128)) -> bool {
        true
    }

    proof fn lemma_write_read(v: (bool, u128), rest: Seq<u8>) {
        let e1 = <bool as Ser>::spec_write(v.0);
        let e2 = <u128 as Ser>::spec_write(v.1);
        assert(Self::spec_write(v) + rest =~= e1 + (e2 + rest));
        <bool as Ser>::lemma_write_read(v.0, e2 + rest);
        lemma_skip_front(e1, e2 + rest);
        <u128 as Ser>::lemma_write_read(v.1, rest);
    }

    fn write(&self, out: &mut Vec<u8>) {
        let ghost start = out@;
        self.success.write(out);
        self.invite_id.write(out);
        assert(out@ =~= start + Self::spec_write(self@));
    }

    fn read(buf: &[u8], pos: usize) -> (res: Result<(CreateInviteResponse, usize), ReadError>) {
        let (success, p1) = <bool as Ser>::read(buf, pos)?;
        proof {
            lemma_from_pos_skip(buf@, pos as int, p1 as int);
        }
        let (invite_id, p2) = <u128 as Ser>::read(buf, p1)?;
        Ok((CreateInviteResponse { success, invite_id }, p2))
    }
}

impl View for ListInvitesResponse {
    type V = Seq<<Invite as View>::V>;

    open spec fn view(&self) -> Seq<<Invite as View>::V> {
        views(self.invites@)
    }
}

impl Ser for ListInvitesResponse {
    open spec fn spec_write(v: Seq<<Invite as View>::V>) -> Seq<u8> {
        spec_write_list::<Invite>(v)
    }

    closed spec fn spec_read(s: Seq<u8>) -> Result<(Seq<<Invite as View>::V>, nat), ReadError> {
        match spec_read_list::<Invite>(s) {
            Err(e) => Err(e),
            Ok((invites, n1)) => {
                Ok((invites, n1))
            },
        }
    }

    open spec fn spec_wf(v: Seq<<Invite as View>::V>) -> bool {
        all_wf::<Invite>(v) && v.len() <= u64::MAX
    }

    proof fn lemma_write_read(v: Seq<<Invite as View>::V>, rest: Seq<u8>) {
        let e1 = spec_write_list::<Invite>(v);
        assert(Self::spec_write(v) + rest =~= e1 + rest);
        lemma_write_read_list::<Invite>(v, rest);
    }

    fn write(&self, out: &mut Vec<u8>) {
        let ghost start = out@;
        write_list(&self.invites, out);
        assert(out@ =~= start + Self::spec_write(self@));
    }

    fn read(buf: &[u8], pos: usize) -> (res: Result<(ListInvitesResponse, usize), ReadError>) {
        let (invites, p1) = read_list::<Invite>(buf, pos)?;
        Ok((ListInvitesResponse { invites }, p1))
    }
}

impl View for ModifyInviteRequest {
    type V = (u128, u64, u128);

    open spec fn view(&self) -> (u128, u64, u128) {
        (self.invite_id, self.max, self.expiration)
    }
}

impl Ser for ModifyInviteRequest {
    open spec fn spec_write(v: (u128, u64, u128)) -> Seq<u8> {
        <u128 as Ser>::spec_write(v.0) + <u64 as Ser>::spec_write(v.1) + <u128 as Ser>::spec_write(v.2)
    }

    closed spec fn spec_read(s: Seq<u8>) -> Result<((u128, u64, u128), nat), ReadError> {
        match <u128 as Ser>::spec_read(s) {
            Err(e) => Err(e),
            Ok((invite_id, n1)) => {
                let s1 = s.skip(n1 as int);
                match <u64 as Ser>::spec_read(s1) {
                    Err(e) => Err(e),
                    Ok((max, n2)) => {
                        let s2 = s1.skip(n2 as int);
                        match <u128 as Ser>::spec_read(s2) {
                            Err(e) => Err(e),
                            Ok((expiration, n3)) => {
                                Ok(((invite_id, max, expiration), n1 + n2 + n3))
                            },
                        }
                    },
                }
            },
        }
    }

    open spec fn spec_wf(v: (u128, u64, u128)) -> bool {
        true
    }

    proof fn lemma_write_read(v: (u128, u64, u128), rest: Seq<u8>) {
        let e1 = <u128 as Ser>::spec_write(v.0);
        let e2 = <u64 as Ser>::spec_write(v.1);
        let e3 = <u128 as Ser>::spec_write(v.2);
        assert(Self::spec_write(v) + rest =~= e1 + (e2 + (e3 + rest)));
        <u128 as Ser>::lemma_write_read(v.0, e2 + (e3 + rest));
        lemma_skip_front(e1, e2 + (e3 + rest));
        <u64 as Ser>::lemma_write_read(v.1, e3 + rest);
        lemma_skip_front(e2, e3 + rest);
        <u128 as Ser>::lemma_write_read(v.2, rest);
    }

    fn write(&self, out: &mut Vec<u8>) {
        let ghost start = out@;
        self.invite_id.write(out);
        self.max.write(out);
        self.expiration.write(out);
        assert(out@ =~= start + Self::spec_write(self@));
    }

    fn read(buf: &[u8], pos: usize) -> (res: Result<(ModifyInviteRequest, usize), ReadError>) {
        let (invite_id, p1) = <u128 as Ser>::read(buf, pos)?;
        proof {
            lemma_from_pos_skip(buf@, pos as int, p1 as int);
        }
        let (max, p2) = <u64 as Ser>::read(buf, p1)?;
        proof {
            lemma_from_pos_skip(buf@, p1 as int, p2 as int);
        }
        let (expiration, p3) = <u128 as Ser>::read(buf, p2)?;
        Ok((ModifyInviteRequest { invite_id, max, expiration }, p3))
    }
}

impl View for DeleteInviteRequest {
    type V = u128;

    open spec fn view(&self) -> u128 {
        self.invite_id
    }
}

impl Ser for DeleteInviteRequest {
    open spec fn spec_write(v: u128) -> Seq<u8> {
        <u128 as Ser>::spec_write(v)
    }

    closed spec fn spec_read(s: Seq<u8>) -> Result<(u128, nat), ReadError> {
        match <u128 as Ser>::spec_read(s) {
            Err(e) => Err(e),
            Ok((invite_id, n1)) => {
                Ok((invite_id, n1))
            },
        }
    }

    open spec fn spec_wf(v: u128) -> bool {
        true
    }

    proof fn lemma_write_read(v: u128, rest: Seq<u8>) {
        let e1 = <u128 as Ser>::spec_write(v);
        assert(Self::spec_write(v) + rest =~= e1 + rest);
        <u128 as Ser>::lemma_write_read(v, rest);
    }

    fn write(&self, out: &mut Vec<u8>) {
        let ghost start = out@;
        self.invite_id.write(out);
        assert(out@ =~= start + Self::spec_write(self@));
    }

    fn read(buf: &[u8], pos: usize) -> (res: Result<(DeleteInviteRequest, usize), ReadError>) {
        let (invite_id, p1) = <u128 as Ser>::read(buf, pos)?;
        Ok((DeleteInviteRequest { invite_id }, p1))
    }
}

impl View for JoinServerRequest {
    type V = <SerString as View>::V;

    open spec fn view(&self) -> <SerString as View>::V {
        self.invite_url@
    }
}

impl Ser for JoinServerRequest {
    open spec fn spec_write(v: <SerString as View>::V) -> Seq<u8> {
        <SerString as Ser>::spec_write(v)
    }

    closed spec fn spec_read(s: Seq<u8>) -> Result<(<SerString as View>::V, nat), ReadError> {
        match <SerString as Ser>::spec_read(s) {
            Err(e) => Err(e),
            Ok((invite_url, n1)) => {
                Ok((invite_url, n1))
            },
        }
    }

    open spec fn spec_wf(v: <SerString as View>::V) -> bool {
        <SerString as Ser>::spec_wf(v)
    }

    proof fn lemma_write_read(v: <SerString as View>::V, rest: Seq<u8>) {
        let e1 = <SerString as Ser>::spec_write(v);
        assert(Self::spec_write(v) + rest =~= e1 + rest);
        <SerString as Ser>::lemma_write_read(v, rest);
    }

    fn write(&self, out: &mut Vec<u8>) {
        let ghost start = out@;
        self.invite_url.write(out);
        assert(out@ =~= start + Self::spec_write(self@));
    }

    fn read(buf: &[u8], pos: usize) -> (res: Result<(JoinServerRequest, usize), ReadError>) {
        let (invite_url, p1) = <SerString as Ser>::read(buf, pos)?;
        Ok((JoinServerRequest { invite_url }, p1))
    }
}

impl View for ViewInviteRequest {
    type V = <SerString as View>::V;

    open spec fn view(&self) -> <SerString as View>::V {
        self.invite_url@
    }
}

impl Ser for ViewInviteRequest {
    open spec fn spec_write(v: <SerString as View>::V) -> Seq<u8> {
        <SerString as Ser>::spec_write(v)
    }

    closed spec fn spec_read(s: Seq<u8>) -> Result<(<SerString as View>::V, nat), ReadError> {
        match <SerString as Ser>::spec_read(s) {
            Err(e) => Err(e),
            Ok((invite_url, n1)) => {
                Ok((invite_url, n1))
            },
        }
    }

    open spec fn spec_wf(v: <SerString as View>::V) -> bool {
        <SerString as Ser>::spec_wf(v)
    }

    proof fn lemma_write_read(v: <SerString as View>::V, rest: Seq<u8>) {
        let e1 = <SerString as Ser>::spec_write(v);
        assert(Self::spec_write(v) + rest =~= e1 + rest);
        <SerString as Ser>::lemma_write_read(v, rest);
    }

    fn write(&self, out: &mut Vec<u8>) {
        let ghost start = out@;
        self.invite_url.write(out);
        assert(out@ =~= start + Self::spec_write(self@));
    }

    fn read(buf: &[u8], pos: usize) -> (res: Result<(ViewInviteRequest, usize), ReadError>) {
        let (invite_url, p1) = <SerString as Ser>::read(buf, pos)?;
        Ok((ViewInviteRequest { invite_url }, p1))
    }
}

impl View for InviteResponseInfo {
    type V = (<SerString as View>::V, <Image as View>::V, <Image as View>::V, <SerString as View>::V, u64, u64);

    open spec fn view(&self) -> (<SerString as View>::V, <Image as View>::V, <Image as View>::V, <SerString as View>::V, u64, u64) {
        (self.inviter_name@, self.inviter_icon@, self.server_icon@, self.server_name@, self.current_members, self.online_members)
    }
}

impl Ser for InviteResponseInfo {
    open spec fn spec_write(v: (<SerString as View>::V, <Image as View>::V, <Image as View>::V, <SerString as View>::V, u64, u64)) -> Seq<u8> {
        <SerString as Ser>::spec_write(v.0) + <Image as Ser>::spec_write(v.1) + <Image as Ser>::spec_write(v.2) + <u64 as Ser>::spec_write(v.4) + <u64 as Ser>::spec_write(v.5) + <SerString as Ser>::spec_write(v.3)
    }

    closed spec fn spec_read(s: Seq<u8>) -> Result<((<SerString as View>::V, <Image as View>::V, <Image as View>::V, <SerString as View>::V, u64, u64), nat), ReadError> {
        match <SerString as Ser>::spec_read(s) {
            Err(e) => Err(e),
            Ok((inviter_name, n1)) => {
                let s1 = s.skip(n1 as int);
                match <Image as Ser>::spec_read(s1) {
                    Err(e) => Err(e),
                    Ok((inviter_icon, n2)) => {
                        let s2 = s1.skip(n2 as int);
                        match <Image as Ser>::spec_read(s2) {
                            Err(e) => Err(e),
                            Ok((server_icon, n3)) => {
                                let s3 = s2.skip(n3 as int);
                                match <u64 as Ser>::spec_read(s3) {
                                    Err(e) => Err(e),
                                    Ok((current_members, n4)) => {
                                        let s4 = s3.skip(n4 as int);
                                        match <u64 as Ser>::spec_read(s4) {
                                            Err(e) => Err(e),
                                            Ok((online_members, n5)) => {
                                                let s5 = s4.skip(n5 as int);
                                                match <SerString as Ser>::spec_read(s5) {
                                                    Err(e) => Err(e),
                                                    Ok((server_name, n6)) => {
                                                        Ok(((inviter_name, inviter_icon, server_icon, server_name, current_members, online_members), n1 + n2 + n3 + n4 + n5 + n6))
                                                    },
                                                }
                                            },
                                        }
                                    },
                                }
                            },
                        }
                    },
                }
            },
        }
    }

    open spec fn spec_wf(v: (<SerString as View>::V, <Image as View>::V, <Image as View>::V, <SerString as View>::V, u64, u64)) -> bool {
        <SerString as Ser>::spec_wf(v.0) && <Image as Ser>::spec_wf(v.1) && <Image as Ser>::spec_wf(v.2) && <SerString as Ser>::spec_wf(v.3)
    }

    proof fn lemma_write_read(v: (<SerString as View>::V, <Image as View>::V, <Image as View>::V, <SerString as View>::V, u64, u64), rest: Seq<u8>) {
        let e1 = <SerString as Ser>::spec_write(v.0);
        let e2 = <Image as Ser>::spec_write(v.1);
        let e3 = <Image as Ser>::spec_write(v.2);
        let e4 = <u64 as Ser>::spec_write(v.4);
        let e5 = <u64 as Ser>::spec_write(v.5);
        let e6 = <SerString as Ser>::spec_write(v.3);
        assert(Self::spec_write(v) + rest =~= e1 + (e2 + (e3 + (e4 + (e5 + (e6 + rest))))));
        <SerString as Ser>::lemma_write_read(v.0, e2 + (e3 + (e4 + (e5 + (e6 + rest)))));
        lemma_skip_front(e1, e2 + (e3 + (e4 + (e5 + (e6 + rest)))));
        <Image as Ser>::lemma_write_read(v.1, e3 + (e4 + (e5 + (e6 + rest))));
        lemma_skip_front(e2, e3 + (e4 + (e5 + (e6 + rest))));
        <Image as Ser>::lemma_write_read(v.2, e4 + (e5 + (e6 + rest)));
        lemma_skip_front(e3, e4 + (e5 + (e6 + rest)));
        <u64 as Ser>::lemma_write_read(v.4, e5 + (e6 + rest));
        lemma_skip_front(e4, e5 + (e6 + rest));
        <u64 as Ser>::lemma_write_read(v.5, e6 + rest);
        lemma_skip_front(e5, e6 + rest);
        <SerString as Ser>::lemma_write_read(v.3, rest);
    }

    fn write(&self, out: &mut Vec<u8>) {
        let ghost start = out@;
        self.inviter_name.write(out);
        self.inviter_icon.write(out);
        self.server_icon.write(out);
        self.current_members.write(out);
        self.online_members.write(out);
        self.server_name.write(out);
        assert(out@ =~= start + Self::spec_write(self@));
    }

    fn read(buf: &[u8], pos: usize) -> (res: Result<(InviteResponseInfo, usize), ReadError>) {
        let (inviter_name, p1) = <SerString as Ser>::read(buf, pos)?;
        proof {
            lemma_from_pos_skip(buf@, pos as int, p1 as int);
        }
        let (inviter_icon, p2) = <Image as Ser>::read(buf, p1)?;
        proof {
            lemma_from_pos_skip(buf@, p1 as int, p2 as int);
        }
        let (server_icon, p3) = <Image as Ser>::read(buf, p2)?;
        proof {
            lemma_from_pos_skip(buf@, p2 as int, p3 as int);
        }
        let (current_members, p4) = <u64 as Ser>::read(buf, p3)?;
        proof {
            lemma_from_pos_skip(buf@, p3 as int, p4 as int);
        }
        let (online_members, p5) = <u64 as Ser>::read(buf, p4)?;
        proof {
            lemma_from_pos_skip(buf@, p4 as int, p5 as int);
        }
        let (server_name, p6) = <SerString as Ser>::read(buf, p5)?;
        Ok((InviteResponseInfo { inviter_name, inviter_icon, server_icon, server_name, current_members, online_members }, p6))
    }
}

impl View for AcceptInviteRequest {
    type V = (u128, Seq<u8>, Seq<u8>, <SerString as View>::V, <SerString as View>::V, <Image as View>::V);

    open spec fn view(&self) -> (u128, Seq<u8>, Seq<u8>, <SerString as View>::V, <SerString as View>::V, <Image as View>::V) {
        (self.invite_id, self.user_pubkey@, self.server_pubkey@, self.user_name@, self.user_bio@, self.avatar@)
    }
}

impl Ser for AcceptInviteRequest {
    open spec fn spec_write(v: (u128, Seq<u8>, Seq<u8>, <SerString as View>::V, <SerString as View>::V, <Image as View>::V)) -> Seq<u8> {
        <u128 as Ser>::spec_write(v.0) + <[u8; 32] as Ser>::spec_write(v.1) + <[u8; 32] as Ser>::spec_write(v.2) + <SerString as Ser>::spec_write(v.3) + <SerString as Ser>::spec_write(v.4) + <Image as Ser>::spec_write(v.5)
    }

    closed spec fn spec_read(s: Seq<u8>) -> Result<((u128, Seq<u8>, Seq<u8>, <SerString as View>::V, <SerString as View>::V, <Image as View>::V), nat), ReadError> {
        match <u128 as Ser>::spec_read(s) {
            Err(e) => Err(e),
            Ok((invite_id, n1)) => {
                let s1 = s.skip(n1 as int);
                match <[u8; 32] as Ser>::spec_read(s1) {
                    Err(e) => Err(e),
                    Ok((user_pubkey, n2)) => {
                        let s2 = s1.skip(n2 as int);
                        match <[u8; 32] as Ser>::spec_read(s2) {
                            Err(e) => Err(e),
                            Ok((server_pubkey, n3)) => {
                                let s3 = s2.skip(n3 as int);
                                match <SerString as Ser>::spec_read(s3) {
                                    Err(e) => Err(e),
                                    Ok((user_name, n4)) => {
                                        let s4 = s3.skip(n4 as int);
                                        match <SerString as Ser>::spec_read(s4) {
                                            Err(e) => Err(e),
                                            Ok((user_bio, n5)) => {
                                                let s5 = s4.skip(n5 as int);
                                                match <Image as Ser>::spec_read(s5) {
                                                    Err(e) => Err(e),
                                                    Ok((avatar, n6)) => {
                                                        Ok(((invite_id, user_pubkey, server_pubkey, user_name, user_bio, avatar), n1 + n2 + n3 + n4 + n5 + n6))
                                                    },
                                                }
                                            },
                                        }
                                    },
                                }
                            },
                        }
                    },
                }
            },
        }
    }

    open spec fn spec_wf(v: (u128, Seq<u8>, Seq<u8>, <SerString as View>::V, <SerString as View>::V, <Image as View>::V)) -> bool {
        v.1.len() == 32 && v.2.len() == 32 && <SerString as Ser>::spec_wf(v.3) && <SerString as Ser>::spec_wf(v.4) && <Image as Ser>::spec_wf(v.5)
    }

    proof fn lemma_write_read(v: (u128, Seq<u8>, Seq<u8>, <SerString as View>::V, <SerString as View>::V, <Image as View>::V), rest: Seq<u8>) {
        let e1 = <u128 as Ser>::spec_write(v.0);
        let e2 = <[u8; 32] as Ser>::spec_write(v.1);
        let e3 = <[u8; 32] as Ser>::spec_write(v.2);
        let e4 = <SerString as Ser>::spec_write(v.3);
        let e5 = <SerString as Ser>::spec_write(v.4);
        let e6 = <Image as Ser>::spec_write(v.5);
        assert(Self::spec_write(v) + rest =~= e1 + (e2 + (e3 + (e4 + (e5 + (e6 + rest))))));
        <u128 as Ser>::lemma_write_read(v.0, e2 + (e3 + (e4 + (e5 + (e6 + rest)))));
        lemma_skip_front(e1, e2 + (e3 + (e4 + (e5 + (e6 + rest)))));
        <[u8; 32] as Ser>::lemma_write_read(v.1, e3 + (e4 + (e5 + (e6 + rest))));
        lemma_skip_front(e2, e3 + (e4 + (e5 + (e6 + rest))));
        <[u8; 32] as Ser>::lemma_write_read(v.2, e4 + (e5 + (e6 + rest)));
        lemma_skip_front(e3, e4 + (e5 + (e6 + rest)));
        <SerString as Ser>::lemma_write_read(v.3, e5 + (e6 + rest));
        lemma_skip_front(e4, e5 + (e6 + rest));
        <SerString as Ser>::lemma_write_read(v.4, e6 + rest);
        lemma_skip_front(e5, e6 + rest);
        <Image as Ser>::lemma_write_read(v.5, rest);
    }

    fn write(&self, out: &mut Vec<u8>) {
        let ghost start = out@;
        self.invite_id.write(out);
        self.user_pubkey.write(out);
        self.server_pubkey.write(out);
        self.user_name.write(out);
        self.user_bio.write(out);
        self.avatar.write(out);
        assert(out@ =~= start + Self::spec_write(self@));
    }

    fn read(buf: &[u8], pos: usize) -> (res: Result<(AcceptInviteRequest, usize), ReadError>) {
        let (invite_id, p1) = <u128 as Ser>::read(buf, pos)?;
        proof {
            lemma_from_pos_skip(buf@, pos as int, p1 as int);
        }
        let (user_pubkey, p2) = <[u8; 32] as Ser>::read(buf, p1)?;
        proof {
            lemma_from_pos_skip(buf@, p1 as int, p2 as int);
        }
        let (server_pubkey, p3) = <[u8; 32] as Ser>::read(buf, p2)?;
        proof {
            lemma_from_pos_skip(buf@, p2 as int, p3 as int);
        }
        let (user_name, p4) = <SerString as Ser>::read(buf, p3)?;
        proof {
            lemma_from_pos_skip(buf@, p3 as int, p4 as int);
        }
        let (user_bio, p5) = <SerString as Ser>::read(buf, p4)?;
        proof {
            lemma_from_pos_skip(buf@, p4 as int, p5 as int);
        }
        let (avatar, p6) = <Image as Ser>::read(buf, p5)?;
        Ok((AcceptInviteRequest { invite_id, user_pubkey, server_pubkey, user_name, user_bio, avatar }, p6))
    }
}

impl View for GetProfileRequest {
    type V = (Seq<<Pubkey as View>::V>, <Pubkey as View>::V, <ServerId as View>::V, <ProfileImageRequestType as View>::V, bool);

    open spec fn view(&self) -> (Seq<<Pubkey as View>::V>, <Pubkey as View>::V, <ServerId as View>::V, <ProfileImageRequestType as View>::V, bool) {
        (views(self.user_pubkeys@), self.server_pubkey@, self.server_id@, self.image_request_type@, self.include_profile_data)
    }
}

impl Ser for GetProfileRequest {
    open spec fn spec_write(v: (Seq<<Pubkey as View>::V>, <Pubkey as View>::V, <ServerId as View>::V, <ProfileImageRequestType as View>::V, bool)) -> Seq<u8> {
        spec_write_list::<Pubkey>(v.0) + <Pubkey as Ser>::spec_write(v.1) + <ServerId as Ser>::spec_write(v.2) + <ProfileImageRequestType as Ser>::spec_write(v.3) + <bool as Ser>::spec_write(v.4)
    }

    closed spec fn spec_read(s: Seq<u8>) -> Result<((Seq<<Pubkey as View>::V>, <Pubkey as View>::V, <ServerId as View>::V, <ProfileImageRequestType as View>::V, bool), nat), ReadError> {
        match spec_read_list::<Pubkey>(s) {
            Err(e) => Err(e),
            Ok((user_pubkeys, n1)) => {
                let s1 = s.skip(n1 as int);
                match <Pubkey as Ser>::spec_read(s1) {
                    Err(e) => Err(e),
                    Ok((server_pubkey, n2)) => {
                        let s2 = s1.skip(n2 as int);
                        match <ServerId as Ser>::spec_read(s2) {
                            Err(e) => Err(e),
                            Ok((server_id, n3)) => {
                                let s3 = s2.skip(n3 as int);
                                match <ProfileImageRequestType as Ser>::spec_read(s3) {
                                    Err(e) => Err(e),
                                    Ok((image_request_type, n4)) => {
                                        let s4 = s3.skip(n4 as int);
                                        match <bool as Ser>::spec_read(s4) {
                                            Err(e) => Err(e),
                                            Ok((include_profile_data, n5)) => {
                                                Ok(((user_pubkeys, server_pubkey, server_id, image_request_type, include_profile_data), n1 + n2 + n3 + n4 + n5))
                                            },
                                        }
                                    },
                                }
                            },
                        }
                    },
                }
            },
        }
    }

    open spec fn spec_wf(v: (Seq<<Pubkey as View>::V>, <Pubkey as View>::V, <ServerId as View>::V, <ProfileImageRequestType as View>::V, bool)) -> bool {
        all_wf::<Pubkey>(v.0) && v.0.len() <= u64::MAX && <Pubkey as Ser>::spec_wf(v.1) && <ServerId as Ser>::spec_wf(v.2) && <ProfileImageRequestType as Ser>::spec_wf(v.3)
    }

    proof fn lemma_write_read(v: (Seq<<Pubkey as View>::V>, <Pubkey as View>::V, <ServerId as View>::V, <ProfileImageRequestType as View>::V, bool), rest: Seq<u8>) {
        let e1 = spec_write_list::<Pubkey>(v.0);
        let e2 = <Pubkey as Ser>::spec_write(v.1);
        let e3 = <ServerId as Ser>::spec_write(v.2);
        let e4 = <ProfileImageRequestType as Ser>::spec_write(v.3);
        let e5 = <bool as Ser>::spec_write(v.4);
        assert(Self::spec_write(v) + rest =~= e1 + (e2 + (e3 + (e4 + (e5 + rest)))));
        lemma_write_read_list::<Pubkey>(v.0, e2 + (e3 + (e4 + (e5 + rest))));
        lemma_skip_front(e1, e2 + (e3 + (e4 + (e5 + rest))));
        <Pubkey as Ser>::lemma_write_read(v.1, e3 + (e4 + (e5 + rest)));
        lemma_skip_front(e2, e3 + (e4 + (e5 + rest)));
        <ServerId as Ser>::lemma_write_read(v.2, e4 + (e5 + rest));
        lemma_skip_front(e3, e4 + (e5 + rest));
        <ProfileImageRequestType as Ser>::lemma_write_read(v.3, e5 + rest);
        lemma_skip_front(e4, e5 + rest);
        <bool as Ser>::lemma_write_read(v.4, rest);
    }

    fn write(&self, out: &mut Vec<u8>) {
        let ghost start = out@;
        write_list(&self.user_pubkeys, out);
        self.server_pubkey.write(out);
        self.server_id.write(out);
        self.image_request_type.write(out);
        self.include_profile_data.write(out);
        assert(out@ =~= start + Self::spec_write(self@));
    }

    fn read(buf: &[u8], pos: usize) -> (res: Result<(GetProfileRequest, usize), ReadError>) {
        let (user_pubkeys, p1) = read_list::<Pubkey>(buf, pos)?;
        proof {
            lemma_from_pos_skip(buf@, pos as int, p1 as int);
        }
        let (server_pubkey, p2) = <Pubkey as Ser>::read(buf, p1)?;
        proof {
            lemma_from_pos_skip(buf@, p1 as int, p2 as int);
        }
        let (server_id, p3) = <ServerId as Ser>::read(buf, p2)?;
        proof {
            lemma_from_pos_skip(buf@, p2 as int, p3 as int);
        }
        let (image_request_type, p4) = <ProfileImageRequestType as Ser>::read(buf, p3)?;
        proof {
            lemma_from_pos_skip(buf@, p3 as int, p4 as int);
        }
        let (include_profile_data, p5) = <bool as Ser>::read(buf, p4)?;
        Ok((GetProfileRequest { user_pubkeys, server_pubkey, server_id, image_request_type, include_profile_data }, p5))
    }
}

impl View for GetProfileResponse {
    type V = Seq<<(SerOption<Image>, SerOption<ProfileData>) as View>::V>;

    open spec fn view(&self) -> Seq<<(SerOption<Image>, SerOption<ProfileData>) as View>::V> {
        views(self.data@)
    }
}

impl Ser for GetProfileResponse {
    open spec fn spec_write(v: Seq<<(SerOption<Image>, SerOption<ProfileData>) as View>::V>) -> Seq<u8> {
        spec_write_list::<(SerOption<Image>, SerOption<ProfileData>)>(v)
    }

    closed spec fn spec_read(s: Seq<u8>) -> Result<(Seq<<(SerOption<Image>, SerOption<ProfileData>) as View>::V>, nat), ReadError> {
        match spec_read_list::<(SerOption<Image>, SerOption<ProfileData>)>(s) {
            Err(e) => Err(e),
            Ok((data, n1)) => {
                Ok((data, n1))
            },
        }
    }

    open spec fn spec_wf(v: Seq<<(SerOption<Image>, SerOption<ProfileData>) as View>::V>) -> bool {
        all_wf::<(SerOption<Image>, SerOption<ProfileData>)>(v) && v.len() <= u64::MAX
    }

    proof fn lemma_write_read(v: Seq<<(SerOption<Image>, SerOption<ProfileData>) as View>::V>, rest: Seq<u8>) {
        let e1 = spec_write_list::<(SerOption<Image>, SerOption<ProfileData>)>(v);
        assert(Self::spec_write(v) + rest =~= e1 + rest);
        lemma_write_read_list::<(SerOption<Image>, SerOption<ProfileData>)>(v, rest);
    }

    fn write(&self, out: &mut Vec<u8>) {
        let ghost start = out@;
        write_list(&self.data, out);
        assert(out@ =~= start + Self::spec_write(self@));
    }

    fn read(buf: &[u8], pos: usize) -> (res: Result<(GetProfileResponse, usize), ReadError>) {
        let (data, p1) = read_list::<(SerOption<Image>, SerOption<ProfileData>)>(buf, pos)?;
        Ok((GetProfileResponse { data }, p1))
    }
}

impl View for SetProfileRequest {
    type V = (<Pubkey as View>::V, <ServerId as View>::V, <SerOption<Image> as View>::V, <SerOption<ProfileData> as View>::V);

    open spec fn view(&self) -> (<Pubkey as View>::V, <ServerId as View>::V, <SerOption<Image> as View>::V, <SerOption<ProfileData> as View>::V) {
        (self.server_pubkey@, self.server_id@, self.avatar@, self.profile_data@)
    }
}

impl Ser for SetProfileRequest {
    open spec fn spec_write(v: (<Pubkey as View>::V, <ServerId as View>::V, <SerOption<Image> as View>::V, <SerOption<ProfileData> as View>::V)) -> Seq<u8> {
        <Pubkey as Ser>::spec_write(v.0) + <ServerId as Ser>::spec_write(v.1) + <SerOption<Image> as Ser>::spec_write(v.2) + <SerOption<ProfileData> as Ser>::spec_write(v.3)
    }

    closed spec fn spec_read(s: Seq<u8>) -> Result<((<Pubkey as View>::V, <ServerId as View>::V, <SerOption<Image> as View>::V, <SerOption<ProfileData> as View>::V), nat), ReadError> {
        match <Pubkey as Ser>::spec_read(s) {
            Err(e) => Err(e),
            Ok((server_pubkey, n1)) => {
                let s1 = s.skip(n1 as int);
                match <ServerId as Ser>::spec_read(s1) {
                    Err(e) => Err(e),
                    Ok((server_id, n2)) => {
                        let s2 = s1.skip(n2 as int);
                        match <SerOption<Image> as Ser>::spec_read(s2) {
                            Err(e) => Err(e),
                            Ok((avatar, n3)) => {
                                let s3 = s2.skip(n3 as int);
                                match <SerOption<ProfileData> as Ser>::spec_read(s3) {
                                    Err(e) => Err(e),
                                    Ok((profile_data, n4)) => {
                                        Ok(((server_pubkey, server_id, avatar, profile_data), n1 + n2 + n3 + n4))
                                    },
                                }
                            },
                        }
                    },
                }
            },
        }
    }

    open spec fn spec_wf(v: (<Pubkey as View>::V, <ServerId as View>::V, <SerOption<Image> as View>::V, <SerOption<ProfileData> as View>::V)) -> bool {
        <Pubkey as Ser>::spec_wf(v.0) && <ServerId as Ser>::spec_wf(v.1) && <SerOption<Image> as Ser>::spec_wf(v.2) && <SerOption<ProfileData> as Ser>::spec_wf(v.3)
    }

    proof fn lemma_write_read(v: (<Pubkey as View>::V, <ServerId as View>::V, <SerOption<Image> as View>::V, <SerOption<ProfileData> as View>::V), rest: Seq<u8>) {
        let e1 = <Pubkey as Ser>::spec_write(v.0);
        let e2 = <ServerId as Ser>::spec_write(v.1);
        let e3 = <SerOption<Image> as Ser>::spec_write(v.2);
        let e4 = <SerOption<ProfileData> as Ser>::spec_write(v.3);
        assert(Self::spec_write(v) + rest =~= e1 + (e2 + (e3 + (e4 + rest))));
        <Pubkey as Ser>::lemma_write_read(v.0, e2 + (e3 + (e4 + rest)));
        lemma_skip_front(e1, e2 + (e3 + (e4 + rest)));
        <ServerId as Ser>::lemma_write_read(v.1, e3 + (e4 + rest));
        lemma_skip_front(e2, e3 + (e4 + rest));
        <SerOption<Image> as Ser>::lemma_write_read(v.2, e4 + rest);
        lemma_skip_front(e3, e4 + rest);
        <SerOption<ProfileData> as Ser>::lemma_write_read(v.3, rest);
    }

    fn write(&self, out: &mut Vec<u8>) {
        let ghost start = out@;
        self.server_pubkey.write(out);
        self.server_id.write(out);
        self.avatar.write(out);
        self.profile_data.write(out);
        assert(out@ =~= start + Self::spec_write(self@));
    }

    fn read(buf: &[u8], pos: usize) -> (res: Result<(SetProfileRequest, usize), ReadError>) {
        let (server_pubkey, p1) = <Pubkey as Ser>::read(buf, pos)?;
        proof {
            lemma_from_pos_skip(buf@, pos as int, p1 as int);
        }
        let (server_id, p2) = <ServerId as Ser>::read(buf, p1)?;
        proof {
            lemma_from_pos_skip(buf@, p1 as int, p2 as int);
        }
        let (avatar, p3) = <SerOption<Image> as Ser>::read(buf, p2)?;
        proof {
            lemma_from_pos_skip(buf@, p2 as int, p3 as int);
        }
        let (profile_data, p4) = <SerOption<ProfileData> as Ser>::read(buf, p3)?;
        Ok((SetProfileRequest { server_pubkey, server_id, avatar, profile_data }, p4))
    }
}

impl View for Member {
    type V = (<Pubkey as View>::V, <SerString as View>::V, <SerString as View>::V, u128, u64, <OnlineStatus as View>::V);

    closed spec fn view(&self) -> (<Pubkey as View>::V, <SerString as View>::V, <SerString as View>::V, u128, u64, <OnlineStatus as View>::V) {
        (self.user_pubkey@, self.user_name@, self.user_bio@, self.roles, self.profile_seqno, self.online_status@)
    }
}

impl Ser for Member {
    open spec fn spec_write(v: (<Pubkey as View>::V, <SerString as View>::V, <SerString as View>::V, u128, u64, <OnlineStatus as View>::V)) -> Seq<u8> {
        <Pubkey as Ser>::spec_write(v.0) + <SerString as Ser>::spec_write(v.1) + <SerString as Ser>::spec_write(v.2) + <u128 as Ser>::spec_write(v.3) + <u64 as Ser>::spec_write(v.4) + <OnlineStatus as Ser>::spec_write(v.5)
    }

    closed spec fn spec_read(s: Seq<u8>) -> Result<((<Pubkey as View>::V, <SerString as View>::V, <SerString as View>::V, u128, u64, <OnlineStatus as View>::V), nat), ReadError> {
        match <Pubkey as Ser>::spec_read(s) {
            Err(e) => Err(e),
            Ok((user_pubkey, n1)) => {
                let s1 = s.skip(n1 as int);
                match <SerString as Ser>::spec_read(s1) {
                    Err(e) => Err(e),
                    Ok((user_name, n2)) => {
                        let s2 = s1.skip(n2 as int);
                        match <SerString as Ser>::spec_read(s2) {
                            Err(e) => Err(e),
                            Ok((user_bio, n3)) => {
                                let s3 = s2.skip(n3 as int);
                                match <u128 as Ser>::spec_read(s3) {
                                    Err(e) => Err(e),
                                    Ok((roles, n4)) => {
                                        let s4 = s3.skip(n4 as int);
                                        match <u64 as Ser>::spec_read(s4) {
                                            Err(e) => Err(e),
                                            Ok((profile_seqno, n5)) => {
                                                let s5 = s4.skip(n5 as int);
                                                match <OnlineStatus as Ser>::spec_read(s5) {
                                                    Err(e) => Err(e),
                                                    Ok((online_status, n6)) => {
                                                        Ok(((user_pubkey, user_name, user_bio, roles, profile_seqno, online_status), n1 + n2 + n3 + n4 + n5 + n6))
                                                    },
                                                }
                                            },
                                        }
                                    },
                                }
                            },
                        }
                    },
                }
            },
        }
    }

    open spec fn spec_wf(v: (<Pubkey as View>::V, <SerString as View>::V, <SerString as View>::V, u128, u64, <OnlineStatus as View>::V)) -> bool {
        <Pubkey as Ser>::spec_wf(v.0) && <SerString as Ser>::spec_wf(v.1) && <SerString as Ser>::spec_wf(v.2) && <OnlineStatus as Ser>::spec_wf(v.5)
    }

    proof fn lemma_write_read(v: (<Pubkey as View>::V, <SerString as View>::V, <SerString as View>::V, u128, u64, <OnlineStatus as View>::V), rest: Seq<u8>) {
        let e1 = <Pubkey as Ser>::spec_write(v.0);
        let e2 = <SerString as Ser>::spec_write(v.1);
        let e3 = <SerString as Ser>::spec_write(v.2);
        let e4 = <u128 as Ser>::spec_write(v.3);
        let e5 = <u64 as Ser>::spec_write(v.4);
        let e6 = <OnlineStatus as Ser>::spec_write(v.5);
        assert(Self::spec_write(v) + rest =~= e1 + (e2 + (e3 + (e4 + (e5 + (e6 + rest))))));
        <Pubkey as Ser>::lemma_write_read(v.0, e2 + (e3 + (e4 + (e5 + (e6 + rest)))));
        lemma_skip_front(e1, e2 + (e3 + (e4 + (e5 + (e6 + rest)))));
        <SerString as Ser>::lemma_write_read(v.1, e3 + (e4 + (e5 + (e6 + rest))));
        lemma_skip_front(e2, e3 + (e4 + (e5 + (e6 + rest))));
        <SerString as Ser>::lemma_write_read(v.2, e4 + (e5 + (e6 + rest)));
        lemma_skip_front(e3, e4 + (e5 + (e6 + rest)));
        <u128 as Ser>::lemma_write_read(v.3, e5 + (e6 + rest));
        lemma_skip_front(e4, e5 + (e6 + rest));
        <u64 as Ser>::lemma_write_read(v.4, e6 + rest);
        lemma_skip_front(e5, e6 + rest);
        <OnlineStatus as Ser>::lemma_write_read(v.5, rest);
    }

    fn write(&self, out: &mut Vec<u8>) {
        let ghost start = out@;
        self.user_pubkey.write(out);
        self.user_name.write(out);
        self.user_bio.write(out);
        self.roles.write(out);
        self.profile_seqno.write(out);
        self.online_status.write(out);
        assert(out@ =~= start + Self::spec_write(self@));
    }

    fn read(buf: &[u8], pos: usize) -> (res: Result<(Member, usize), ReadError>) {
        let (user_pubkey, p1) = <Pubkey as Ser>::read(buf, pos)?;
        proof {
            lemma_from_pos_skip(buf@, pos as int, p1 as int);
        }
        let (user_name, p2) = <SerString as Ser>::read(buf, p1)?;
        proof {
            lemma_from_pos_skip(buf@, p1 as int, p2 as int);
        }
        let (user_bio, p3) = <SerString as Ser>::read(buf, p2)?;
        proof {
            lemma_from_pos_skip(buf@, p2 as int, p3 as int);
        }
        let (roles, p4) = <u128 as Ser>::read(buf, p3)?;
        proof {
            lemma_from_pos_skip(buf@, p3 as int, p4 as int);
        }
        let (profile_seqno, p5) = <u64 as Ser>::read(buf, p4)?;
        proof {
            lemma_from_pos_skip(buf@, p4 as int, p5 as int);
        }
        let (online_status, p6) = <OnlineStatus as Ser>::read(buf, p5)?;
        Ok((Member { user_pubkey, user_name, user_bio, roles, profile_seqno, online_status }, p6))
    }
}

impl View for GetMembersRequest {
    type V = (<ServerId as View>::V, <Pubkey as View>::V, u64);

    open spec fn view(&self) -> (<ServerId as View>::V, <Pubkey as View>::V, u64) {
        (self.server_id@, self.server_pubkey@, self.batch_num)
    }
}

impl Ser for GetMembersRequest {
    open spec fn spec_write(v: (<ServerId as View>::V, <Pubkey as View>::V, u64)) -> Seq<u8> {
        <ServerId as Ser>::spec_write(v.0) + <Pubkey as Ser>::spec_write(v.1) + <u64 as Ser>::spec_write(v.2)
    }

    closed spec fn spec_read(s: Seq<u8>) -> Result<((<ServerId as View>::V, <Pubkey as View>::V, u64), nat), ReadError> {
        match <ServerId as Ser>::spec_read(s) {
            Err(e) => Err(e),
            Ok((server_id, n1)) => {
                let s1 = s.skip(n1 as int);
                match <Pubkey as Ser>::spec_read(s1) {
                    Err(e) => Err(e),
                    Ok((server_pubkey, n2)) => {
                        let s2 = s1.skip(n2 as int);
                        match <u64 as Ser>::spec_read(s2) {
                            Err(e) => Err(e),
                            Ok((batch_num, n3)) => {
                                Ok(((server_id, server_pubkey, batch_num), n1 + n2 + n3))
                            },
                        }
                    },
                }
            },
        }
    }

    open spec fn spec_wf(v: (<ServerId as View>::V, <Pubkey as View>::V, u64)) -> bool {
        <ServerId as Ser>::spec_wf(v.0) && <Pubkey as Ser>::spec_wf(v.1)
    }

    proof fn lemma_write_read(v: (<ServerId as View>::V, <Pubkey as View>::V, u64), rest: Seq<u8>) {
        let e1 = <ServerId as Ser>::spec_write(v.0);
        let e2 = <Pubkey as Ser>::spec_write(v.1);
        let e3 = <u64 as Ser>::spec_write(v.2);
        assert(Self::spec_write(v) + rest =~= e1 + (e2 + (e3 + rest)));
        <ServerId as Ser>::lemma_write_read(v.0, e2 + (e3 + rest));
        lemma_skip_front(e1, e2 + (e3 + rest));
        <Pubkey as Ser>::lemma_write_read(v.1, e3 + rest);
        lemma_skip_front(e2, e3 + rest);
        <u64 as Ser>::lemma_write_read(v.2, rest);
    }

    fn write(&self, out: &mut Vec<u8>) {
        let ghost start = out@;
        self.server_id.write(out);
        self.server_pubkey.write(out);
        self.batch_num.write(out);
        assert(out@ =~= start + Self::spec_write(self@));
    }

    fn read(buf: &[u8], pos: usize) -> (res: Result<(GetMembersRequest, usize), ReadError>) {
        let (server_id, p1) = <ServerId as Ser>::read(buf, pos)?;
        proof {
            lemma_from_pos_skip(buf@, pos as int, p1 as int);
        }
        let (server_pubkey, p2) = <Pubkey as Ser>::read(buf, p1)?;
        proof {
            lemma_from_pos_skip(buf@, p1 as int, p2 as int);
        }
        let (batch_num, p3) = <u64 as Ser>::read(buf, p2)?;
        Ok((GetMembersRequest { server_id, server_pubkey, batch_num }, p3))
    }
}

impl View for GetServersEvent {
    type V = ();

    open spec fn view(&self) -> () {
        ()
    }
}

impl Ser for GetServersEvent {
    open spec fn spec_write(v: ()) -> Seq<u8> {
        Seq::empty()
    }

    closed spec fn spec_read(s: Seq<u8>) -> Result<((), nat), ReadError> {
        Ok(((), 0))
    }

    open spec fn spec_wf(v: ()) -> bool {
        true
    }

    proof fn lemma_write_read(v: (), rest: Seq<u8>) {
    }

    fn write(&self, out: &mut Vec<u8>) {
        let ghost start = out@;
        assert(out@ =~= start + Self::spec_write(self@));
    }

    fn read(buf: &[u8], pos: usize) -> (res: Result<(GetServersEvent, usize), ReadError>) {
        Ok((GetServersEvent {}, pos))
    }
}

impl View for ChallengeEvent {
    type V = u128;

    open spec fn view(&self) -> u128 {
        self.challenge
    }
}

impl Ser for ChallengeEvent {
    open spec fn spec_write(v: u128) -> Seq<u8> {
        <u128 as Ser>::spec_write(v)
    }

    closed spec fn spec_read(s: Seq<u8>) -> Result<(u128, nat), ReadError> {
        match <u128 as Ser>::spec_read(s) {
            Err(e) => Err(e),
            Ok((challenge, n1)) => {
                Ok((challenge, n1))
            },
        }
    }

    open spec fn spec_wf(v: u128) -> bool {
        true
    }

    proof fn lemma_write_read(v: u128, rest: Seq<u8>) {
        let e1 = <u128 as Ser>::spec_write(v);
        assert(Self::spec_write(v) + rest =~= e1 + rest);
        <u128 as Ser>::lemma_write_read(v, rest);
    }

    fn write(&self, out: &mut Vec<u8>) {
        let ghost start = out@;
        self.challenge.write(out);
        assert(out@ =~= start + Self::spec_write(self@));
    }

    fn read(buf: &[u8], pos: usize) -> (res: Result<(ChallengeEvent, usize), ReadError>) {
        let (challenge, p1) = <u128 as Ser>::read(buf, pos)?;
        Ok((ChallengeEvent { challenge }, p1))
    }
}

impl View for AuthEvent {
    type V = (<SerOption<Signature> as View>::V, <SerOption<U128> as View>::V, <SerOption<Pubkey> as View>::V);

    open spec fn view(&self) -> (<SerOption<Signature> as View>::V, <SerOption<U128> as View>::V, <SerOption<Pubkey> as View>::V) {
        (self.signature@, self.token@, self.pubkey@)
    }
}

impl Ser for AuthEvent {
    open spec fn spec_write(v: (<SerOption<Signature> as View>::V, <SerOption<U128> as View>::V, <SerOption<Pubkey> as View>::V)) -> Seq<u8> {
        <SerOption<Signature> as Ser>::spec_write(v.0) + <SerOption<U128> as Ser>::spec_write(v.1) + <SerOption<Pubkey> as Ser>::spec_write(v.2)
    }

    closed spec fn spec_read(s: Seq<u8>) -> Result<((<SerOption<Signature> as View>::V, <SerOption<U128> as View>::V, <SerOption<Pubkey> as View>::V), nat), ReadError> {
        match <SerOption<Signature> as Ser>::spec_read(s) {
            Err(e) => Err(e),
            Ok((signature, n1)) => {
                let s1 = s.skip(n1 as int);
                match <SerOption<U128> as Ser>::spec_read(s1) {
                    Err(e) => Err(e),
                    Ok((token, n2)) => {
                        let s2 = s1.skip(n2 as int);
                        match <SerOption<Pubkey> as Ser>::spec_read(s2) {
                            Err(e) => Err(e),
                            Ok((pubkey, n3)) => {
                                Ok(((signature, token, pubkey), n1 + n2 + n3))
                            },
                        }
                    },
                }
            },
        }
    }

    open spec fn spec_wf(v: (<SerOption<Signature> as View>::V, <SerOption<U128> as View>::V, <SerOption<Pubkey> as View>::V)) -> bool {
        <SerOption<Signature> as Ser>::spec_wf(v.0) && <SerOption<U128> as Ser>::spec_wf(v.1) && <SerOption<Pubkey> as Ser>::spec_wf(v.2)
    }

    proof fn lemma_write_read(v: (<SerOption<Signature> as View>::V, <SerOption<U128> as View>::V, <SerOption<Pubkey> as View>::V), rest: Seq<u8>) {
        let e1 = <SerOption<Signature> as Ser>::spec_write(v.0);
        let e2 = <SerOption<U128> as Ser>::spec_write(v.1);
        let e3 = <SerOption<Pubkey> as Ser>::spec_write(v.2);
        assert(Self::spec_write(v) + rest =~= e1 + (e2 + (e3 + rest)));
        <SerOption<Signature> as Ser>::lemma_write_read(v.0, e2 + (e3 + rest));
        lemma_skip_front(e1, e2 + (e3 + rest));
        <SerOption<U128> as Ser>::lemma_write_read(v.1, e3 + rest);
        lemma_skip_front(e2, e3 + rest);
        <SerOption<Pubkey> as Ser>::lemma_write_read(v.2, rest);
    }

    fn write(&self, out: &mut Vec<u8>) {
        let ghost start = out@;
        self.signature.write(out);
        self.token.write(out);
        self.pubkey.write(out);
        assert(out@ =~= start + Self::spec_write(self@));
    }

    fn read(buf: &[u8], pos: usize) -> (res: Result<(AuthEvent, usize), ReadError>) {
        let (signature, p1) = <SerOption<Signature> as Ser>::read(buf, pos)?;
        proof {
            lemma_from_pos_skip(buf@, pos as int, p1 as int);
        }
        let (token, p2) = <SerOption<U128> as Ser>::read(buf, p1)?;
        proof {
            lemma_from_pos_skip(buf@, p1 as int, p2 as int);
        }
        let (pubkey, p3) = <SerOption<Pubkey> as Ser>::read(buf, p2)?;
        Ok((AuthEvent { signature, token, pubkey }, p3))
    }
}

impl View for AuthResponse {
    type V = (bool, <SerOption<SerString> as View>::V);

    open spec fn view(&self) -> (bool, <SerOption<SerString> as View>::V) {
        (self.success, self.redirect@)
    }
}

impl Ser for AuthResponse {
    open spec fn spec_write(v: (bool, <SerOption<SerString> as View>::V)) -> Seq<u8> {
        <bool as Ser>::spec_write(v.0) + <SerOption<SerString> as Ser>::spec_write(v.1)
    }

    closed spec fn spec_read(s: Seq<u8>) -> Result<((bool, <SerOption<SerString> as View>::V), nat), ReadError> {
        match <bool as Ser>::spec_read(s) {
            Err(e) => Err(e),
            Ok((success, n1)) => {
                let s1 = s.skip(n1 as int);
                match <SerOption<SerString> as Ser>::spec_read(s1) {
                    Err(e) => Err(e),
                    Ok((redirect, n2)) => {
                        Ok(((success, redirect), n1 + n2))
                    },
                }
            },
        }
    }

    open spec fn spec_wf(v: (bool, <SerOption<SerString> as View>::V)) -> bool {
        <SerOption<SerString> as Ser>::spec_wf(v.1)
    }

    proof fn lemma_write_read(v: (bool, <SerOption<SerString> as View>::V), rest: Seq<u8>) {
        let e1 = <bool as Ser>::spec_write(v.0);
        let e2 = <SerOption<SerString> as Ser>::spec_write(v.1);
        assert(Self::spec_write(v) + rest =~= e1 + (e2 + rest));
        <bool as Ser>::lemma_write_read(v.0, e2 + rest);
        lemma_skip_front(e1, e2 + rest);
        <SerOption<SerString> as Ser>::lemma_write_read(v.1, rest);
    }

    fn write(&self, out: &mut Vec<u8>) {
        let ghost start = out@;
        self.success.write(out);
        self.redirect.write(out);
        assert(out@ =~= start + Self::spec_write(self@));
    }

    fn read(buf: &[u8], pos: usize) -> (res: Result<(AuthResponse, usize), ReadError>) {
        let (success, p1) = <bool as Ser>::read(buf, pos)?;
        proof {
            lemma_from_pos_skip(buf@, pos as int, p1 as int);
        }
        let (redirect, p2) = <SerOption<SerString> as Ser>::read(buf, p1)?;
        Ok((AuthResponse { success, redirect }, p2))
    }
}

impl View for ServerInfo {
    type V = (<SerString as View>::V, <SerString as View>::V, <ServerId as View>::V, <Pubkey as View>::V, u64);

    open spec fn view(&self) -> (<SerString as View>::V, <SerString as View>::V, <ServerId as View>::V, <Pubkey as View>::V, u64) {
        (self.name@, self.description@, self.server_id@, self.server_pubkey@, self.seqno)
    }
}

impl Ser for ServerInfo {
    open spec fn spec_write(v: (<SerString as View>::V, <SerString as View>::V, <ServerId as View>::V, <Pubkey as View>::V, u64)) -> Seq<u8> {
        <SerString as Ser>::spec_write(v.0) + <SerString as Ser>::spec_write(v.1) + <ServerId as Ser>::spec_write(v.2) + <Pubkey as Ser>::spec_write(v.3) + <u64 as Ser>::spec_write(v.4)
    }

    closed spec fn spec_read(s: Seq<u8>) -> Result<((<SerString as View>::V, <SerString as View>::V, <ServerId as View>::V, <Pubkey as View>::V, u64), nat), ReadError> {
        match <SerString as Ser>::spec_read(s) {
            Err(e) => Err(e),
            Ok((name, n1)) => {
                let s1 = s.skip(n1 as int);
                match <SerString as Ser>::spec_read(s1) {
                    Err(e) => Err(e),
                    Ok((description, n2)) => {
                        let s2 = s1.skip(n2 as int);
                        match <ServerId as Ser>::spec_read(s2) {
                            Err(e) => Err(e),
                            Ok((server_id, n3)) => {
                                let s3 = s2.skip(n3 as int);
                                match <Pubkey as Ser>::spec_read(s3) {
                                    Err(e) => Err(e),
                                    Ok((server_pubkey, n4)) => {
                                        let s4 = s3.skip(n4 as int);
                                        match <u64 as Ser>::spec_read(s4) {
                                            Err(e) => Err(e),
                                            Ok((seqno, n5)) => {
                                                Ok(((name, description, server_id, server_pubkey, seqno), n1 + n2 + n3 + n4 + n5))
                                            },
                                        }
                                    },
                                }
                            },
                        }
                    },
                }
            },
        }
    }

    open spec fn spec_wf(v: (<SerString as View>::V, <SerString as View>::V, <ServerId as View>::V, <Pubkey as View>::V, u64)) -> bool {
        <SerString as Ser>::spec_wf(v.0) && <SerString as Ser>::spec_wf(v.1) && <ServerId as Ser>::spec_wf(v.2) && <Pubkey as Ser>::spec_wf(v.3)
    }

    proof fn lemma_write_read(v: (<SerString as View>::V, <SerString as View>::V, <ServerId as View>::V, <Pubkey as View>::V, u64), rest: Seq<u8>) {
        let e1 = <SerString as Ser>::spec_write(v.0);
        let e2 = <SerString as Ser>::spec_write(v.1);
        let e3 = <ServerId as Ser>::spec_write(v.2);
        let e4 = <Pubkey as Ser>::spec_write(v.3);
        let e5 = <u64 as Ser>::spec_write(v.4);
        assert(Self::spec_write(v) + rest =~= e1 + (e2 + (e3 + (e4 + (e5 + rest)))));
        <SerString as Ser>::lemma_write_read(v.0, e2 + (e3 + (e4 + (e5 + rest))));
        lemma_skip_front(e1, e2 + (e3 + (e4 + (e5 + rest))));
        <SerString as Ser>::lemma_write_read(v.1, e3 + (e4 + (e5 + rest)));
        lemma_skip_front(e2, e3 + (e4 + (e5 + rest)));
        <ServerId as Ser>::lemma_write_read(v.2, e4 + (e5 + rest));
        lemma_skip_front(e3, e4 + (e5 + rest));
        <Pubkey as Ser>::lemma_write_read(v.3, e5 + rest);
        lemma_skip_front(e4, e5 + rest);
        <u64 as Ser>::lemma_write_read(v.4, rest);
    }

    fn write(&self, out: &mut Vec<u8>) {
        let ghost start = out@;
        self.name.write(out);
        self.description.write(out);
        self.server_id.write(out);
        self.server_pubkey.write(out);
        self.seqno.write(out);
        assert(out@ =~= start + Self::spec_write(self@));
    }

    fn read(buf: &[u8], pos: usize) -> (res: Result<(ServerInfo, usize), ReadError>) {
        let (name, p1) = <SerString as Ser>::read(buf, pos)?;
        proof {
            lemma_from_pos_skip(buf@, pos as int, p1 as int);
        }
        let (description, p2) = <SerString as Ser>::read(buf, p1)?;
        proof {
            lemma_from_pos_skip(buf@, p1 as int, p2 as int);
        }
        let (server_id, p3) = <ServerId as Ser>::read(buf, p2)?;
        proof {
            lemma_from_pos_skip(buf@, p2 as int, p3 as int);
        }
        let (server_pubkey, p4) = <Pubkey as Ser>::read(buf, p3)?;
        proof {
            lemma_from_pos_skip(buf@, p3 as int, p4 as int);
        }
        let (seqno, p5) = <u64 as Ser>::read(buf, p4)?;
        Ok((ServerInfo { name, description, server_id, server_pubkey, seqno }, p5))
    }
}

impl View for GetServersResponse {
    type V = Seq<<ServerInfo as View>::V>;

    open spec fn view(&self) -> Seq<<ServerInfo as View>::V> {
        views(self.servers@)
    }
}

impl Ser for GetServersResponse {
    open spec fn spec_write(v: Seq<<ServerInfo as View>::V>) -> Seq<u8> {
        spec_write_list::<ServerInfo>(v)
    }

    closed spec fn spec_read(s: Seq<u8>) -> Result<(Seq<<ServerInfo as View>::V>, nat), ReadError> {
        match spec_read_list::<ServerInfo>(s) {
            Err(e) => Err(e),
            Ok((servers, n1)) => {
                Ok((servers, n1))
            },
        }
    }

    open spec fn spec_wf(v: Seq<<ServerInfo as View>::V>) -> bool {
        all_wf::<ServerInfo>(v) && v.len() <= u64::MAX
    }

    proof fn lemma_write_read(v: Seq<<ServerInfo as View>::V>, rest: Seq<u8>) {
        let e1 = spec_write_list::<ServerInfo>(v);
        assert(Self::spec_write(v) + rest =~= e1 + rest);
        lemma_write_read_list::<ServerInfo>(v, rest);
    }

    fn write(&self, out: &mut Vec<u8>) {
        let ghost start = out@;
        write_list(&self.servers, out);
        assert(out@ =~= start + Self::spec_write(self@));
    }

    fn read(buf: &[u8], pos: usize) -> (res: Result<(GetServersResponse, usize), ReadError>) {
        let (servers, p1) = read_list::<ServerInfo>(buf, pos)?;
        Ok((GetServersResponse { servers }, p1))
    }
}


impl From<StoredMember> for Member {
    /// The member as sent to clients: its profile's name and bio, or empty
    /// ones, with no roles, sequence number 0, and offline.
    fn from(dmember: StoredMember) -> (m: Member)
        ensures
            m@ == (
                dmember.user_pubkey@,
                match dmember.profile_data {
                    Some(p) => p.user_name@,
                    None => Seq::<char>::empty(),
                },
                match dmember.profile_data {
                    Some(p) => p.user_bio@,
                    None => Seq::<char>::empty(),
                },
                0u128,
                0u64,
                OnlineStatus::Offline,
            ),
    {
        let (user_name, user_bio) = match dmember.profile_data {
            Some(profile) => (profile.user_name, profile.user_bio),
            None => (SerString { data: String::new() }, SerString { data: String::new() }),
        };
        Member {
            user_pubkey: dmember.user_pubkey,
            user_name,
            user_bio,
            roles: 0,
            profile_seqno: 0,
            online_status: OnlineStatus::Offline,
        }
    }
}

impl vstd::std_specs::convert::FromSpecImpl<StoredMember> for Member {
    open spec fn obeys_from_spec() -> bool {
        false
    }

    open spec fn from_spec(dmember: StoredMember) -> Member {
        arbitrary()
    }
}

} // verus!
