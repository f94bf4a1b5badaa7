//! What the websocket requests decide: which handler an event goes to, who
//! may do what, and the replies built from what the store returns.

use crate::encoding::{base58_text, base64_text, percent_encode};
use vstd::utf8::encode_utf8;
use crate::error::{Error, ErrorKind};
use crate::event::EventBody;
use crate::protocol::{
    AcceptInviteRequest, Channel, GetChannelsResponse, GetMembersResponse, GetProfileRequest, GetProfileResponse,
    InviteResponseInfo, Member, ProfileImageRequestType, ServerInfo, ViewInviteResponse,
};
use crate::context::bytes_eq;
use crate::ser::views;
use crate::store;
use crate::store::{JoinInfoReply, Profile, ServerInfoReply};
use crate::types::{Image, ProfileData, Pubkey, SerOption, SerString, ServerId};
use vstd::prelude::*;
use vstd::string::StringExecFns;

verus! {

/// The handler that an event from a signed-in connection goes to.
#[derive(Debug, Clone, Copy, PartialEq, Eq, Structural)]
pub enum Route {
    GetServers,
    CreateServer,
    DeleteServer,
    ModifyServer,
    GetChannels,
    AddChannel,
    ModifyChannel,
    DeleteChannel,
    GetMembers,
    CreateInvite,
    ListInvites,
    ModifyInvite,
    DeleteInvite,
    ViewInvite,
    AcceptInvite,
    JoinServer,
    GetProfile,
    SetProfile,
    /// Not a request: the connection is closed.
    Unexpected,
}

/// The handler for each request; every other event closes the connection.
pub open spec fn spec_route(body: EventBody) -> Route {
    match body {
        EventBody::GetServersEvent(_) => Route::GetServers,
        EventBody::CreateServerEvent(_) => Route::CreateServer,
        EventBody::DeleteServerEvent(_) => Route::DeleteServer,
        EventBody::ModifyServerEvent(_) => Route::ModifyServer,
        EventBody::GetChannelsRequest(_) => Route::GetChannels,
        EventBody::AddChannelRequest(_) => Route::AddChannel,
        EventBody::ModifyChannelRequest(_) => Route::ModifyChannel,
        EventBody::DeleteChannelRequest(_) => Route::DeleteChannel,
        EventBody::GetMembersRequest(_) => Route::GetMembers,
        EventBody::CreateInviteRequest(_) => Route::CreateInvite,
        EventBody::ListInvitesRequest(_) => Route::ListInvites,
        EventBody::ModifyInviteRequest(_) => Route::ModifyInvite,
        EventBody::DeleteInviteRequest(_) => Route::DeleteInvite,
        EventBody::ViewInviteRequest(_) => Route::ViewInvite,
        EventBody::AcceptInviteRequest(_) => Route::AcceptInvite,
        EventBody::JoinServerRequest(_) => Route::JoinServer,
        EventBody::GetProfileRequest(_) => Route::GetProfile,
        EventBody::SetProfileRequest(_) => Route::SetProfile,
        _ => Route::Unexpected,
    }
}

/// The handler that an event from a signed-in connection goes to.
pub fn authed_route(body: &EventBody) -> (r: Route)
    ensures
        r == spec_route(*body),
{
    match body {
        EventBody::GetServersEvent(_) => Route::GetServers,
        EventBody::CreateServerEvent(_) => Route::CreateServer,
        EventBody::DeleteServerEvent(_) => Route::DeleteServer,
        EventBody::ModifyServerEvent(_) => Route::ModifyServer,
        EventBody::GetChannelsRequest(_) => Route::GetChannels,
        EventBody::AddChannelRequest(_) => Route::AddChannel,
        EventBody::ModifyChannelRequest(_) => Route::ModifyChannel,
        EventBody::DeleteChannelRequest(_) => Route::DeleteChannel,
        EventBody::GetMembersRequest(_) => Route::GetMembers,
        EventBody::CreateInviteRequest(_) => Route::CreateInvite,
        EventBody::ListInvitesRequest(_) => Route::ListInvites,
        EventBody::ModifyInviteRequest(_) => Route::ModifyInvite,
        EventBody::DeleteInviteRequest(_) => Route::DeleteInvite,
        EventBody::ViewInviteRequest(_) => Route::ViewInvite,
        EventBody::AcceptInviteRequest(_) => Route::AcceptInvite,
        EventBody::JoinServerRequest(_) => Route::JoinServer,
        EventBody::GetProfileRequest(_) => Route::GetProfile,
        EventBody::SetProfileRequest(_) => Route::SetProfile,
        _ => Route::Unexpected,
    }
}

/// What is done with an event that arrives on a websocket.
#[derive(Debug, Clone, Copy, PartialEq, Eq, Structural)]
pub enum BinaryAction {
    /// It is a sign-in: check it.
    Authenticate,
    /// The connection is signed in: handle the event.
    Process,
    /// The connection is not signed in: close it.
    Close,
}

/// What is done with an event on a connection that is known with the key it
/// signed in with, if any (`Some`), or not known at all (`None`).
pub fn binary_action(body: &EventBody, conn_pubkey: &Option<Option<Pubkey>>) -> (a: BinaryAction)
    ensures
        a == if body is AuthEvent {
            BinaryAction::Authenticate
        } else if conn_pubkey matches Some(Some(_)) {
            BinaryAction::Process
        } else {
            BinaryAction::Close
        },
{
    match body {
        EventBody::AuthEvent(_) => BinaryAction::Authenticate,
        _ => match conn_pubkey {
            Some(Some(_)) => BinaryAction::Process,
            _ => BinaryAction::Close,
        },
    }
}

/// Whether the byte strings are the same.
fn bytes_same(a: &[u8], b: &[u8]) -> (r: bool)
    ensures
        r == (a@ == b@),
{
    if a.len() != b.len() {
        return false;
    }
    let mut i: usize = 0;
    while i < a.len()
        invariant
            i <= a@.len(),
            a@.len() == b@.len(),
            forall|j: int| 0 <= j < i ==> a@[j] == b@[j],
        decreases a@.len() - i,
    {
        if a[i] != b[i] {
            assert(a@[i as int] != b@[i as int]);
            return false;
        }
        i = i + 1;
    }
    assert(a@ =~= b@);
    true
}

/// Whether a connection signed in with `conn_pubkey` is the owner of the
/// server whose key is `server_pubkey`.
pub fn is_owner(conn_pubkey: &Option<Pubkey>, server_pubkey: &[u8; 32]) -> (r: bool)
    ensures
        r == (conn_pubkey matches Some(k) && k@ == server_pubkey@),
{
    match conn_pubkey {
        None => false,
        Some(k) => {
            let b = k.to_bytes();
            bytes_same(b.as_slice(), server_pubkey.as_slice())
        },
    }
}

/// The servers as sent to clients: each with the description `none`.
pub fn server_infos(data: Vec<ServerInfoReply>) -> (servers: Vec<ServerInfo>)
    ensures
        servers@.len() == data@.len(),
        forall|i: int|
            0 <= i < data@.len() ==> #[trigger] servers@[i]@ == (
                data@[i].name@,
                "none"@,
                data@[i].server_id@,
                data@[i].pubkey@,
                data@[i].seqno,
            ),
{
    let mut servers: Vec<ServerInfo> = Vec::new();
    let mut data = data;
    let ghost orig = data@;
    let mut rev: Vec<ServerInfo> = Vec::new();
    let n = data.len();
    while data.len() > 0
        invariant
            data@ == orig.take(data@.len() as int),
            n == orig.len(),
            rev@.len() == n - data@.len(),
            forall|k: int|
                0 <= k < rev@.len() ==> #[trigger] rev@[k]@ == (
                    orig[n - 1 - k].name@,
                    "none"@,
                    orig[n - 1 - k].server_id@,
                    orig[n - 1 - k].pubkey@,
                    orig[n - 1 - k].seqno,
                ),
        decreases data@.len(),
    {
        let d = data.pop().unwrap();
        assert(d == orig[data@.len() as int]);
        rev.push(
            ServerInfo {
                name: SerString { data: d.name },
                description: SerString { data: "none".to_owned() },
                server_id: ServerId::from_bytes(d.server_id),
                server_pubkey: Pubkey::from_bytes(d.pubkey),
                seqno: d.seqno,
            },
        );
        assert(data@ =~= orig.take(data@.len() as int));
    }
    while rev.len() > 0
        invariant
            n == orig.len(),
            servers@.len() + rev@.len() == n,
            forall|k: int|
                0 <= k < rev@.len() ==> #[trigger] rev@[k]@ == (
                    orig[n - 1 - k].name@,
                    "none"@,
                    orig[n - 1 - k].server_id@,
                    orig[n - 1 - k].pubkey@,
                    orig[n - 1 - k].seqno,
                ),
            forall|i: int|
                0 <= i < servers@.len() ==> #[trigger] servers@[i]@ == (
                    orig[i].name@,
                    "none"@,
                    orig[i].server_id@,
                    orig[i].pubkey@,
                    orig[i].seqno,
                ),
        decreases rev@.len(),
    {
        let s = rev.pop().unwrap();
        servers.push(s);
    }
    servers
}

/// The record of a server just created by its owner: joined, at sequence
/// number 1.
pub fn created_server_info(pubkey: [u8; 32], name: String) -> (s: store::ServerInfo)
    ensures
        s@ == (pubkey@, name@, true, 1u64),
{
    store::ServerInfo { pubkey, name, joined: true, seqno: 1 }
}

/// The channels as sent to clients.
pub fn channels_response(channels: Vec<store::Channel>, server_id: [u8; 8], server_pubkey: [u8; 32]) -> (r:
    GetChannelsResponse)
    ensures
        r@.0.len() == channels@.len(),
        forall|i: int|
            0 <= i < channels@.len() ==> #[trigger] r@.0[i] == (
                channels@[i].name@,
                channels@[i].description@,
                channels@[i].channel_id,
            ),
        r@.1 == server_id@,
        r@.2 == server_pubkey@,
{
    let mut out: Vec<Channel> = Vec::new();
    let mut channels = channels;
    let ghost orig = channels@;
    let n = channels.len();
    let mut rev: Vec<Channel> = Vec::new();
    while channels.len() > 0
        invariant
            channels@ == orig.take(channels@.len() as int),
            n == orig.len(),
            rev@.len() == n - channels@.len(),
            forall|k: int|
                0 <= k < rev@.len() ==> #[trigger] rev@[k]@ == (
                    orig[n - 1 - k].name@,
                    orig[n - 1 - k].description@,
                    orig[n - 1 - k].channel_id,
                ),
        decreases channels@.len(),
    {
        let c = channels.pop().unwrap();
        assert(c == orig[channels@.len() as int]);
        rev.push(
            Channel {
                name: SerString { data: c.name },
                description: SerString { data: c.description },
                channel_id: c.channel_id,
            },
        );
        assert(channels@ =~= orig.take(channels@.len() as int));
    }
    while rev.len() > 0
        invariant
            n == orig.len(),
            out@.len() + rev@.len() == n,
            forall|k: int|
                0 <= k < rev@.len() ==> #[trigger] rev@[k]@ == (
                    orig[n - 1 - k].name@,
                    orig[n - 1 - k].description@,
                    orig[n - 1 - k].channel_id,
                ),
            forall|i: int|
                0 <= i < out@.len() ==> #[trigger] out@[i]@ == (
                    orig[i].name@,
                    orig[i].description@,
                    orig[i].channel_id,
                ),
        decreases rev@.len(),
    {
        let c = rev.pop().unwrap();
        out.push(c);
    }
    GetChannelsResponse {
        channels: out,
        server_id: ServerId::from_bytes(server_id),
        server_pubkey: Pubkey::from_bytes(server_pubkey),
    }
}

/// The members as sent to clients, in order.
pub fn members_response(members: Vec<store::Member>, server_id: ServerId, server_pubkey: Pubkey, batch_num: u64) -> (r:
    GetMembersResponse)
    ensures
        r.members@.len() == members@.len(),
        forall|i: int|
            0 <= i < members@.len() ==> #[trigger] r.members@[i]@ == (
                members@[i].user_pubkey@,
                match members@[i].profile_data {
                    Some(p) => p.user_name@,
                    None => Seq::<char>::empty(),
                },
                match members@[i].profile_data {
                    Some(p) => p.user_bio@,
                    None => Seq::<char>::empty(),
                },
                0u128,
                0u64,
                crate::protocol::OnlineStatus::Offline,
            ),
        r.server_id@ == server_id@,
        r.server_pubkey@ == server_pubkey@,
        r.batch_num == batch_num,
{
    let mut members = members;
    let ghost orig = members@;
    let n = members.len();
    let mut rev: Vec<Member> = Vec::new();
    while members.len() > 0
        invariant
            members@ == orig.take(members@.len() as int),
            n == orig.len(),
            rev@.len() == n - members@.len(),
            forall|k: int|
                0 <= k < rev@.len() ==> #[trigger] rev@[k]@ == (
                    orig[n - 1 - k].user_pubkey@,
                    match orig[n - 1 - k].profile_data {
                        Some(p) => p.user_name@,
                        None => Seq::<char>::empty(),
                    },
                    match orig[n - 1 - k].profile_data {
                        Some(p) => p.user_bio@,
                        None => Seq::<char>::empty(),
                    },
                    0u128,
                    0u64,
                    crate::protocol::OnlineStatus::Offline,
                ),
        decreases members@.len(),
    {
        let m = members.pop().unwrap();
        assert(m == orig[members@.len() as int]);
        rev.push(Member::from(m));
        assert(members@ =~= orig.take(members@.len() as int));
    }
    let mut out: Vec<Member> = Vec::new();
    while rev.len() > 0
        invariant
            n == orig.len(),
            out@.len() + rev@.len() == n,
            forall|k: int|
                0 <= k < rev@.len() ==> #[trigger] rev@[k]@ == (
                    orig[n - 1 - k].user_pubkey@,
                    match orig[n - 1 - k].profile_data {
                        Some(p) => p.user_name@,
                        None => Seq::<char>::empty(),
                    },
                    match orig[n - 1 - k].profile_data {
                        Some(p) => p.user_bio@,
                        None => Seq::<char>::empty(),
                    },
                    0u128,
                    0u64,
                    crate::protocol::OnlineStatus::Offline,
                ),
            forall|i: int|
                0 <= i < out@.len() ==> #[trigger] out@[i]@ == (
                    orig[i].user_pubkey@,
                    match orig[i].profile_data {
                        Some(p) => p.user_name@,
                        None => Seq::<char>::empty(),
                    },
                    match orig[i].profile_data {
                        Some(p) => p.user_bio@,
                        None => Seq::<char>::empty(),
                    },
                    0u128,
                    0u64,
                    crate::protocol::OnlineStatus::Offline,
                ),
        decreases rev@.len(),
    {
        let m = rev.pop().unwrap();
        out.push(m);
    }
    GetMembersResponse { members: out, server_id, server_pubkey, batch_num }
}

/// What is shown of a server to someone holding an invite to it: its name,
/// with no inviter, icons or member counts; nothing when the invite is not
/// usable.
pub fn view_invite_response(jri: Option<JoinInfoReply>) -> (r: ViewInviteResponse)
    ensures
        match jri {
            Some(j) => r@ == Some(
                (""@, Seq::<u8>::empty(), Seq::<u8>::empty(), j.name@, 0u64, 0u64),
            ),
            None => r@ is None,
        },
{
    match jri {
        Some(j) => {
            let info = InviteResponseInfo {
                inviter_name: SerString { data: "".to_owned() },
                inviter_icon: Image { data: Vec::new() },
                server_icon: Image { data: Vec::new() },
                server_name: SerString { data: j.name },
                current_members: 0,
                online_members: 0,
            };
            assert(info@.1 =~= Seq::<u8>::empty());
            assert(info@.2 =~= Seq::<u8>::empty());
            ViewInviteResponse { response_info: Some(info) }
        },
        None => ViewInviteResponse { response_info: None },
    }
}

/// The request sent to another server to accept its invite: signed by the
/// user `user_pubkey`, with the name and bio of the user's only local
/// profile if exactly one was found, else empty ones, and no avatar.
pub fn join_request(invite_id: u128, user_pubkey: [u8; 32], server_pubkey: [u8; 32], profiles: Vec<Option<Profile>>) -> (r:
    AcceptInviteRequest)
    ensures
        r@ == (
            invite_id,
            user_pubkey@,
            server_pubkey@,
            if profiles@.len() == 1 && profiles@[0] is Some {
                profiles@[0]->0.profile_data.user_name@
            } else {
                ""@
            },
            if profiles@.len() == 1 && profiles@[0] is Some {
                profiles@[0]->0.profile_data.user_bio@
            } else {
                ""@
            },
            Seq::<u8>::empty(),
        ),
{
    let mut profiles = profiles;
    let (user_name, user_bio) = if profiles.len() == 1 {
        match profiles.pop() {
            Some(Some(p)) => (p.profile_data.user_name, p.profile_data.user_bio),
            _ => (SerString { data: "".to_owned() }, SerString { data: "".to_owned() }),
        }
    } else {
        (SerString { data: "".to_owned() }, SerString { data: "".to_owned() })
    };
    let r = AcceptInviteRequest { invite_id, user_pubkey, server_pubkey, user_name, user_bio, avatar: Image { data: Vec::new() } };
    assert(r@.5 =~= Seq::<u8>::empty());
    r
}

/// The reply entries for the profiles found: no avatar, and the profile's
/// data if it was found.
pub fn profile_entries(profiles: Vec<Option<Profile>>) -> (data: Vec<(SerOption<Image>, SerOption<ProfileData>)>)
    ensures
        data@.len() == profiles@.len(),
        forall|i: int|
            0 <= i < profiles@.len() ==> #[trigger] data@[i]@ == (
                None::<Seq<u8>>,
                match profiles@[i] {
                    Some(p) => Some(p.profile_data@),
                    None => None,
                },
            ),
{
    let mut profiles = profiles;
    let ghost orig = profiles@;
    let n = profiles.len();
    let mut rev: Vec<(SerOption<Image>, SerOption<ProfileData>)> = Vec::new();
    while profiles.len() > 0
        invariant
            profiles@ == orig.take(profiles@.len() as int),
            n == orig.len(),
            rev@.len() == n - profiles@.len(),
            forall|k: int|
                0 <= k < rev@.len() ==> #[trigger] rev@[k]@ == (
                    None::<Seq<u8>>,
                    match orig[n - 1 - k] {
                        Some(p) => Some(p.profile_data@),
                        None => None,
                    },
                ),
        decreases profiles@.len(),
    {
        let p = profiles.pop().unwrap();
        assert(p == orig[profiles@.len() as int]);
        let entry = match p {
            Some(p) => (SerOption(None), SerOption(Some(p.profile_data))),
            None => (SerOption(None), SerOption(None)),
        };
        rev.push(entry);
        assert(profiles@ =~= orig.take(profiles@.len() as int));
    }
    let mut data: Vec<(SerOption<Image>, SerOption<ProfileData>)> = Vec::new();
    while rev.len() > 0
        invariant
            n == orig.len(),
            data@.len() + rev@.len() == n,
            forall|k: int|
                0 <= k < rev@.len() ==> #[trigger] rev@[k]@ == (
                    None::<Seq<u8>>,
                    match orig[n - 1 - k] {
                        Some(p) => Some(p.profile_data@),
                        None => None,
                    },
                ),
            forall|i: int|
                0 <= i < data@.len() ==> #[trigger] data@[i]@ == (
                    None::<Seq<u8>>,
                    match orig[i] {
                        Some(p) => Some(p.profile_data@),
                        None => None,
                    },
                ),
        decreases rev@.len(),
    {
        let e = rev.pop().unwrap();
        data.push(e);
    }
    data
}

/// Puts the avatar found for each user into that user's reply entry, in
/// order; the entries past the avatars are left as they are.
pub fn attach_avatars(
    data: &mut Vec<(SerOption<Image>, SerOption<ProfileData>)>,
    avatars: Vec<Option<Image>>,
)
    requires
        avatars@.len() <= old(data)@.len(),
    ensures
        final(data)@.len() == old(data)@.len(),
        forall|i: int|
            0 <= i < old(data)@.len() ==> #[trigger] final(data)@[i]@ == if i < avatars@.len() {
                (
                    match avatars@[i] {
                        Some(a) => Some(a@),
                        None => None,
                    },
                    old(data)@[i]@.1,
                )
            } else {
                old(data)@[i]@
            },
{
    let mut avatars = avatars;
    let ghost orig = avatars@;
    let ghost start = data@;
    while avatars.len() > 0
        invariant
            avatars@.len() <= orig.len(),
            avatars@ == orig.take(avatars@.len() as int),
            orig.len() <= start.len(),
            data@.len() == start.len(),
            forall|i: int|
                0 <= i < start.len() ==> #[trigger] data@[i]@ == if avatars@.len() <= i < orig.len() {
                    (
                        match orig[i] {
                            Some(a) => Some(a@),
                            None => None,
                        },
                        start[i]@.1,
                    )
                } else {
                    start[i]@
                },
        decreases avatars@.len(),
    {
        let a = avatars.pop().unwrap();
        let k = avatars.len();
        assert(a == orig[k as int]);
        let ghost before = data@;
        assert(before[k as int]@ == start[k as int]@);
        let (_, profile) = data.remove(k);
        assert(profile@ == start[k as int]@.1);
        let entry = (SerOption(a), profile);
        assert(entry@ == (
            match orig[k as int] {
                Some(x) => Some(x@),
                None => None,
            },
            start[k as int]@.1,
        ));
        data.insert(k, entry);
        assert(data@ =~= before.update(k as int, entry));
        assert(avatars@ =~= orig.take(avatars@.len() as int));
    }
}

/// What becomes of a profile request.
pub enum ProfileAction {
    /// It is answered here.
    Answer(GetProfileRequest),
    /// It is sent on, as given, to the server that hosts it; when it asked
    /// for avatars to be saved here, the server identifier and the users
    /// whose avatars come back are kept to save them.
    Forward(GetProfileRequest, Option<(ServerId, Vec<Pubkey>)>),
}

/// Copies of the keys `keys`, in order.
fn copy_keys(keys: &Vec<Pubkey>) -> (r: Vec<Pubkey>)
    ensures
        views(r@) == views(keys@),
{
    let mut r: Vec<Pubkey> = Vec::new();
    let mut i: usize = 0;
    while i < keys.len()
        invariant
            i <= keys@.len(),
            r@.len() == i,
            views(r@) == views(keys@).take(i as int),
        decreases keys@.len() - i,
    {
        let k = keys[i];
        assert(k == keys@[i as int]);
        let ghost before = r@;
        r.push(k);
        assert(r@ == before.push(k));
        assert(views(r@) =~= views(keys@).take(i + 1)) by {
            assert forall|j: int| 0 <= j < i + 1 implies #[trigger] views(r@)[j] == views(keys@).take(i + 1)[j] by {
                if j < i {
                    assert(views(r@)[j] == r@[j]@);
                    assert(r@[j] == before[j]);
                    assert(views(before)[j] == views(keys@).take(i as int)[j]);
                }
            }
        }
        i = i + 1;
    }
    assert(views(keys@).take(keys@.len() as int) =~= views(keys@));
    r
}

/// What becomes of a profile request on the server whose key is `local`: a
/// request about a server hosted here is answered here; any other is sent
/// on to the server that hosts it, asking it to return the avatars that
/// were to be saved, which are then saved here for the server and users
/// asked about.
pub fn profile_action(local: [u8; 32], req: GetProfileRequest) -> (a: ProfileAction)
    ensures
        if req.server_pubkey@ == local@ {
            a matches ProfileAction::Answer(r) && r@ == req@
        } else {
            a matches ProfileAction::Forward(r, save) && r@ == (
                req@.0,
                req@.1,
                req@.2,
                if req.image_request_type == ProfileImageRequestType::SaveAvatars {
                    ProfileImageRequestType::ReturnAvatars
                } else {
                    req.image_request_type
                },
                req@.4,
            ) && (save is Some <==> req.image_request_type == ProfileImageRequestType::SaveAvatars) && (save matches Some(
                s,
            ) ==> s.0@ == req@.2 && views(s.1@) == req@.0)
        },
{
    let spk = req.server_pubkey.to_bytes();
    if bytes_eq(spk.as_slice(), local.as_slice()) {
        return ProfileAction::Answer(req);
    }
    let user_pubkeys = copy_keys(&req.user_pubkeys);
    let server_id = req.server_id;
    let (request, is_save) = remote_profile_request(req);
    let save = if is_save {
        Some((server_id, user_pubkeys))
    } else {
        None
    };
    ProfileAction::Forward(request, save)
}

/// The entry of the reply to a profile request that asks about the user at
/// `i`: the avatar read for the user when avatars are returned, and the
/// user's stored profile when profiles are asked for.
pub open spec fn profile_reply_entry(
    req: <GetProfileRequest as View>::V,
    profiles: Seq<Option<Profile>>,
    avatars: Seq<Option<Image>>,
    i: int,
) -> (Option<Seq<u8>>, Option<<ProfileData as View>::V>) {
    (
        if req.3 == ProfileImageRequestType::ReturnAvatars && i < avatars.len() {
            match avatars[i] {
                Some(a) => Some(a@),
                None => None,
            }
        } else {
            None
        },
        match profiles[i] {
            Some(p) => Some(p.profile_data@),
            None => None,
        },
    )
}

/// The reply to a profile request answered here, from the profiles found
/// for the users asked about and the avatars read for them: one entry per
/// profile when the request asks for profiles, and none when it does not;
/// each avatar goes into the entry of its user when avatars are returned.
/// Every avatar must have an entry to go into.
pub fn profile_response(req: &GetProfileRequest, profiles: Vec<Option<Profile>>, avatars: Vec<Option<Image>>) -> (r:
    GetProfileResponse)
    requires
        req.image_request_type == ProfileImageRequestType::ReturnAvatars ==> avatars@.len() <= if req.include_profile_data {
            profiles@.len()
        } else {
            0
        },
    ensures
        r.data@.len() == if req.include_profile_data {
            profiles@.len()
        } else {
            0
        },
        forall|i: int|
            0 <= i < r.data@.len() ==> #[trigger] r.data@[i]@ == profile_reply_entry(req@, profiles@, avatars@, i),
{
    let mut data = if req.include_profile_data {
        profile_entries(profiles)
    } else {
        Vec::new()
    };
    let give_avatars = match req.image_request_type {
        ProfileImageRequestType::ReturnAvatars => true,
        _ => false,
    };
    if give_avatars {
        attach_avatars(&mut data, avatars);
    }
    GetProfileResponse { data }
}

/// The profile request sent on to a remote server: one that asks it to save
/// avatars asks it to return them instead, and says so.
pub fn remote_profile_request(req: GetProfileRequest) -> (r: (GetProfileRequest, bool))
    ensures
        r.1 == (req.image_request_type == ProfileImageRequestType::SaveAvatars),
        r.0@ == (
            req@.0,
            req@.1,
            req@.2,
            if r.1 {
                ProfileImageRequestType::ReturnAvatars
            } else {
                req.image_request_type
            },
            req@.4,
        ),
{
    let mut req = req;
    let is_save = match req.image_request_type {
        ProfileImageRequestType::SaveAvatars => true,
        _ => false,
    };
    if is_save {
        req.image_request_type = ProfileImageRequestType::ReturnAvatars;
    }
    (req, is_save)
}

/// A remote profile reply with its avatars taken out to be saved: the reply
/// without avatars, and the avatar of each entry, in order.
pub fn strip_avatars(resp: GetProfileResponse) -> (r: (GetProfileResponse, Vec<Option<Image>>))
    ensures
        r.0.data@.len() == resp.data@.len(),
        r.1@.len() == resp.data@.len(),
        forall|i: int|
            0 <= i < resp.data@.len() ==> #[trigger] r.0.data@[i]@ == (None::<Seq<u8>>, resp.data@[i]@.1),
        forall|i: int|
            0 <= i < resp.data@.len() ==> #[trigger] r.1@[i] == resp.data@[i].0.0,
{
    let mut data = resp.data;
    let ghost orig = data@;
    let n = data.len();
    let mut rev: Vec<(SerOption<Image>, SerOption<ProfileData>)> = Vec::new();
    let mut rev_avatars: Vec<Option<Image>> = Vec::new();
    while data.len() > 0
        invariant
            data@ == orig.take(data@.len() as int),
            n == orig.len(),
            rev@.len() == n - data@.len(),
            rev_avatars@.len() == n - data@.len(),
            forall|k: int| 0 <= k < rev@.len() ==> #[trigger] rev@[k]@ == (None::<Seq<u8>>, orig[n - 1 - k]@.1),
            forall|k: int| 0 <= k < rev_avatars@.len() ==> #[trigger] rev_avatars@[k] == orig[n - 1 - k].0.0,
        decreases data@.len(),
    {
        let (avatar, profile) = data.pop().unwrap();
        assert((avatar, profile) == orig[data@.len() as int]);
        rev.push((SerOption(None), profile));
        rev_avatars.push(avatar.0);
        assert(data@ =~= orig.take(data@.len() as int));
    }
    let mut out: Vec<(SerOption<Image>, SerOption<ProfileData>)> = Vec::new();
    let mut avatars: Vec<Option<Image>> = Vec::new();
    while rev.len() > 0
        invariant
            n == orig.len(),
            out@.len() + rev@.len() == n,
            avatars@.len() == out@.len(),
            rev_avatars@.len() == rev@.len(),
            forall|k: int| 0 <= k < rev@.len() ==> #[trigger] rev@[k]@ == (None::<Seq<u8>>, orig[n - 1 - k]@.1),
            forall|k: int| 0 <= k < rev_avatars@.len() ==> #[trigger] rev_avatars@[k] == orig[n - 1 - k].0.0,
            forall|i: int| 0 <= i < out@.len() ==> #[trigger] out@[i]@ == (None::<Seq<u8>>, orig[i]@.1),
            forall|i: int| 0 <= i < avatars@.len() ==> #[trigger] avatars@[i] == orig[i].0.0,
        decreases rev@.len(),
    {
        let e = rev.pop().unwrap();
        let a = rev_avatars.pop().unwrap();
        out.push(e);
        avatars.push(a);
    }
    (GetProfileResponse { data: out }, avatars)
}

/// The file an image of a server or a user is kept in:
/// `{root_dir}/www/images/user_images/{kind}{server id}-{key}`, with the
/// identifier and the key in base58.
pub open spec fn spec_image_file_name(root_dir: Seq<char>, kind: Seq<char>, server_id: Seq<u8>, pubkey: Seq<u8>) -> Seq<char> {
    root_dir + "/www/images/user_images/"@ + kind + base58_text(server_id) + "-"@ + base58_text(pubkey)
}

/// The file an image of a server or a user is kept in, named by `kind`.
pub fn image_file_name(root_dir: &str, kind: &str, server_id: [u8; 8], pubkey: [u8; 32]) -> (res: Result<String, Error>)
    ensures
        res matches Ok(s) && s@ == spec_image_file_name(root_dir@, kind@, server_id@, pubkey@),
{
    let id = ServerId::from_bytes(server_id).to_base58()?;
    let key = Pubkey::from_bytes(pubkey).to_base58()?;
    let mut name = root_dir.to_owned();
    name.append("/www/images/user_images/");
    name.append(kind);
    name.append(id.as_str());
    name.append("-");
    name.append(key.as_str());
    Ok(name)
}

/// A server as the browser is shown it: its key and identifier as
/// percent-encoded base64, its name, and an icon, which is left empty.
#[derive(Debug)]
pub struct ServerInfoSerde {
    pub pubkey: String,
    pub server_id: String,
    pub name: String,
    pub icon: String,
}

impl From<ServerInfoReply> for ServerInfoSerde {
    fn from(si: ServerInfoReply) -> (s: ServerInfoSerde)
        ensures
            s.pubkey@ == percent_encode(encode_utf8(base64_text(si.pubkey@))),
            s.server_id@ == percent_encode(encode_utf8(base64_text(si.server_id@))),
            s.name@ == si.name@,
            s.icon@ == ""@,
    {
        let pubkey = match Pubkey::from_bytes(si.pubkey).to_urlencoding() {
            Ok(t) => t,
            Err(_) => String::new(),
        };
        let server_id = match ServerId::from_bytes(si.server_id).to_urlencoding() {
            Ok(t) => t,
            Err(_) => String::new(),
        };
        ServerInfoSerde { pubkey, server_id, name: si.name, icon: "".to_owned() }
    }
}

impl vstd::std_specs::convert::FromSpecImpl<ServerInfoReply> for ServerInfoSerde {
    open spec fn obeys_from_spec() -> bool {
        false
    }

    open spec fn from_spec(si: ServerInfoReply) -> ServerInfoSerde {
        arbitrary()
    }
}

} // verus!
