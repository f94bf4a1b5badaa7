//! Events: the envelope of every message of the protocol, and the body that
//! says which request or response it carries.

use crate::ser::{ReadError, Ser, lemma_from_pos_skip, lemma_skip_front};
use crate::protocol::{PROTOCOL_VERSION, AcceptInviteRequest, AcceptInviteResponse, AddChannelRequest, AddChannelResponse, AuthEvent, AuthResponse, ChallengeEvent, CreateInviteRequest, CreateInviteResponse, CreateServerEvent, DeleteChannelRequest, DeleteChannelResponse, DeleteInviteRequest, DeleteInviteResponse, DeleteServerEvent, GetChannelsRequest, GetChannelsResponse, GetMembersRequest, GetMembersResponse, GetProfileRequest, GetProfileResponse, GetServersEvent, GetServersResponse, JoinServerRequest, JoinServerResponse, ListInvitesRequest, ListInvitesResponse, ModifyChannelRequest, ModifyChannelResponse, ModifyInviteRequest, ModifyInviteResponse, ModifyServerEvent, SetProfileRequest, SetProfileResponse, ViewInviteRequest, ViewInviteResponse};
use crate::sys::{now_millis, random_u32};
use vstd::prelude::*;

verus! {

/// The body of an event: one of the requests and responses of the protocol.
#[derive(Debug)]
pub enum EventBody {
    AuthEvent(AuthEvent),
    ChallengeEvent(ChallengeEvent),
    AuthResponse(AuthResponse),
    GetServersEvent(GetServersEvent),
    GetServersResponse(GetServersResponse),
    CreateServerEvent(CreateServerEvent),
    DeleteServerEvent(DeleteServerEvent),
    ModifyServerEvent(ModifyServerEvent),
    GetChannelsRequest(GetChannelsRequest),
    GetChannelsResponse(GetChannelsResponse),
    AddChannelRequest(AddChannelRequest),
    DeleteChannelRequest(DeleteChannelRequest),
    ModifyChannelRequest(ModifyChannelRequest),
    AddChannelResponse(AddChannelResponse),
    DeleteChannelResponse(DeleteChannelResponse),
    ModifyChannelResponse(ModifyChannelResponse),
    GetMembersRequest(GetMembersRequest),
    GetMembersResponse(GetMembersResponse),
    CreateInviteRequest(CreateInviteRequest),
    CreateInviteResponse(CreateInviteResponse),
    ListInvitesRequest(ListInvitesRequest),
    ListInvitesResponse(ListInvitesResponse),
    ModifyInviteRequest(ModifyInviteRequest),
    ModifyInviteResponse(ModifyInviteResponse),
    DeleteInviteRequest(DeleteInviteRequest),
    DeleteInviteResponse(DeleteInviteResponse),
    ViewInviteRequest(ViewInviteRequest),
    ViewInviteResponse(ViewInviteResponse),
    AcceptInviteRequest(AcceptInviteRequest),
    AcceptInviteResponse(AcceptInviteResponse),
    JoinServerRequest(JoinServerRequest),
    JoinServerResponse(JoinServerResponse),
    GetProfileRequest(GetProfileRequest),
    GetProfileResponse(GetProfileResponse),
    SetProfileRequest(SetProfileRequest),
    SetProfileResponse(SetProfileResponse),
}

/// The model of an event body: which event it is, and the model of that event.
pub enum EventBodyModel {
    AuthEvent(<AuthEvent as View>::V),
    ChallengeEvent(<ChallengeEvent as View>::V),
    AuthResponse(<AuthResponse as View>::V),
    GetServersEvent(<GetServersEvent as View>::V),
    GetServersResponse(<GetServersResponse as View>::V),
    CreateServerEvent(<CreateServerEvent as View>::V),
    DeleteServerEvent(<DeleteServerEvent as View>::V),
    ModifyServerEvent(<ModifyServerEvent as View>::V),
    GetChannelsRequest(<GetChannelsRequest as View>::V),
    GetChannelsResponse(<GetChannelsResponse as View>::V),
    AddChannelRequest(<AddChannelRequest as View>::V),
    DeleteChannelRequest(<DeleteChannelRequest as View>::V),
    ModifyChannelRequest(<ModifyChannelRequest as View>::V),
    AddChannelResponse(<AddChannelResponse as View>::V),
    DeleteChannelResponse(<DeleteChannelResponse as View>::V),
    ModifyChannelResponse(<ModifyChannelResponse as View>::V),
    GetMembersRequest(<GetMembersRequest as View>::V),
    GetMembersResponse(<GetMembersResponse as View>::V),
    CreateInviteRequest(<CreateInviteRequest as View>::V),
    CreateInviteResponse(<CreateInviteResponse as View>::V),
    ListInvitesRequest(<ListInvitesRequest as View>::V),
    ListInvitesResponse(<ListInvitesResponse as View>::V),
    ModifyInviteRequest(<ModifyInviteRequest as View>::V),
    ModifyInviteResponse(<ModifyInviteResponse as View>::V),
    DeleteInviteRequest(<DeleteInviteRequest as View>::V),
    DeleteInviteResponse(<DeleteInviteResponse as View>::V),
    ViewInviteRequest(<ViewInviteRequest as View>::V),
    ViewInviteResponse(<ViewInviteResponse as View>::V),
    AcceptInviteRequest(<AcceptInviteRequest as View>::V),
    AcceptInviteResponse(<AcceptInviteResponse as View>::V),
    JoinServerRequest(<JoinServerRequest as View>::V),
    JoinServerResponse(<JoinServerResponse as View>::V),
    GetProfileRequest(<GetProfileRequest as View>::V),
    GetProfileResponse(<GetProfileResponse as View>::V),
    SetProfileRequest(<SetProfileRequest as View>::V),
    SetProfileResponse(<SetProfileResponse as View>::V),
}

/// The number that tags an event body of this kind on the wire.
pub open spec fn body_tag(v: EventBodyModel) -> u16 {
    match v {
        EventBodyModel::AuthEvent(_) => 0,
        EventBodyModel::ChallengeEvent(_) => 1,
        EventBodyModel::AuthResponse(_) => 2,
        EventBodyModel::GetServersEvent(_) => 3,
        EventBodyModel::GetServersResponse(_) => 4,
        EventBodyModel::CreateServerEvent(_) => 5,
        EventBodyModel::DeleteServerEvent(_) => 6,
        EventBodyModel::ModifyServerEvent(_) => 7,
        EventBodyModel::GetChannelsRequest(_) => 8,
        EventBodyModel::GetChannelsResponse(_) => 9,
        EventBodyModel::AddChannelRequest(_) => 14,
        EventBodyModel::DeleteChannelRequest(_) => 10,
        EventBodyModel::ModifyChannelRequest(_) => 12,
        EventBodyModel::AddChannelResponse(_) => 15,
        EventBodyModel::DeleteChannelResponse(_) => 11,
        EventBodyModel::ModifyChannelResponse(_) => 13,
        EventBodyModel::GetMembersRequest(_) => 16,
        EventBodyModel::GetMembersResponse(_) => 17,
        EventBodyModel::CreateInviteRequest(_) => 18,
        EventBodyModel::CreateInviteResponse(_) => 19,
        EventBodyModel::ListInvitesRequest(_) => 20,
        EventBodyModel::ListInvitesResponse(_) => 21,
        EventBodyModel::ModifyInviteRequest(_) => 22,
        EventBodyModel::ModifyInviteResponse(_) => 23,
        EventBodyModel::DeleteInviteRequest(_) => 24,
        EventBodyModel::DeleteInviteResponse(_) => 25,
        EventBodyModel::ViewInviteRequest(_) => 26,
        EventBodyModel::ViewInviteResponse(_) => 27,
        EventBodyModel::AcceptInviteRequest(_) => 28,
        EventBodyModel::AcceptInviteResponse(_) => 29,
        EventBodyModel::JoinServerRequest(_) => 30,
        EventBodyModel::JoinServerResponse(_) => 31,
        EventBodyModel::GetProfileRequest(_) => 32,
        EventBodyModel::GetProfileResponse(_) => 33,
        EventBodyModel::SetProfileRequest(_) => 34,
        EventBodyModel::SetProfileResponse(_) => 35,
    }
}

/// The bytes written for the event that an event body carries.
pub open spec fn body_payload(v: EventBodyModel) -> Seq<u8> {
    match v {
        EventBodyModel::AuthEvent(x) => <AuthEvent as Ser>::spec_write(x),
        EventBodyModel::ChallengeEvent(x) => <ChallengeEvent as Ser>::spec_write(x),
        EventBodyModel::AuthResponse(x) => <AuthResponse as Ser>::spec_write(x),
        EventBodyModel::GetServersEvent(x) => <GetServersEvent as Ser>::spec_write(x),
        EventBodyModel::GetServersResponse(x) => <GetServersResponse as Ser>::spec_write(x),
        EventBodyModel::CreateServerEvent(x) => <CreateServerEvent as Ser>::spec_write(x),
        EventBodyModel::DeleteServerEvent(x) => <DeleteServerEvent as Ser>::spec_write(x),
        EventBodyModel::ModifyServerEvent(x) => <ModifyServerEvent as Ser>::spec_write(x),
        EventBodyModel::GetChannelsRequest(x) => <GetChannelsRequest as Ser>::spec_write(x),
        EventBodyModel::GetChannelsResponse(x) => <GetChannelsResponse as Ser>::spec_write(x),
        EventBodyModel::AddChannelRequest(x) => <AddChannelRequest as Ser>::spec_write(x),
        EventBodyModel::DeleteChannelRequest(x) => <DeleteChannelRequest as Ser>::spec_write(x),
        EventBodyModel::ModifyChannelRequest(x) => <ModifyChannelRequest as Ser>::spec_write(x),
        EventBodyModel::AddChannelResponse(x) => <AddChannelResponse as Ser>::spec_write(x),
        EventBodyModel::DeleteChannelResponse(x) => <DeleteChannelResponse as Ser>::spec_write(x),
        EventBodyModel::ModifyChannelResponse(x) => <ModifyChannelResponse as Ser>::spec_write(x),
        EventBodyModel::GetMembersRequest(x) => <GetMembersRequest as Ser>::spec_write(x),
        EventBodyModel::GetMembersResponse(x) => <GetMembersResponse as Ser>::spec_write(x),
        EventBodyModel::CreateInviteRequest(x) => <CreateInviteRequest as Ser>::spec_write(x),
        EventBodyModel::CreateInviteResponse(x) => <CreateInviteResponse as Ser>::spec_write(x),
        EventBodyModel::ListInvitesRequest(x) => <ListInvitesRequest as Ser>::spec_write(x),
        EventBodyModel::ListInvitesResponse(x) => <ListInvitesResponse as Ser>::spec_write(x),
        EventBodyModel::ModifyInviteRequest(x) => <ModifyInviteRequest as Ser>::spec_write(x),
        EventBodyModel::ModifyInviteResponse(x) => <ModifyInviteResponse as Ser>::spec_write(x),
        EventBodyModel::DeleteInviteRequest(x) => <DeleteInviteRequest as Ser>::spec_write(x),
        EventBodyModel::DeleteInviteResponse(x) => <DeleteInviteResponse as Ser>::spec_write(x),
        EventBodyModel::ViewInviteRequest(x) => <ViewInviteRequest as Ser>::spec_write(x),
        EventBodyModel::ViewInviteResponse(x) => <ViewInviteResponse as Ser>::spec_write(x),
        EventBodyModel::AcceptInviteRequest(x) => <AcceptInviteRequest as Ser>::spec_write(x),
        EventBodyModel::AcceptInviteResponse(x) => <AcceptInviteResponse as Ser>::spec_write(x),
        EventBodyModel::JoinServerRequest(x) => <JoinServerRequest as Ser>::spec_write(x),
        EventBodyModel::JoinServerResponse(x) => <JoinServerResponse as Ser>::spec_write(x),
        EventBodyModel::GetProfileRequest(x) => <GetProfileRequest as Ser>::spec_write(x),
        EventBodyModel::GetProfileResponse(x) => <GetProfileResponse as Ser>::spec_write(x),
        EventBodyModel::SetProfileRequest(x) => <SetProfileRequest as Ser>::spec_write(x),
        EventBodyModel::SetProfileResponse(x) => <SetProfileResponse as Ser>::spec_write(x),
    }
}

/// What is read from `s` as the event of the kind tagged `t`.
pub open spec fn spec_read_payload(t: u16, s: Seq<u8>) -> Result<(EventBodyModel, nat), ReadError> {
    match t {
        0 => match <AuthEvent as Ser>::spec_read(s) {
            Err(e) => Err(e),
            Ok((x, m)) => Ok((EventBodyModel::AuthEvent(x), m)),
        },
        1 => match <ChallengeEvent as Ser>::spec_read(s) {
            Err(e) => Err(e),
            Ok((x, m)) => Ok((EventBodyModel::ChallengeEvent(x), m)),
        },
        2 => match <AuthResponse as Ser>::spec_read(s) {
            Err(e) => Err(e),
            Ok((x, m)) => Ok((EventBodyModel::AuthResponse(x), m)),
        },
        3 => match <GetServersEvent as Ser>::spec_read(s) {
            Err(e) => Err(e),
            Ok((x, m)) => Ok((EventBodyModel::GetServersEvent(x), m)),
        },
        4 => match <GetServersResponse as Ser>::spec_read(s) {
            Err(e) => Err(e),
            Ok((x, m)) => Ok((EventBodyModel::GetServersResponse(x), m)),
        },
        5 => match <CreateServerEvent as Ser>::spec_read(s) {
            Err(e) => Err(e),
            Ok((x, m)) => Ok((EventBodyModel::CreateServerEvent(x), m)),
        },
        6 => match <DeleteServerEvent as Ser>::spec_read(s) {
            Err(e) => Err(e),
            Ok((x, m)) => Ok((EventBodyModel::DeleteServerEvent(x), m)),
        },
        7 => match <ModifyServerEvent as Ser>::spec_read(s) {
            Err(e) => Err(e),
            Ok((x, m)) => Ok((EventBodyModel::ModifyServerEvent(x), m)),
        },
        8 => match <GetChannelsRequest as Ser>::spec_read(s) {
            Err(e) => Err(e),
            Ok((x, m)) => Ok((EventBodyModel::GetChannelsRequest(x), m)),
        },
        9 => match <GetChannelsResponse as Ser>::spec_read(s) {
            Err(e) => Err(e),
            Ok((x, m)) => Ok((EventBodyModel::GetChannelsResponse(x), m)),
        },
        10 => match <DeleteChannelRequest as Ser>::spec_read(s) {
            Err(e) => Err(e),
            Ok((x, m)) => Ok((EventBodyModel::DeleteChannelRequest(x), m)),
        },
        11 => match <DeleteChannelResponse as Ser>::spec_read(s) {
            Err(e) => Err(e),
            Ok((x, m)) => Ok((EventBodyModel::DeleteChannelResponse(x), m)),
        },
        12 => match <ModifyChannelRequest as Ser>::spec_read(s) {
            Err(e) => Err(e),
            Ok((x, m)) => Ok((EventBodyModel::ModifyChannelRequest(x), m)),
        },
        13 => match <ModifyChannelResponse as Ser>::spec_read(s) {
            Err(e) => Err(e),
            Ok((x, m)) => Ok((EventBodyModel::ModifyChannelResponse(x), m)),
        },
        14 => match <AddChannelRequest as Ser>::spec_read(s) {
            Err(e) => Err(e),
            Ok((x, m)) => Ok((EventBodyModel::AddChannelRequest(x), m)),
        },
        15 => match <AddChannelResponse as Ser>::spec_read(s) {
            Err(e) => Err(e),
            Ok((x, m)) => Ok((EventBodyModel::AddChannelResponse(x), m)),
        },
        16 => match <GetMembersRequest as Ser>::spec_read(s) {
            Err(e) => Err(e),
            Ok((x, m)) => Ok((EventBodyModel::GetMembersRequest(x), m)),
        },
        17 => match <GetMembersResponse as Ser>::spec_read(s) {
            Err(e) => Err(e),
            Ok((x, m)) => Ok((EventBodyModel::GetMembersResponse(x), m)),
        },
        18 => match <CreateInviteRequest as Ser>::spec_read(s) {
            Err(e) => Err(e),
            Ok((x, m)) => Ok((EventBodyModel::CreateInviteRequest(x), m)),
        },
        19 => match <CreateInviteResponse as Ser>::spec_read(s) {
            Err(e) => Err(e),
            Ok((x, m)) => Ok((EventBodyModel::CreateInviteResponse(x), m)),
        },
        20 => match <ListInvitesRequest as Ser>::spec_read(s) {
            Err(e) => Err(e),
            Ok((x, m)) => Ok((EventBodyModel::ListInvitesRequest(x), m)),
        },
        21 => match <ListInvitesResponse as Ser>::spec_read(s) {
            Err(e) => Err(e),
            Ok((x, m)) => Ok((EventBodyModel::ListInvitesResponse(x), m)),
        },
        22 => match <ModifyInviteRequest as Ser>::spec_read(s) {
            Err(e) => Err(e),
            Ok((x, m)) => Ok((EventBodyModel::ModifyInviteRequest(x), m)),
        },
        23 => match <ModifyInviteResponse as Ser>::spec_read(s) {
            Err(e) => Err(e),
            Ok((x, m)) => Ok((EventBodyModel::ModifyInviteResponse(x), m)),
        },
        24 => match <DeleteInviteRequest as Ser>::spec_read(s) {
            Err(e) => Err(e),
            Ok((x, m)) => Ok((EventBodyModel::DeleteInviteRequest(x), m)),
        },
        25 => match <DeleteInviteResponse as Ser>::spec_read(s) {
            Err(e) => Err(e),
            Ok((x, m)) => Ok((EventBodyModel::DeleteInviteResponse(x), m)),
        },
        26 => match <ViewInviteRequest as Ser>::spec_read(s) {
            Err(e) => Err(e),
            Ok((x, m)) => Ok((EventBodyModel::ViewInviteRequest(x), m)),
        },
        27 => match <ViewInviteResponse as Ser>::spec_read(s) {
            Err(e) => Err(e),
            Ok((x, m)) => Ok((EventBodyModel::ViewInviteResponse(x), m)),
        },
        28 => match <AcceptInviteRequest as Ser>::spec_read(s) {
            Err(e) => Err(e),
            Ok((x, m)) => Ok((EventBodyModel::AcceptInviteRequest(x), m)),
        },
        29 => match <AcceptInviteResponse as Ser>::spec_read(s) {
            Err(e) => Err(e),
            Ok((x, m)) => Ok((EventBodyModel::AcceptInviteResponse(x), m)),
        },
        30 => match <JoinServerRequest as Ser>::spec_read(s) {
            Err(e) => Err(e),
            Ok((x, m)) => Ok((EventBodyModel::JoinServerRequest(x), m)),
        },
        31 => match <JoinServerResponse as Ser>::spec_read(s) {
            Err(e) => Err(e),
            Ok((x, m)) => Ok((EventBodyModel::JoinServerResponse(x), m)),
        },
        32 => match <GetProfileRequest as Ser>::spec_read(s) {
            Err(e) => Err(e),
            Ok((x, m)) => Ok((EventBodyModel::GetProfileRequest(x), m)),
        },
        33 => match <GetProfileResponse as Ser>::spec_read(s) {
            Err(e) => Err(e),
            Ok((x, m)) => Ok((EventBodyModel::GetProfileResponse(x), m)),
        },
        34 => match <SetProfileRequest as Ser>::spec_read(s) {
            Err(e) => Err(e),
            Ok((x, m)) => Ok((EventBodyModel::SetProfileRequest(x), m)),
        },
        35 => match <SetProfileResponse as Ser>::spec_read(s) {
            Err(e) => Err(e),
            Ok((x, m)) => Ok((EventBodyModel::SetProfileResponse(x), m)),
        },
        _ => Err(ReadError::UnknownEventType),
    }
}

impl View for EventBody {
    type V = EventBodyModel;

    open spec fn view(&self) -> EventBodyModel {
        match self {
            EventBody::AuthEvent(e) => EventBodyModel::AuthEvent(e@),
            EventBody::ChallengeEvent(e) => EventBodyModel::ChallengeEvent(e@),
            EventBody::AuthResponse(e) => EventBodyModel::AuthResponse(e@),
            EventBody::GetServersEvent(e) => EventBodyModel::GetServersEvent(e@),
            EventBody::GetServersResponse(e) => EventBodyModel::GetServersResponse(e@),
            EventBody::CreateServerEvent(e) => EventBodyModel::CreateServerEvent(e@),
            EventBody::DeleteServerEvent(e) => EventBodyModel::DeleteServerEvent(e@),
            EventBody::ModifyServerEvent(e) => EventBodyModel::ModifyServerEvent(e@),
            EventBody::GetChannelsRequest(e) => EventBodyModel::GetChannelsRequest(e@),
            EventBody::GetChannelsResponse(e) => EventBodyModel::GetChannelsResponse(e@),
            EventBody::AddChannelRequest(e) => EventBodyModel::AddChannelRequest(e@),
            EventBody::DeleteChannelRequest(e) => EventBodyModel::DeleteChannelRequest(e@),
            EventBody::ModifyChannelRequest(e) => EventBodyModel::ModifyChannelRequest(e@),
            EventBody::AddChannelResponse(e) => EventBodyModel::AddChannelResponse(e@),
            EventBody::DeleteChannelResponse(e) => EventBodyModel::DeleteChannelResponse(e@),
            EventBody::ModifyChannelResponse(e) => EventBodyModel::ModifyChannelResponse(e@),
            EventBody::GetMembersRequest(e) => EventBodyModel::GetMembersRequest(e@),
            EventBody::GetMembersResponse(e) => EventBodyModel::GetMembersResponse(e@),
            EventBody::CreateInviteRequest(e) => EventBodyModel::CreateInviteRequest(e@),
            EventBody::CreateInviteResponse(e) => EventBodyModel::CreateInviteResponse(e@),
            EventBody::ListInvitesRequest(e) => EventBodyModel::ListInvitesRequest(e@),
            EventBody::ListInvitesResponse(e) => EventBodyModel::ListInvitesResponse(e@),
            EventBody::ModifyInviteRequest(e) => EventBodyModel::ModifyInviteRequest(e@),
            EventBody::ModifyInviteResponse(e) => EventBodyModel::ModifyInviteResponse(e@),
            EventBody::DeleteInviteRequest(e) => EventBodyModel::DeleteInviteRequest(e@),
            EventBody::DeleteInviteResponse(e) => EventBodyModel::DeleteInviteResponse(e@),
            EventBody::ViewInviteRequest(e) => EventBodyModel::ViewInviteRequest(e@),
            EventBody::ViewInviteResponse(e) => EventBodyModel::ViewInviteResponse(e@),
            EventBody::AcceptInviteRequest(e) => EventBodyModel::AcceptInviteRequest(e@),
            EventBody::AcceptInviteResponse(e) => EventBodyModel::AcceptInviteResponse(e@),
            EventBody::JoinServerRequest(e) => EventBodyModel::JoinServerRequest(e@),
            EventBody::JoinServerResponse(e) => EventBodyModel::JoinServerResponse(e@),
            EventBody::GetProfileRequest(e) => EventBodyModel::GetProfileRequest(e@),
            EventBody::GetProfileResponse(e) => EventBodyModel::GetProfileResponse(e@),
            EventBody::SetProfileRequest(e) => EventBodyModel::SetProfileRequest(e@),
            EventBody::SetProfileResponse(e) => EventBodyModel::SetProfileResponse(e@),
        }
    }
}

impl Ser for EventBody {
    open spec fn spec_write(v: EventBodyModel) -> Seq<u8> {
        <u16 as Ser>::spec_write(body_tag(v)) + body_payload(v)
    }

    open spec fn spec_read(s: Seq<u8>) -> Result<(EventBodyModel, nat), ReadError> {
        match <u16 as Ser>::spec_read(s) {
            Err(e) => Err(e),
            Ok((t, n)) => match spec_read_payload(t, s.skip(n as int)) {
                Err(e) => Err(e),
                Ok((v, m)) => Ok((v, n + m)),
            },
        }
    }

    open spec fn spec_wf(v: EventBodyModel) -> bool {
        match v {
            EventBodyModel::AuthEvent(x) => <AuthEvent as Ser>::spec_wf(x),
            EventBodyModel::ChallengeEvent(x) => <ChallengeEvent as Ser>::spec_wf(x),
            EventBodyModel::AuthResponse(x) => <AuthResponse as Ser>::spec_wf(x),
            EventBodyModel::GetServersEvent(x) => <GetServersEvent as Ser>::spec_wf(x),
            EventBodyModel::GetServersResponse(x) => <GetServersResponse as Ser>::spec_wf(x),
            EventBodyModel::CreateServerEvent(x) => <CreateServerEvent as Ser>::spec_wf(x),
            EventBodyModel::DeleteServerEvent(x) => <DeleteServerEvent as Ser>::spec_wf(x),
            EventBodyModel::ModifyServerEvent(x) => <ModifyServerEvent as Ser>::spec_wf(x),
            EventBodyModel::GetChannelsRequest(x) => <GetChannelsRequest as Ser>::spec_wf(x),
            EventBodyModel::GetChannelsResponse(x) => <GetChannelsResponse as Ser>::spec_wf(x),
            EventBodyModel::AddChannelRequest(x) => <AddChannelRequest as Ser>::spec_wf(x),
            EventBodyModel::DeleteChannelRequest(x) => <DeleteChannelRequest as Ser>::spec_wf(x),
            EventBodyModel::ModifyChannelRequest(x) => <ModifyChannelRequest as Ser>::spec_wf(x),
            EventBodyModel::AddChannelResponse(x) => <AddChannelResponse as Ser>::spec_wf(x),
            EventBodyModel::DeleteChannelResponse(x) => <DeleteChannelResponse as Ser>::spec_wf(x),
            EventBodyModel::ModifyChannelResponse(x) => <ModifyChannelResponse as Ser>::spec_wf(x),
            EventBodyModel::GetMembersRequest(x) => <GetMembersRequest as Ser>::spec_wf(x),
            EventBodyModel::GetMembersResponse(x) => <GetMembersResponse as Ser>::spec_wf(x),
            EventBodyModel::CreateInviteRequest(x) => <CreateInviteRequest as Ser>::spec_wf(x),
            EventBodyModel::CreateInviteResponse(x) => <CreateInviteResponse as Ser>::spec_wf(x),
            EventBodyModel::ListInvitesRequest(x) => <ListInvitesRequest as Ser>::spec_wf(x),
            EventBodyModel::ListInvitesResponse(x) => <ListInvitesResponse as Ser>::spec_wf(x),
            EventBodyModel::ModifyInviteRequest(x) => <ModifyInviteRequest as Ser>::spec_wf(x),
            EventBodyModel::ModifyInviteResponse(x) => <ModifyInviteResponse as Ser>::spec_wf(x),
            EventBodyModel::DeleteInviteRequest(x) => <DeleteInviteRequest as Ser>::spec_wf(x),
            EventBodyModel::DeleteInviteResponse(x) => <DeleteInviteResponse as Ser>::spec_wf(x),
            EventBodyModel::ViewInviteRequest(x) => <ViewInviteRequest as Ser>::spec_wf(x),
            EventBodyModel::ViewInviteResponse(x) => <ViewInviteResponse as Ser>::spec_wf(x),
            EventBodyModel::AcceptInviteRequest(x) => <AcceptInviteRequest as Ser>::spec_wf(x),
            EventBodyModel::AcceptInviteResponse(x) => <AcceptInviteResponse as Ser>::spec_wf(x),
            EventBodyModel::JoinServerRequest(x) => <JoinServerRequest as Ser>::spec_wf(x),
            EventBodyModel::JoinServerResponse(x) => <JoinServerResponse as Ser>::spec_wf(x),
            EventBodyModel::GetProfileRequest(x) => <GetProfileRequest as Ser>::spec_wf(x),
            EventBodyModel::GetProfileResponse(x) => <GetProfileResponse as Ser>::spec_wf(x),
            EventBodyModel::SetProfileRequest(x) => <SetProfileRequest as Ser>::spec_wf(x),
            EventBodyModel::SetProfileResponse(x) => <SetProfileResponse as Ser>::spec_wf(x),
        }
    }

    proof fn lemma_write_read(v: EventBodyModel, rest: Seq<u8>) {
        let e = <u16 as Ser>::spec_write(body_tag(v));
        let b = body_payload(v);
        assert(Self::spec_write(v) + rest =~= e + (b + rest));
        <u16 as Ser>::lemma_write_read(body_tag(v), b + rest);
        lemma_skip_front(e, b + rest);
        match v {
            EventBodyModel::AuthEvent(x) => <AuthEvent as Ser>::lemma_write_read(x, rest),
            EventBodyModel::ChallengeEvent(x) => <ChallengeEvent as Ser>::lemma_write_read(x, rest),
            EventBodyModel::AuthResponse(x) => <AuthResponse as Ser>::lemma_write_read(x, rest),
            EventBodyModel::GetServersEvent(x) => <GetServersEvent as Ser>::lemma_write_read(x, rest),
            EventBodyModel::GetServersResponse(x) => <GetServersResponse as Ser>::lemma_write_read(x, rest),
            EventBodyModel::CreateServerEvent(x) => <CreateServerEvent as Ser>::lemma_write_read(x, rest),
            EventBodyModel::DeleteServerEvent(x) => <DeleteServerEvent as Ser>::lemma_write_read(x, rest),
            EventBodyModel::ModifyServerEvent(x) => <ModifyServerEvent as Ser>::lemma_write_read(x, rest),
            EventBodyModel::GetChannelsRequest(x) => <GetChannelsRequest as Ser>::lemma_write_read(x, rest),
            EventBodyModel::GetChannelsResponse(x) => <GetChannelsResponse as Ser>::lemma_write_read(x, rest),
            EventBodyModel::AddChannelRequest(x) => <AddChannelRequest as Ser>::lemma_write_read(x, rest),
            EventBodyModel::DeleteChannelRequest(x) => <DeleteChannelRequest as Ser>::lemma_write_read(x, rest),
            EventBodyModel::ModifyChannelRequest(x) => <ModifyChannelRequest as Ser>::lemma_write_read(x, rest),
            EventBodyModel::AddChannelResponse(x) => <AddChannelResponse as Ser>::lemma_write_read(x, rest),
            EventBodyModel::DeleteChannelResponse(x) => <DeleteChannelResponse as Ser>::lemma_write_read(x, rest),
            EventBodyModel::ModifyChannelResponse(x) => <ModifyChannelResponse as Ser>::lemma_write_read(x, rest),
            EventBodyModel::GetMembersRequest(x) => <GetMembersRequest as Ser>::lemma_write_read(x, rest),
            EventBodyModel::GetMembersResponse(x) => <GetMembersResponse as Ser>::lemma_write_read(x, rest),
            EventBodyModel::CreateInviteRequest(x) => <CreateInviteRequest as Ser>::lemma_write_read(x, rest),
            EventBodyModel::CreateInviteResponse(x) => <CreateInviteResponse as Ser>::lemma_write_read(x, rest),
            EventBodyModel::ListInvitesRequest(x) => <ListInvitesRequest as Ser>::lemma_write_read(x, rest),
            EventBodyModel::ListInvitesResponse(x) => <ListInvitesResponse as Ser>::lemma_write_read(x, rest),
            EventBodyModel::ModifyInviteRequest(x) => <ModifyInviteRequest as Ser>::lemma_write_read(x, rest),
            EventBodyModel::ModifyInviteResponse(x) => <ModifyInviteResponse as Ser>::lemma_write_read(x, rest),
            EventBodyModel::DeleteInviteRequest(x) => <DeleteInviteRequest as Ser>::lemma_write_read(x, rest),
            EventBodyModel::DeleteInviteResponse(x) => <DeleteInviteResponse as Ser>::lemma_write_read(x, rest),
            EventBodyModel::ViewInviteRequest(x) => <ViewInviteRequest as Ser>::lemma_write_read(x, rest),
            EventBodyModel::ViewInviteResponse(x) => <ViewInviteResponse as Ser>::lemma_write_read(x, rest),
            EventBodyModel::AcceptInviteRequest(x) => <AcceptInviteRequest as Ser>::lemma_write_read(x, rest),
            EventBodyModel::AcceptInviteResponse(x) => <AcceptInviteResponse as Ser>::lemma_write_read(x, rest),
            EventBodyModel::JoinServerRequest(x) => <JoinServerRequest as Ser>::lemma_write_read(x, rest),
            EventBodyModel::JoinServerResponse(x) => <JoinServerResponse as Ser>::lemma_write_read(x, rest),
            EventBodyModel::GetProfileRequest(x) => <GetProfileRequest as Ser>::lemma_write_read(x, rest),
            EventBodyModel::GetProfileResponse(x) => <GetProfileResponse as Ser>::lemma_write_read(x, rest),
            EventBodyModel::SetProfileRequest(x) => <SetProfileRequest as Ser>::lemma_write_read(x, rest),
            EventBodyModel::SetProfileResponse(x) => <SetProfileResponse as Ser>::lemma_write_read(x, rest),
        }
    }

    fn write(&self, out: &mut Vec<u8>) {
        let ghost start = out@;
        match self {
            EventBody::AuthEvent(e) => {
                0u16.write(out);
                e.write(out);
            },
            EventBody::ChallengeEvent(e) => {
                1u16.write(out);
                e.write(out);
            },
            EventBody::AuthResponse(e) => {
                2u16.write(out);
                e.write(out);
            },
            EventBody::GetServersEvent(e) => {
                3u16.write(out);
                e.write(out);
            },
            EventBody::GetServersResponse(e) => {
                4u16.write(out);
                e.write(out);
            },
            EventBody::CreateServerEvent(e) => {
                5u16.write(out);
                e.write(out);
            },
            EventBody::DeleteServerEvent(e) => {
                6u16.write(out);
                e.write(out);
            },
            EventBody::ModifyServerEvent(e) => {
                7u16.write(out);
                e.write(out);
            },
            EventBody::GetChannelsRequest(e) => {
                8u16.write(out);
                e.write(out);
            },
            EventBody::GetChannelsResponse(e) => {
                9u16.write(out);
                e.write(out);
            },
            EventBody::AddChannelRequest(e) => {
                14u16.write(out);
                e.write(out);
            },
            EventBody::DeleteChannelRequest(e) => {
                10u16.write(out);
                e.write(out);
            },
            EventBody::ModifyChannelRequest(e) => {
                12u16.write(out);
                e.write(out);
            },
            EventBody::AddChannelResponse(e) => {
                15u16.write(out);
                e.write(out);
            },
            EventBody::DeleteChannelResponse(e) => {
                11u16.write(out);
                e.write(out);
            },
            EventBody::ModifyChannelResponse(e) => {
                13u16.write(out);
                e.write(out);
            },
            EventBody::GetMembersRequest(e) => {
                16u16.write(out);
                e.write(out);
            },
            EventBody::GetMembersResponse(e) => {
                17u16.write(out);
                e.write(out);
            },
            EventBody::CreateInviteRequest(e) => {
                18u16.write(out);
                e.write(out);
            },
            EventBody::CreateInviteResponse(e) => {
                19u16.write(out);
                e.write(out);
            },
            EventBody::ListInvitesRequest(e) => {
                20u16.write(out);
                e.write(out);
            },
            EventBody::ListInvitesResponse(e) => {
                21u16.write(out);
                e.write(out);
            },
            EventBody::ModifyInviteRequest(e) => {
                22u16.write(out);
                e.write(out);
            },
            EventBody::ModifyInviteResponse(e) => {
                23u16.write(out);
                e.write(out);
            },
            EventBody::DeleteInviteRequest(e) => {
                24u16.write(out);
                e.write(out);
            },
            EventBody::DeleteInviteResponse(e) => {
                25u16.write(out);
                e.write(out);
            },
            EventBody::ViewInviteRequest(e) => {
                26u16.write(out);
                e.write(out);
            },
            EventBody::ViewInviteResponse(e) => {
                27u16.write(out);
                e.write(out);
            },
            EventBody::AcceptInviteRequest(e) => {
                28u16.write(out);
                e.write(out);
            },
            EventBody::AcceptInviteResponse(e) => {
                29u16.write(out);
                e.write(out);
            },
            EventBody::JoinServerRequest(e) => {
                30u16.write(out);
                e.write(out);
            },
            EventBody::JoinServerResponse(e) => {
                31u16.write(out);
                e.write(out);
            },
            EventBody::GetProfileRequest(e) => {
                32u16.write(out);
                e.write(out);
            },
            EventBody::GetProfileResponse(e) => {
                33u16.write(out);
                e.write(out);
            },
            EventBody::SetProfileRequest(e) => {
                34u16.write(out);
                e.write(out);
            },
            EventBody::SetProfileResponse(e) => {
                35u16.write(out);
                e.write(out);
            },
        }
        assert(out@ =~= start + Self::spec_write(self@));
    }

    fn read(buf: &[u8], pos: usize) -> (res: Result<(EventBody, usize), ReadError>) {
        let (t, p) = <u16 as Ser>::read(buf, pos)?;
        proof {
            lemma_from_pos_skip(buf@, pos as int, p as int);
        }
        match t {
            0 => {
                let (x, q) = AuthEvent::read(buf, p)?;
                Ok((EventBody::AuthEvent(x), q))
            },
            1 => {
                let (x, q) = ChallengeEvent::read(buf, p)?;
                Ok((EventBody::ChallengeEvent(x), q))
            },
            2 => {
                let (x, q) = AuthResponse::read(buf, p)?;
                Ok((EventBody::AuthResponse(x), q))
            },
            3 => {
                let (x, q) = GetServersEvent::read(buf, p)?;
                Ok((EventBody::GetServersEvent(x), q))
            },
            4 => {
                let (x, q) = GetServersResponse::read(buf, p)?;
                Ok((EventBody::GetServersResponse(x), q))
            },
            5 => {
                let (x, q) = CreateServerEvent::read(buf, p)?;
                Ok((EventBody::CreateServerEvent(x), q))
            },
            6 => {
                let (x, q) = DeleteServerEvent::read(buf, p)?;
                Ok((EventBody::DeleteServerEvent(x), q))
            },
            7 => {
                let (x, q) = ModifyServerEvent::read(buf, p)?;
                Ok((EventBody::ModifyServerEvent(x), q))
            },
            8 => {
                let (x, q) = GetChannelsRequest::read(buf, p)?;
                Ok((EventBody::GetChannelsRequest(x), q))
            },
            9 => {
                let (x, q) = GetChannelsResponse::read(buf, p)?;
                Ok((EventBody::GetChannelsResponse(x), q))
            },
            10 => {
                let (x, q) = DeleteChannelRequest::read(buf, p)?;
                Ok((EventBody::DeleteChannelRequest(x), q))
            },
            11 => {
                let (x, q) = DeleteChannelResponse::read(buf, p)?;
                Ok((EventBody::DeleteChannelResponse(x), q))
            },
            12 => {
                let (x, q) = ModifyChannelRequest::read(buf, p)?;
                Ok((EventBody::ModifyChannelRequest(x), q))
            },
            13 => {
                let (x, q) = ModifyChannelResponse::read(buf, p)?;
                Ok((EventBody::ModifyChannelResponse(x), q))
            },
            14 => {
                let (x, q) = AddChannelRequest::read(buf, p)?;
                Ok((EventBody::AddChannelRequest(x), q))
            },
            15 => {
                let (x, q) = AddChannelResponse::read(buf, p)?;
                Ok((EventBody::AddChannelResponse(x), q))
            },
            16 => {
                let (x, q) = GetMembersRequest::read(buf, p)?;
                Ok((EventBody::GetMembersRequest(x), q))
            },
            17 => {
                let (x, q) = GetMembersResponse::read(buf, p)?;
                Ok((EventBody::GetMembersResponse(x), q))
            },
            18 => {
                let (x, q) = CreateInviteRequest::read(buf, p)?;
                Ok((EventBody::CreateInviteRequest(x), q))
            },
            19 => {
                let (x, q) = CreateInviteResponse::read(buf, p)?;
                Ok((EventBody::CreateInviteResponse(x), q))
            },
            20 => {
                let (x, q) = ListInvitesRequest::read(buf, p)?;
                Ok((EventBody::ListInvitesRequest(x), q))
            },
            21 => {
                let (x, q) = ListInvitesResponse::read(buf, p)?;
                Ok((EventBody::ListInvitesResponse(x), q))
            },
            22 => {
                let (x, q) = ModifyInviteRequest::read(buf, p)?;
                Ok((EventBody::ModifyInviteRequest(x), q))
            },
            23 => {
                let (x, q) = ModifyInviteResponse::read(buf, p)?;
                Ok((EventBody::ModifyInviteResponse(x), q))
            },
            24 => {
                let (x, q) = DeleteInviteRequest::read(buf, p)?;
                Ok((EventBody::DeleteInviteRequest(x), q))
            },
            25 => {
                let (x, q) = DeleteInviteResponse::read(buf, p)?;
                Ok((EventBody::DeleteInviteResponse(x), q))
            },
            26 => {
                let (x, q) = ViewInviteRequest::read(buf, p)?;
                Ok((EventBody::ViewInviteRequest(x), q))
            },
            27 => {
                let (x, q) = ViewInviteResponse::read(buf, p)?;
                Ok((EventBody::ViewInviteResponse(x), q))
            },
            28 => {
                let (x, q) = AcceptInviteRequest::read(buf, p)?;
                Ok((EventBody::AcceptInviteRequest(x), q))
            },
            29 => {
                let (x, q) = AcceptInviteResponse::read(buf, p)?;
                Ok((EventBody::AcceptInviteResponse(x), q))
            },
            30 => {
                let (x, q) = JoinServerRequest::read(buf, p)?;
                Ok((EventBody::JoinServerRequest(x), q))
            },
            31 => {
                let (x, q) = JoinServerResponse::read(buf, p)?;
                Ok((EventBody::JoinServerResponse(x), q))
            },
            32 => {
                let (x, q) = GetProfileRequest::read(buf, p)?;
                Ok((EventBody::GetProfileRequest(x), q))
            },
            33 => {
                let (x, q) = GetProfileResponse::read(buf, p)?;
                Ok((EventBody::GetProfileResponse(x), q))
            },
            34 => {
                let (x, q) = SetProfileRequest::read(buf, p)?;
                Ok((EventBody::SetProfileRequest(x), q))
            },
            35 => {
                let (x, q) = SetProfileResponse::read(buf, p)?;
                Ok((EventBody::SetProfileResponse(x), q))
            },
            _ => Err(ReadError::UnknownEventType),
        }
    }
}


/// An event: the protocol version, when it was made (milliseconds since the
/// Unix epoch), the request it answers or opens, and its body.
#[derive(Debug)]
pub struct Event {
    pub body: EventBody,
    pub version: u8,
    pub timestamp: u128,
    pub request_id: u32,
}

impl View for Event {
    type V = (<EventBody as View>::V, u8, u128, u32);

    open spec fn view(&self) -> (<EventBody as View>::V, u8, u128, u32) {
        (self.body@, self.version, self.timestamp, self.request_id)
    }
}

impl Ser for Event {
    open spec fn spec_write(v: (<EventBody as View>::V, u8, u128, u32)) -> Seq<u8> {
        <u8 as Ser>::spec_write(v.1) + <u128 as Ser>::spec_write(v.2) + <u32 as Ser>::spec_write(v.3) + <EventBody as Ser>::spec_write(v.0)
    }

    open spec fn spec_read(s: Seq<u8>) -> Result<((<EventBody as View>::V, u8, u128, u32), nat), ReadError> {
        match <u8 as Ser>::spec_read(s) {
            Err(e) => Err(e),
            Ok((version, n1)) => {
                let s1 = s.skip(n1 as int);
                match <u128 as Ser>::spec_read(s1) {
                    Err(e) => Err(e),
                    Ok((timestamp, n2)) => {
                        let s2 = s1.skip(n2 as int);
                        match <u32 as Ser>::spec_read(s2) {
                            Err(e) => Err(e),
                            Ok((request_id, n3)) => {
                                let s3 = s2.skip(n3 as int);
                                match <EventBody as Ser>::spec_read(s3) {
                                    Err(e) => Err(e),
                                    Ok((body, n4)) => {
                                        Ok(((body, version, timestamp, request_id), n1 + n2 + n3 + n4))
                                    },
                                }
                            },
                        }
                    },
                }
            },
        }
    }

    open spec fn spec_wf(v: (<EventBody as View>::V, u8, u128, u32)) -> bool {
        <EventBody as Ser>::spec_wf(v.0)
    }

    proof fn lemma_write_read(v: (<EventBody as View>::V, u8, u128, u32), rest: Seq<u8>) {
        let e1 = <u8 as Ser>::spec_write(v.1);
        let e2 = <u128 as Ser>::spec_write(v.2);
        let e3 = <u32 as Ser>::spec_write(v.3);
        let e4 = <EventBody as Ser>::spec_write(v.0);
        assert(Self::spec_write(v) + rest =~= e1 + (e2 + (e3 + (e4 + rest))));
        <u8 as Ser>::lemma_write_read(v.1, e2 + (e3 + (e4 + rest)));
        lemma_skip_front(e1, e2 + (e3 + (e4 + rest)));
        <u128 as Ser>::lemma_write_read(v.2, e3 + (e4 + rest));
        lemma_skip_front(e2, e3 + (e4 + rest));
        <u32 as Ser>::lemma_write_read(v.3, e4 + rest);
        lemma_skip_front(e3, e4 + rest);
        <EventBody as Ser>::lemma_write_read(v.0, rest);
    }

    fn write(&self, out: &mut Vec<u8>) {
        let ghost start = out@;
        self.version.write(out);
        self.timestamp.write(out);
        self.request_id.write(out);
        self.body.write(out);
        assert(out@ =~= start + Self::spec_write(self@));
    }

    fn read(buf: &[u8], pos: usize) -> (res: Result<(Event, usize), ReadError>) {
        let (version, p1) = <u8 as Ser>::read(buf, pos)?;
        proof {
            lemma_from_pos_skip(buf@, pos as int, p1 as int);
        }
        let (timestamp, p2) = <u128 as Ser>::read(buf, p1)?;
        proof {
            lemma_from_pos_skip(buf@, p1 as int, p2 as int);
        }
        let (request_id, p3) = <u32 as Ser>::read(buf, p2)?;
        proof {
            lemma_from_pos_skip(buf@, p2 as int, p3 as int);
        }
        let (body, p4) = <EventBody as Ser>::read(buf, p3)?;
        Ok((Event { body, version, timestamp, request_id }, p4))
    }
}

impl Default for Event {
    /// An event of this protocol version, stamped with the time now and a
    /// random request number, whose body is to be replaced.
    fn default() -> (e: Event)
        ensures
            e.version == PROTOCOL_VERSION,
            e.body is GetServersEvent,
    {
        let timestamp = match now_millis() {
            Some(t) => t,
            None => 0,
        };
        Event {
            version: PROTOCOL_VERSION,
            timestamp,
            body: EventBody::GetServersEvent(GetServersEvent {}),
            request_id: random_u32(),
        }
    }
}

/// An event is read back from the bytes written for it, whatever follows
/// them: its version, time, request number and body, and the number of
/// bytes written. This holds of every event whose lists fit their length
/// fields and whose member lists have at most one member (see
/// `GetMembersResponse`).
pub proof fn lemma_event_roundtrip(e: <Event as View>::V, rest: Seq<u8>)
    requires
        Event::spec_wf(e),
    ensures
        Event::spec_read(Event::spec_write(e) + rest) == Ok::<(<Event as View>::V, nat), ReadError>(
            (e, Event::spec_write(e).len()),
        ),
{
    Event::lemma_write_read(e, rest);
}

} // verus!
