use concord::event::{Event, EventBody};
use concord::protocol::{
    AddChannelRequest, AuthEvent, ChallengeEvent, GetMembersResponse, GetServersEvent, Member, OnlineStatus,
    ServerInfo, ViewInviteResponse,
};
use concord::ser::{deserialize_default, serialize_default, ReadError, Ser};
use concord::store;
use concord::types::{Image, ProfileData, Pubkey, SerOption, SerString, ServerId, Signature, U128};

fn ser_string(s: &str) -> SerString {
    SerString { data: s.to_string() }
}

fn bytes_of<T: Ser>(v: &T) -> Vec<u8> {
    let mut out = Vec::new();
    serialize_default(&mut out, v);
    out
}

#[test]
fn integers_are_big_endian() {
    assert_eq!(bytes_of(&0x0102u16), vec![1, 2]);
    assert_eq!(bytes_of(&0x01020304u32), vec![1, 2, 3, 4]);
    assert_eq!(bytes_of(&0x0102030405060708u64), vec![1, 2, 3, 4, 5, 6, 7, 8]);
    let mut expect = vec![0u8; 15];
    expect.push(7);
    assert_eq!(bytes_of(&7u128), expect);
    assert_eq!(bytes_of(&true), vec![1]);
    assert_eq!(bytes_of(&false), vec![0]);
}

#[test]
fn integers_read_back() {
    let v: u128 = 0xfedcba98765432100123456789abcdef;
    assert_eq!(deserialize_default::<u128>(&bytes_of(&v)).unwrap(), v);
    let v: u64 = u64::MAX - 5;
    assert_eq!(deserialize_default::<u64>(&bytes_of(&v)).unwrap(), v);
    assert_eq!(deserialize_default::<u32>(&[1, 2, 3]).unwrap_err(), ReadError::UnexpectedEof);
    assert_eq!(deserialize_default::<bool>(&[7]).unwrap(), true);
}

#[test]
fn strings_carry_a_u64_length() {
    assert_eq!(bytes_of(&ser_string("hi")), vec![0, 0, 0, 0, 0, 0, 0, 2, 104, 105]);
    let back: SerString = deserialize_default(&bytes_of(&ser_string("héllo"))).unwrap();
    assert_eq!(back.data, "héllo");
    let bad = vec![0, 0, 0, 0, 0, 0, 0, 2, 0xff, 0xfe];
    assert_eq!(deserialize_default::<SerString>(&bad).unwrap_err(), ReadError::InvalidUtf8);
    let short = vec![0, 0, 0, 0, 0, 0, 0, 9, 1];
    assert_eq!(deserialize_default::<SerString>(&short).unwrap_err(), ReadError::UnexpectedEof);
}

#[test]
fn options_carry_a_flag() {
    let none: SerOption<U128> = SerOption(None);
    assert_eq!(bytes_of(&none), vec![0]);
    let some = SerOption(Some(U128(1)));
    let b = bytes_of(&some);
    assert_eq!(b.len(), 17);
    assert_eq!(b[0], 1);
    let back: SerOption<U128> = deserialize_default(&b).unwrap();
    assert_eq!(back.0.unwrap().0, 1);
}

#[test]
fn event_layout() {
    let event = Event {
        body: EventBody::GetServersEvent(GetServersEvent {}),
        version: 1,
        timestamp: 2,
        request_id: 3,
    };
    let mut expect = vec![1u8];
    expect.extend_from_slice(&[0u8; 15]);
    expect.push(2);
    expect.extend_from_slice(&[0, 0, 0, 3]);
    expect.extend_from_slice(&[0, 3]);
    assert_eq!(bytes_of(&event), expect);
}

#[test]
fn event_roundtrip_add_channel() {
    let event = Event {
        body: EventBody::AddChannelRequest(AddChannelRequest {
            server_id: ServerId::from_bytes([1, 2, 3, 4, 5, 6, 7, 8]),
            server_pubkey: Pubkey::from_bytes([9u8; 32]),
            name: ser_string("general"),
            description: ser_string("talk here"),
        }),
        version: 1,
        timestamp: 1650000000000,
        request_id: 77,
    };
    let bytes = bytes_of(&event);
    assert_eq!(&bytes[21..23], &[0, 14]);
    let back: Event = deserialize_default(&bytes).unwrap();
    assert_eq!(back.version, 1);
    assert_eq!(back.timestamp, 1650000000000);
    assert_eq!(back.request_id, 77);
    match back.body {
        EventBody::AddChannelRequest(r) => {
            assert_eq!(r.server_id.to_bytes(), [1, 2, 3, 4, 5, 6, 7, 8]);
            assert_eq!(r.server_pubkey.to_bytes(), [9u8; 32]);
            assert_eq!(r.name.data, "general");
            assert_eq!(r.description.data, "talk here");
        }
        _ => panic!("wrong body"),
    }
}

#[test]
fn event_roundtrip_auth() {
    let event = Event {
        body: EventBody::AuthEvent(AuthEvent {
            signature: SerOption(Some(Signature([5u8; 64]))),
            token: SerOption(None),
            pubkey: SerOption(Some(Pubkey::from_bytes([6u8; 32]))),
        }),
        version: 2,
        timestamp: 0,
        request_id: u32::MAX,
    };
    let mut bytes = bytes_of(&event);
    bytes.extend_from_slice(&[1, 2, 3]);
    let back: Event = deserialize_default(&bytes).unwrap();
    assert_eq!(back.request_id, u32::MAX);
    match back.body {
        EventBody::AuthEvent(a) => {
            assert_eq!(a.signature.0.unwrap().0, [5u8; 64]);
            assert!(a.token.0.is_none());
            assert_eq!(a.pubkey.0.unwrap().to_bytes(), [6u8; 32]);
        }
        _ => panic!("wrong body"),
    }
}

#[test]
fn event_roundtrip_servers_and_challenge() {
    let info = ServerInfo {
        name: ser_string("srv"),
        description: ser_string("d"),
        server_id: ServerId::from_bytes([3u8; 8]),
        server_pubkey: Pubkey::from_bytes([4u8; 32]),
        seqno: 9,
    };
    let event = Event {
        body: EventBody::GetServersResponse(concord::protocol::GetServersResponse { servers: vec![info] }),
        version: 1,
        timestamp: 5,
        request_id: 6,
    };
    let back: Event = deserialize_default(&bytes_of(&event)).unwrap();
    match back.body {
        EventBody::GetServersResponse(r) => {
            assert_eq!(r.servers.len(), 1);
            assert_eq!(r.servers[0].name.data, "srv");
            assert_eq!(r.servers[0].seqno, 9);
        }
        _ => panic!("wrong body"),
    }
    let event = Event {
        body: EventBody::ChallengeEvent(ChallengeEvent { challenge: 12345 }),
        version: 1,
        timestamp: 5,
        request_id: 6,
    };
    let back: Event = deserialize_default(&bytes_of(&event)).unwrap();
    assert!(matches!(back.body, EventBody::ChallengeEvent(ChallengeEvent { challenge: 12345 })));
}

#[test]
fn unknown_event_type_is_refused() {
    let mut bytes = vec![1u8];
    bytes.extend_from_slice(&[0u8; 16]);
    bytes.extend_from_slice(&[0, 0, 0, 1]);
    bytes.extend_from_slice(&[0, 99]);
    assert_eq!(deserialize_default::<Event>(&bytes).unwrap_err(), ReadError::UnknownEventType);
    bytes.truncate(22);
    assert_eq!(deserialize_default::<Event>(&bytes).unwrap_err(), ReadError::UnexpectedEof);
}

#[test]
fn view_invite_response_option() {
    let none = ViewInviteResponse { response_info: None };
    let b = bytes_of(&none);
    assert_eq!(b, vec![0]);
    let back: ViewInviteResponse = deserialize_default(&b).unwrap();
    assert!(back.response_info.is_none());
}

fn stored_member(k: u8, name: Option<&str>) -> store::Member {
    store::Member {
        user_pubkey: Pubkey::from_bytes([k; 32]),
        profile_data: name.map(|n| ProfileData { user_name: ser_string(n), user_bio: ser_string("bio") }),
        roles: 3,
        join_time: 10,
        modified_time: 11,
    }
}

#[test]
fn member_from_stored() {
    let m: Member = stored_member(7, Some("ann")).into();
    let b = bytes_of(&m);
    // key, name, bio, roles (none), profile sequence number (0), offline
    let mut expect = vec![7u8; 32];
    expect.extend_from_slice(&[0, 0, 0, 0, 0, 0, 0, 3, b'a', b'n', b'n']);
    expect.extend_from_slice(&[0, 0, 0, 0, 0, 0, 0, 3, b'b', b'i', b'o']);
    expect.extend_from_slice(&[0u8; 16]);
    expect.extend_from_slice(&[0u8; 8]);
    expect.push(0);
    assert_eq!(b, expect);
    let m: Member = stored_member(8, None).into();
    let b = bytes_of(&m);
    assert_eq!(b.len(), 32 + 8 + 8 + 16 + 8 + 1);
    let _ = OnlineStatus::Online;
}

#[test]
fn members_response_one_member_roundtrip() {
    let r = GetMembersResponse {
        members: vec![stored_member(1, Some("a")).into()],
        server_id: ServerId::from_bytes([2u8; 8]),
        server_pubkey: Pubkey::from_bytes([3u8; 32]),
        batch_num: 4,
    };
    let back: GetMembersResponse = deserialize_default(&bytes_of(&r)).unwrap();
    assert_eq!(back.members.len(), 1);
    assert_eq!(back.server_id.to_bytes(), [2u8; 8]);
    assert_eq!(back.server_pubkey.to_bytes(), [3u8; 32]);
    assert_eq!(back.batch_num, 4);
}

#[test]
fn members_response_list_written_once_per_member() {
    let m1: Member = stored_member(1, None).into();
    let one = bytes_of(&m1).len();
    let r = GetMembersResponse {
        members: vec![stored_member(1, None).into(), stored_member(2, None).into()],
        server_id: ServerId::from_bytes([2u8; 8]),
        server_pubkey: Pubkey::from_bytes([3u8; 32]),
        batch_num: 4,
    };
    // the length, the whole list twice, then the identifiers and batch
    assert_eq!(bytes_of(&r).len(), 8 + 4 * one + 8 + 32 + 8);
}

#[test]
fn image_and_profile_defaults() {
    assert!(Image::default().data.is_empty());
    let p = ProfileData::default();
    assert_eq!(p.user_name.data, "User Default");
    assert_eq!(p.user_bio.data, "Tell us about you..");
}
