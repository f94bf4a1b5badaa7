use concord::event::EventBody;
use concord::handlers::{
    attach_avatars, authed_route, binary_action, channels_response, created_server_info, image_file_name, is_owner,
    join_request, members_response, profile_action, profile_entries, profile_response, remote_profile_request,
    server_infos, strip_avatars, view_invite_response, BinaryAction, ProfileAction, Route, ServerInfoSerde,
};
use concord::protocol::{
    AuthEvent, ChallengeEvent, GetProfileRequest, GetProfileResponse, GetServersEvent, ProfileImageRequestType,
};
use concord::store;
use concord::store::{JoinInfoReply, Profile, ServerInfoReply};
use concord::types::{Image, ProfileData, Pubkey, SerOption, SerString, ServerId};

fn profile(name: &str) -> Profile {
    Profile {
        user_pubkey: Pubkey::from_bytes([1u8; 32]),
        server_pubkey: Pubkey::from_bytes([2u8; 32]),
        server_id: ServerId::from_bytes([3u8; 8]),
        profile_data: ProfileData {
            user_name: SerString { data: name.to_string() },
            user_bio: SerString { data: "bio".to_string() },
        },
    }
}

#[test]
fn routes() {
    assert_eq!(authed_route(&EventBody::GetServersEvent(GetServersEvent {})), Route::GetServers);
    assert_eq!(authed_route(&EventBody::ChallengeEvent(ChallengeEvent { challenge: 1 })), Route::Unexpected);
}

#[test]
fn binary_actions() {
    let auth = EventBody::AuthEvent(AuthEvent { signature: SerOption(None), token: SerOption(None), pubkey: SerOption(None) });
    let other = EventBody::GetServersEvent(GetServersEvent {});
    let key = Some(Pubkey::from_bytes([1u8; 32]));
    assert_eq!(binary_action(&auth, &None), BinaryAction::Authenticate);
    assert_eq!(binary_action(&other, &Some(key)), BinaryAction::Process);
    assert_eq!(binary_action(&other, &Some(None)), BinaryAction::Close);
    assert_eq!(binary_action(&other, &None), BinaryAction::Close);
}

#[test]
fn owners() {
    assert!(is_owner(&Some(Pubkey::from_bytes([1u8; 32])), &[1u8; 32]));
    assert!(!is_owner(&Some(Pubkey::from_bytes([1u8; 32])), &[2u8; 32]));
    assert!(!is_owner(&None, &[1u8; 32]));
}

#[test]
fn servers_listed_with_description_none() {
    let data = vec![
        ServerInfoReply { pubkey: [1u8; 32], server_id: [2u8; 8], name: "a".to_string(), seqno: 3 },
        ServerInfoReply { pubkey: [4u8; 32], server_id: [5u8; 8], name: "b".to_string(), seqno: 6 },
    ];
    let servers = server_infos(data);
    assert_eq!(servers.len(), 2);
    assert_eq!(servers[0].name.data, "a");
    assert_eq!(servers[0].description.data, "none");
    assert_eq!(servers[1].server_id.to_bytes(), [5u8; 8]);
    assert_eq!(servers[1].seqno, 6);
}

#[test]
fn created_servers() {
    let s = created_server_info([1u8; 32], "mine".to_string());
    assert!(s.joined);
    assert_eq!(s.seqno, 1);
    assert_eq!(s.name, "mine");
}

#[test]
fn channels_listed_in_order() {
    let channels = vec![
        store::Channel { name: "a".to_string(), description: "x".to_string(), channel_id: 1 },
        store::Channel { name: "b".to_string(), description: "y".to_string(), channel_id: 2 },
    ];
    let r = channels_response(channels, [3u8; 8], [4u8; 32]);
    assert_eq!(r.channels.len(), 2);
    assert_eq!(r.channels[0].name.data, "a");
    assert_eq!(r.channels[1].channel_id, 2);
    assert_eq!(r.server_id.to_bytes(), [3u8; 8]);
}

#[test]
fn members_listed() {
    let members = vec![store::Member {
        user_pubkey: Pubkey::from_bytes([1u8; 32]),
        profile_data: None,
        roles: 1,
        join_time: 2,
        modified_time: 3,
    }];
    let r = members_response(members, ServerId::from_bytes([3u8; 8]), Pubkey::from_bytes([4u8; 32]), 5);
    assert_eq!(r.members.len(), 1);
    assert_eq!(r.batch_num, 5);
}

#[test]
fn invite_views() {
    let j = JoinInfoReply { server_pubkey: [1u8; 32], server_id: [2u8; 8], name: "srv".to_string(), inviter_pubkey: [3u8; 32] };
    let r = view_invite_response(Some(j));
    let info = r.response_info.unwrap();
    assert_eq!(info.server_name.data, "srv");
    assert_eq!(info.inviter_name.data, "");
    assert_eq!(info.current_members, 0);
    assert!(view_invite_response(None).response_info.is_none());
}

#[test]
fn join_requests_carry_the_profile() {
    let r = join_request(9, [1u8; 32], [2u8; 32], vec![Some(profile("ann"))]);
    assert_eq!(r.invite_id, 9);
    assert_eq!(r.user_name.data, "ann");
    assert_eq!(r.user_bio.data, "bio");
    let r = join_request(9, [1u8; 32], [2u8; 32], vec![None]);
    assert_eq!(r.user_name.data, "");
    let r = join_request(9, [1u8; 32], [2u8; 32], vec![]);
    assert_eq!(r.user_bio.data, "");
}

#[test]
fn profiles_and_avatars() {
    let mut data = profile_entries(vec![Some(profile("a")), None, Some(profile("c"))]);
    assert_eq!(data.len(), 3);
    assert!(data[0].0 .0.is_none());
    assert_eq!(data[0].1 .0.as_ref().unwrap().user_name.data, "a");
    assert!(data[1].1 .0.is_none());
    attach_avatars(&mut data, vec![Some(Image { data: vec![1, 2] }), None]);
    assert_eq!(data[0].0 .0.as_ref().unwrap().data, vec![1, 2]);
    assert!(data[1].0 .0.is_none());
    assert!(data[2].0 .0.is_none());
    assert_eq!(data[2].1 .0.as_ref().unwrap().user_name.data, "c");
    let (resp, avatars) = strip_avatars(GetProfileResponse { data });
    assert_eq!(avatars.len(), 3);
    assert_eq!(avatars[0].as_ref().unwrap().data, vec![1, 2]);
    assert!(resp.data.iter().all(|d| d.0 .0.is_none()));
    assert_eq!(resp.data[2].1 .0.as_ref().unwrap().user_name.data, "c");
}

#[test]
fn remote_profile_requests_ask_for_avatars_to_save() {
    let req = GetProfileRequest {
        user_pubkeys: vec![Pubkey::from_bytes([1u8; 32])],
        server_pubkey: Pubkey::from_bytes([2u8; 32]),
        server_id: ServerId::from_bytes([3u8; 8]),
        image_request_type: ProfileImageRequestType::SaveAvatars,
        include_profile_data: true,
    };
    let (r, save) = remote_profile_request(req);
    assert!(save);
    assert!(r.image_request_type == ProfileImageRequestType::ReturnAvatars);
    let req = GetProfileRequest {
        user_pubkeys: vec![],
        server_pubkey: Pubkey::from_bytes([2u8; 32]),
        server_id: ServerId::from_bytes([3u8; 8]),
        image_request_type: ProfileImageRequestType::NoAvatars,
        include_profile_data: false,
    };
    let (r, save) = remote_profile_request(req);
    assert!(!save);
    assert!(r.image_request_type == ProfileImageRequestType::NoAvatars);
}

#[test]
fn image_files() {
    let mut key = [0u8; 32];
    for i in 0..32 {
        key[i] = i as u8;
    }
    let name = image_file_name("/r", "avatar-", [1, 2, 3, 4, 5, 6, 7, 8], key).unwrap();
    assert_eq!(name, "/r/www/images/user_images/avatar-An6UebxCZd-1thX6LZfHDZZKUs92febYZhYRcXddmzfzF2NvTkPNE");
}

#[test]
fn server_info_for_the_browser() {
    let s = ServerInfoSerde::from(ServerInfoReply {
        pubkey: [255u8; 32],
        server_id: [1, 2, 3, 4, 5, 6, 7, 8],
        name: "my server".to_string(),
        seqno: 3,
    });
    assert_eq!(s.pubkey, format!("{}8%3D", "%2F".repeat(42)));
    assert_eq!(s.server_id, "AQIDBAUGBwg%3D");
    assert_eq!(s.name, "my server");
    assert_eq!(s.icon, "");
}

fn profile_request(kind: ProfileImageRequestType, with_profiles: bool) -> GetProfileRequest {
    GetProfileRequest {
        user_pubkeys: vec![Pubkey::from_bytes([1u8; 32]), Pubkey::from_bytes([5u8; 32])],
        server_pubkey: Pubkey::from_bytes([2u8; 32]),
        server_id: ServerId::from_bytes([3u8; 8]),
        image_request_type: kind,
        include_profile_data: with_profiles,
    }
}

#[test]
fn profile_requests_answered_or_sent_on() {
    match profile_action([2u8; 32], profile_request(ProfileImageRequestType::SaveAvatars, true)) {
        ProfileAction::Answer(r) => assert!(r.image_request_type == ProfileImageRequestType::SaveAvatars),
        _ => panic!("a local request is answered here"),
    }
    match profile_action([9u8; 32], profile_request(ProfileImageRequestType::SaveAvatars, true)) {
        ProfileAction::Forward(r, Some((sid, users))) => {
            assert!(r.image_request_type == ProfileImageRequestType::ReturnAvatars);
            assert_eq!(sid.to_bytes(), [3u8; 8]);
            assert_eq!(users.len(), 2);
            assert_eq!(users[1].to_bytes(), [5u8; 32]);
        }
        _ => panic!("a remote request asking to save avatars is sent on, keeping what to save"),
    }
    match profile_action([9u8; 32], profile_request(ProfileImageRequestType::NoAvatars, false)) {
        ProfileAction::Forward(r, None) => assert!(r.image_request_type == ProfileImageRequestType::NoAvatars),
        _ => panic!("a remote request is sent on as it is"),
    }
}

#[test]
fn profile_replies() {
    let req = profile_request(ProfileImageRequestType::ReturnAvatars, true);
    let r = profile_response(&req, vec![Some(profile("a")), None], vec![None, Some(Image { data: vec![7] })]);
    assert_eq!(r.data.len(), 2);
    assert!(r.data[0].0 .0.is_none());
    assert_eq!(r.data[0].1 .0.as_ref().unwrap().user_name.data, "a");
    assert_eq!(r.data[1].0 .0.as_ref().unwrap().data, vec![7]);
    assert!(r.data[1].1 .0.is_none());
    let req = profile_request(ProfileImageRequestType::NoAvatars, false);
    let r = profile_response(&req, vec![], vec![Some(Image { data: vec![7] })]);
    assert!(r.data.is_empty());
    let req = profile_request(ProfileImageRequestType::NoAvatars, true);
    let r = profile_response(&req, vec![Some(profile("b"))], vec![Some(Image { data: vec![7] })]);
    assert!(r.data[0].0 .0.is_none());
}
