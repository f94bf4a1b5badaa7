use concord::db::{
    accept_invite_op, accepted_server_key, challenge_key, challenge_matches, challenge_op, create_challenge,
    create_invite, create_token, decode_stored, default_channel, default_channel_record, delete_invite_ops,
    expired_token_keys, invite_id_key, invite_key, invite_records, invites_prefix, join_info_reply,
    member_impls_from_entries, members_prefix, members_with_profiles, message_batch_prefix, messages_batch,
    messages_from_entries, modify_server_ops, new_channel_record, new_invite, new_member, new_server_id,
    post_message_ops, profile_key, profile_op, roles_check, save_member_ops, server_info_reply, server_key, server_replies,
    server_roles, stored_auth_token_op, stored_member, stored_profile, token_check, token_op, token_text,
    update_metadata_ops, usable_invite, ws_token_op, ws_token_present, StoreOp,
};
use concord::error::ErrorKind;
use concord::ser::{deserialize_default, serialize_default, Ser};
use concord::store::{
    AuthInfo, Challenge, Channel, InviteKey, MemberImpl, MemberMetaDataValue, MemberValueImpl, Message, MessageKeyImpl,
    MessageMetaDataValue, MessageType, MessageValueImpl, Profile, ServerInfo, AUTH_FLAG_MEMBER, AUTH_FLAG_OWNER,
    CHALLENGE_PREFIX, INVITE_ID_PREFIX, INVITE_PREFIX, MESSAGE_BATCH_SIZE, MESSAGE_PREFIX, SERVER_PREFIX,
    TOKEN_PREFIX,
};
use concord::types::{Invite, ProfileData, Pubkey, SerString, ServerId};

fn bytes_of<T: Ser>(v: &T) -> Vec<u8> {
    let mut out = Vec::new();
    serialize_default(&mut out, v);
    out
}

fn put(op: &StoreOp) -> (Vec<u8>, Vec<u8>) {
    match op {
        StoreOp::Put(k, v) => (k.clone(), v.clone()),
        StoreOp::Delete(_) => panic!("expected a write"),
    }
}

fn delete(op: &StoreOp) -> Vec<u8> {
    match op {
        StoreOp::Delete(k) => k.clone(),
        StoreOp::Put(_, _) => panic!("expected a removal"),
    }
}

fn server(name: &str, joined: bool, seqno: u64) -> ServerInfo {
    ServerInfo { pubkey: [4u8; 32], name: name.to_string(), joined, seqno }
}

#[test]
fn server_key_layout() {
    let k = server_key(&[1u8; 8], &[2u8; 32]);
    assert_eq!(k.len(), 41);
    assert_eq!(k[0], SERVER_PREFIX);
    assert_eq!(&k[1..9], &[1u8; 8]);
    assert_eq!(&k[9..], &[2u8; 32]);
    assert_eq!(accepted_server_key(&[1u8; 8]), server_key(&[1u8; 8], &[2u8; 32])[0..9].to_vec());
}

#[test]
fn stored_values_decode() {
    let stored = Some(bytes_of(&server("a", true, 3)));
    let s: ServerInfo = decode_stored(&stored).unwrap().unwrap();
    assert_eq!(s.name, "a");
    assert!(decode_stored::<ServerInfo>(&None).unwrap().is_none());
    let e = decode_stored::<ServerInfo>(&Some(vec![1, 2])).unwrap_err();
    assert!(matches!(e.kind(), ErrorKind::UnexpectedEof(_)));
}

#[test]
fn joined_servers_listed_until_unreadable() {
    let k1 = server_key(&[1u8; 8], &[4u8; 32]);
    let k2 = server_key(&[2u8; 8], &[4u8; 32]);
    let k3 = server_key(&[3u8; 8], &[4u8; 32]);
    let k4 = server_key(&[5u8; 8], &[4u8; 32]);
    let entries = vec![
        (k1.clone(), bytes_of(&server("one", true, 1))),
        (k2, bytes_of(&server("two", false, 2))),
        (k3, bytes_of(&server("three", true, 3))),
        (k4, vec![9]),
        (server_key(&[6u8; 8], &[4u8; 32]), bytes_of(&server("six", true, 6))),
    ];
    let replies = server_replies(&entries);
    assert_eq!(replies.len(), 2);
    assert_eq!(replies[0].name, "one");
    assert_eq!(replies[0].server_id, [1u8; 8]);
    assert_eq!(replies[0].seqno, 1);
    assert_eq!(replies[1].name, "three");
    assert_eq!(replies[1].server_id, [3u8; 8]);
}

#[test]
fn server_info_replies() {
    let r = server_info_reply([7u8; 8], &Some(bytes_of(&server("s", false, 4)))).unwrap().unwrap();
    assert_eq!(r.server_id, [7u8; 8]);
    assert_eq!(r.name, "s");
    assert_eq!(r.pubkey, [4u8; 32]);
    assert!(server_info_reply([7u8; 8], &None).unwrap().is_none());
}

#[test]
fn renaming_a_server_bumps_its_seqno() {
    let key = server_key(&[1u8; 8], &[4u8; 32]);
    let ops = modify_server_ops(key.clone(), &Some(bytes_of(&server("old", true, 5))), "new".to_string()).unwrap();
    assert_eq!(ops.len(), 1);
    let (k, v) = put(&ops[0]);
    assert_eq!(k, key);
    let s: ServerInfo = deserialize_default(&v).unwrap();
    assert_eq!(s.name, "new");
    assert_eq!(s.seqno, 6);
    assert!(s.joined);
    assert!(modify_server_ops(key, &None, "x".to_string()).unwrap().is_empty());
}

#[test]
fn server_roles_by_origin() {
    assert_eq!(server_roles(true), AUTH_FLAG_MEMBER);
    assert_eq!(server_roles(false), AUTH_FLAG_OWNER | AUTH_FLAG_MEMBER);
}

#[test]
fn default_channel_values() {
    let c = default_channel(42);
    assert_eq!(c.name, "mainchat");
    assert_eq!(c.description, "Welcome to mainchat!");
    assert_eq!(c.channel_id, 42);
}

#[test]
fn new_channels_get_the_drawn_id() {
    let (id, op) = new_channel_record([1u8; 32], [2u8; 8], "n".to_string(), "d".to_string());
    let (k, v) = put(&op);
    let c: Channel = deserialize_default(&v).unwrap();
    assert_eq!(c.channel_id, id);
    assert_eq!(c.name, "n");
    assert_eq!(&k[k.len() - 8..], &id.to_be_bytes());
    let (id2, op2) = default_channel_record([1u8; 32], [2u8; 8]);
    let (_, v2) = put(&op2);
    let c2: Channel = deserialize_default(&v2).unwrap();
    assert_eq!(c2.channel_id, id2);
    assert_eq!(c2.name, "mainchat");
}

#[test]
fn server_id_given_or_drawn() {
    assert_eq!(new_server_id(Some([3u8; 8])), [3u8; 8]);
    let a = new_server_id(None);
    let b = new_server_id(None);
    let c = new_server_id(None);
    assert!(a != b || b != c);
}

fn message(channel_id: u64, nonce: u16) -> Message {
    Message {
        payload: vec![104, 105],
        signature: [8u8; 64],
        message_type: MessageType::Text,
        server_pubkey: [1u8; 32],
        server_id: [2u8; 8],
        channel_id,
        timestamp: 1000,
        user_pubkey: [3u8; 32],
        nonce,
        seqno: 0,
        user_name: String::new(),
        user_bio: String::new(),
    }
}

#[test]
fn posting_counts_and_batches() {
    let ops = post_message_ops(message(5, 1), &None).unwrap();
    assert_eq!(ops.len(), 2);
    let (_, count) = put(&ops[0]);
    let c: MessageMetaDataValue = deserialize_default(&count).unwrap();
    assert_eq!(c.message_count, 1);
    let (k, v) = put(&ops[1]);
    let key: MessageKeyImpl = deserialize_default(&k).unwrap();
    assert_eq!(key.batch_num, 0);
    assert_eq!(key.channel_id, 5);
    let value: MessageValueImpl = deserialize_default(&v).unwrap();
    assert_eq!(value.payload, vec![104, 105]);

    let stored = Some(bytes_of(&MessageMetaDataValue { message_count: 250 }));
    let ops = post_message_ops(message(5, 2), &stored).unwrap();
    let (_, count) = put(&ops[0]);
    let c: MessageMetaDataValue = deserialize_default(&count).unwrap();
    assert_eq!(c.message_count, 251);
    let (k, _) = put(&ops[1]);
    let key: MessageKeyImpl = deserialize_default(&k).unwrap();
    assert_eq!(key.batch_num, 250 / MESSAGE_BATCH_SIZE);
    assert!(k.starts_with(&message_batch_prefix(&[1u8; 32], &[2u8; 8], 5, 2)));
    assert_eq!(k[0], MESSAGE_PREFIX);
}

#[test]
fn message_batches() {
    assert!(messages_batch(&None, 3).unwrap().is_none());
    let stored = Some(bytes_of(&MessageMetaDataValue { message_count: 250 }));
    assert_eq!(messages_batch(&stored, 7).unwrap(), Some((3, 2)));
    assert_eq!(messages_batch(&stored, 1).unwrap(), Some((3, 1)));
    let fifty = Some(bytes_of(&MessageMetaDataValue { message_count: 50 }));
    assert_eq!(messages_batch(&fifty, 0).unwrap(), Some((1, 0)));
    assert_eq!(messages_batch(&fifty, 9).unwrap(), Some((1, 0)));
    let hundred = Some(bytes_of(&MessageMetaDataValue { message_count: 100 }));
    assert_eq!(messages_batch(&hundred, 5).unwrap(), Some((1, 0)));
    let hundred_one = Some(bytes_of(&MessageMetaDataValue { message_count: 101 }));
    assert_eq!(messages_batch(&hundred_one, 5).unwrap(), Some((2, 1)));
    let none = Some(bytes_of(&MessageMetaDataValue { message_count: 0 }));
    assert_eq!(messages_batch(&none, 5).unwrap(), Some((0, 0)));
}

#[test]
fn messages_read_from_entries() {
    let mut entries = Vec::new();
    for nonce in 0..3u16 {
        let ops = post_message_ops(message(5, nonce), &None).unwrap();
        entries.push(put(&ops[1]));
    }
    entries.insert(2, (vec![MESSAGE_PREFIX], vec![]));
    let msgs = messages_from_entries(&entries, 200);
    assert_eq!(msgs.len(), 2);
    assert_eq!(msgs[0].seqno, 200);
    assert_eq!(msgs[1].seqno, 201);
    assert_eq!(msgs[1].nonce, 1);
    assert_eq!(msgs[0].user_name, "not implemented");
    assert_eq!(msgs[0].payload, vec![104, 105]);
}

#[test]
fn invites_stored_under_both_keys() {
    let invite = new_invite([1u8; 32], [2u8; 8], 500, 3, 77);
    assert_eq!(invite.cur, 0);
    assert_eq!(invite.max, 3);
    let ops = invite_records(&invite);
    assert_eq!(ops.len(), 2);
    let (k1, v1) = put(&ops[0]);
    let (k2, v2) = put(&ops[1]);
    assert_eq!(k1, invite_key([2u8; 8], [1u8; 32], 77));
    assert_eq!(k2, invite_id_key(77));
    assert_eq!(v1, v2);
    assert_eq!(k1[0], INVITE_PREFIX);
    assert_eq!(k2[0], INVITE_ID_PREFIX);
    assert!(k1.starts_with(&invites_prefix(&[2u8; 8], &Some([1u8; 32]))));
    assert!(k1.starts_with(&invites_prefix(&[2u8; 8], &None)));
    // the value holds the bytes of the invite's key, then the invite
    let key_bytes = bytes_of(&InviteKey { server_id: [2u8; 8], inviter: [1u8; 32], id: 77 });
    assert_eq!(key_bytes.len(), 56);
    assert_eq!(&v1[..56], &key_bytes[..]);
    let back: Invite = deserialize_default(&v1[56..]).unwrap();
    assert_eq!(back.id, 77);
    assert_eq!(back.expiry, 500);
}

#[test]
fn created_invites_use_the_drawn_id() {
    let (invite, ops) = create_invite([1u8; 32], [2u8; 8], 9, 4);
    let (k, _) = put(&ops[1]);
    assert_eq!(k, invite_id_key(invite.id));
    assert_eq!(invite.max, 4);
    assert_eq!(invite.cur, 0);
}

#[test]
fn deleting_invites() {
    let invite = new_invite([1u8; 32], [2u8; 8], 500, 3, 77);
    let stored = Some(bytes_of(&invite));
    let ops = delete_invite_ops(77, &stored).unwrap();
    assert_eq!(ops.len(), 2);
    assert_eq!(delete(&ops[0]), invite_id_key(77));
    assert_eq!(delete(&ops[1]), invite_key([2u8; 8], [1u8; 32], 77));
    assert!(delete_invite_ops(77, &None).unwrap().is_empty());
}

#[test]
fn accepting_invites() {
    let invite = new_invite([1u8; 32], [2u8; 8], 500, 2, 77);
    let stored = Some(bytes_of(&invite));
    let usable = usable_invite(&stored).unwrap().unwrap();
    let (after, op) = accept_invite_op(invite_id_key(77), usable);
    assert_eq!(after.cur, 1);
    let (_, v) = put(&op);
    let once: Invite = deserialize_default(&v).unwrap();
    assert_eq!(once.cur, 1);
    let (after, op) = accept_invite_op(invite_id_key(77), usable_invite(&Some(v)).unwrap().unwrap());
    assert_eq!(after.cur, 2);
    let (_, v) = put(&op);
    assert!(usable_invite(&Some(v)).unwrap().is_none());
    assert!(usable_invite(&None).unwrap().is_none());
}

#[test]
fn join_info() {
    let invite = new_invite([1u8; 32], [2u8; 8], 500, 2, 77);
    let r = join_info_reply(&invite, &Some(bytes_of(&server("srv", true, 1)))).unwrap().unwrap();
    assert_eq!(r.name, "srv");
    assert_eq!(r.server_id, [2u8; 8]);
    assert_eq!(r.inviter_pubkey, [1u8; 32]);
    assert_eq!(r.server_pubkey, [4u8; 32]);
    assert!(join_info_reply(&invite, &None).unwrap().is_none());
}

#[test]
fn member_metadata_counts() {
    let key = vec![12u8, 1];
    let (batch, op) = update_metadata_ops(key.clone(), &None).unwrap();
    assert_eq!(batch, 0);
    let (k, v) = put(&op);
    assert_eq!(k, key);
    let c: MemberMetaDataValue = deserialize_default(&v).unwrap();
    assert_eq!(c.member_count, 1);
    let (batch, op) = update_metadata_ops(key, &Some(bytes_of(&MemberMetaDataValue { member_count: 205 }))).unwrap();
    assert_eq!(batch, 2);
    let (_, v) = put(&op);
    let c: MemberMetaDataValue = deserialize_default(&v).unwrap();
    assert_eq!(c.member_count, 206);
}

#[test]
fn new_members_default_to_now() {
    let m = new_member(Pubkey::from_bytes([1u8; 32]), 2, None, Some(5), 99);
    assert_eq!(m.join_time, 5);
    assert_eq!(m.modified_time, 99);
    assert!(m.profile_data.is_none());
    assert_eq!(m.roles, 2);
}

#[test]
fn saving_members_by_roles() {
    let pk = Pubkey::from_bytes([1u8; 32]);
    let sid = ServerId::from_bytes([2u8; 8]);
    let user = Pubkey::from_bytes([3u8; 32]);
    let plain = new_member(user, 0, Some(7), Some(6), 0);
    let ops = save_member_ops(pk, sid, &plain, 4);
    assert_eq!(ops.len(), 3);
    let (hash_key, value) = put(&ops[0]);
    let (itt_key, value2) = put(&ops[1]);
    let auth_key = delete(&ops[2]);
    assert_eq!(value, value2);
    assert_eq!(hash_key[0], 11);
    assert_eq!(itt_key[0], 4);
    assert_eq!(auth_key[0], 13);
    let v: MemberValueImpl = deserialize_default(&value).unwrap();
    assert_eq!((v.roles, v.join_time, v.modified_time, v.batch_num), (0, 6, 7, 4));
    assert!(itt_key.starts_with(&members_prefix([1u8; 32], [2u8; 8], 4, false)));

    let owner = new_member(user, AUTH_FLAG_OWNER, Some(7), Some(6), 0);
    let ops = save_member_ops(pk, sid, &owner, 4);
    let (_, _) = put(&ops[0]);
    let (auth_key, _) = put(&ops[1]);
    let itt_key = delete(&ops[2]);
    assert_eq!(auth_key[0], 13);
    assert_eq!(itt_key[0], 4);
    assert!(auth_key.starts_with(&members_prefix([1u8; 32], [2u8; 8], 4, true)));

    let joined = new_member(user, AUTH_FLAG_MEMBER, Some(7), Some(6), 0);
    let ops = save_member_ops(pk, sid, &joined, 4);
    let (itt_key, _) = put(&ops[1]);
    let auth_key = delete(&ops[2]);
    assert_eq!(itt_key[0], 4);
    assert_eq!(auth_key[0], 13);
    assert!(itt_key.starts_with(&members_prefix([1u8; 32], [2u8; 8], 4, false)));

    let found = stored_member(user, sid, pk, &Some(value)).unwrap().unwrap();
    assert_eq!(found.roles, 0);
    assert_eq!(found.batch_num, 4);
    assert_eq!(found.user_pubkey.to_bytes(), [3u8; 32]);
    assert!(stored_member(user, sid, pk, &None).unwrap().is_none());
}

#[test]
fn member_tables_read_back() {
    let pk = Pubkey::from_bytes([1u8; 32]);
    let sid = ServerId::from_bytes([2u8; 8]);
    let mut entries = Vec::new();
    for k in 3..6u8 {
        let m = new_member(Pubkey::from_bytes([k; 32]), 0, Some(7), Some(k as u64), 0);
        let ops = save_member_ops(pk, sid, &m, 0);
        entries.push(put(&ops[1]));
    }
    let members = member_impls_from_entries(&entries, false);
    assert_eq!(members.len(), 3);
    assert_eq!(members[1].user_pubkey.to_bytes(), [4u8; 32]);
    assert_eq!(members[1].join_time, 4);
    let profiles = vec![
        Some(Profile {
            user_pubkey: Pubkey::from_bytes([3u8; 32]),
            server_pubkey: pk,
            server_id: sid,
            profile_data: ProfileData {
                user_name: SerString { data: "ann".to_string() },
                user_bio: SerString { data: "hi".to_string() },
            },
        }),
        None,
    ];
    let with = members_with_profiles(members, profiles);
    assert_eq!(with.len(), 3);
    assert_eq!(with[0].profile_data.as_ref().unwrap().user_name.data, "ann");
    assert!(with[1].profile_data.is_none());
    assert!(with[2].profile_data.is_none());
}

#[test]
fn challenges() {
    let op = challenge_op(&[1u8; 32], [5u8; 8]);
    let (k, v) = put(&op);
    assert_eq!(k, challenge_key(&[1u8; 32]));
    assert_eq!(k[0], CHALLENGE_PREFIX);
    assert!(challenge_matches(&Some(v.clone()), [5u8; 8]).unwrap());
    assert!(!challenge_matches(&Some(v), [5, 5, 5, 5, 5, 5, 5, 6]).unwrap());
    assert!(!challenge_matches(&None, [5u8; 8]).unwrap());
    let (challenge, op) = create_challenge(&[1u8; 32]);
    let (_, v) = put(&op);
    let c: Challenge = deserialize_default(&v).unwrap();
    assert_eq!(c.challenge, challenge);
}

#[test]
fn sessions() {
    let op = token_op(&[1u8; 32], 9, 1000, 50);
    let (k, v) = put(&op);
    assert_eq!(k[0], TOKEN_PREFIX);
    assert_eq!(k.len(), 1 + 32 + 16);
    let a: AuthInfo = deserialize_default(&v).unwrap();
    assert_eq!((a.creation_time, a.last_access_time, a.expiration_millis), (1000, 1000, 50));
    assert!(token_check(1050, &Some(v.clone())).is_ok());
    let e = token_check(1051, &Some(v)).unwrap_err();
    assert!(matches!(e.kind(), ErrorKind::NotAuthorized(m) if m == "invalid token - expired"));
    let e = token_check(1051, &None).unwrap_err();
    assert!(matches!(e.kind(), ErrorKind::NotAuthorized(m) if m == "invalid token - not found"));
    let (token, op) = create_token(&[1u8; 32], 5, 6);
    let (k, _) = put(&op);
    assert_eq!(&k[33..], &token.to_be_bytes());
    assert_eq!(token_text(123456789), "123456789");
    assert_eq!(token_text(0), "0");
    assert_eq!(token_text(u128::MAX), "340282366920938463463374607431768211455");
}

#[test]
fn roles() {
    let m = MemberImpl {
        user_pubkey: Pubkey::from_bytes([1u8; 32]),
        server_pubkey: Pubkey::from_bytes([1u8; 32]),
        server_id: ServerId::from_bytes([1u8; 8]),
        roles: AUTH_FLAG_MEMBER,
        batch_num: 0,
        join_time: 0,
        modified_time: 0,
    };
    assert!(roles_check(&Some(m), AUTH_FLAG_MEMBER).is_ok());
    assert!(roles_check(&Some(m), AUTH_FLAG_OWNER | AUTH_FLAG_MEMBER).is_ok());
    let e = roles_check(&Some(m), AUTH_FLAG_OWNER).unwrap_err();
    assert!(matches!(e.kind(), ErrorKind::NotAuthorized(msg) if msg == "not authorized. requested = 1, actual = 2"));
    let e = roles_check(&None, AUTH_FLAG_OWNER).unwrap_err();
    assert!(matches!(e.kind(), ErrorKind::NotAuthorized(msg) if msg == "not authorized. requested = 1, level = 0"));
}

#[test]
fn expired_sessions_found() {
    let entries = vec![
        put(&token_op(&[1u8; 32], 1, 0, 10)),
        put(&token_op(&[1u8; 32], 2, 95, 10)),
        put(&token_op(&[1u8; 32], 3, 50, 10)),
        (vec![TOKEN_PREFIX], vec![1]),
        put(&token_op(&[1u8; 32], 4, 0, 10)),
    ];
    let keys = expired_token_keys(100, &entries);
    assert_eq!(keys.len(), 2);
    assert_eq!(keys[0], entries[0].0);
    assert_eq!(keys[1], entries[2].0);
}

#[test]
fn profiles_and_tokens() {
    let user = Pubkey::from_bytes([1u8; 32]);
    let pk = Pubkey::from_bytes([2u8; 32]);
    let sid = ServerId::from_bytes([3u8; 8]);
    let data = ProfileData { user_name: SerString { data: "a".to_string() }, user_bio: SerString { data: "b".to_string() } };
    let (k, v) = put(&profile_op(user, pk, sid, &data));
    assert_eq!(k[0], 10);
    let p = stored_profile(user, pk, sid, &Some(v)).unwrap().unwrap();
    assert_eq!(p.profile_data.user_name.data, "a");
    assert!(stored_profile(user, pk, sid, &None).unwrap().is_none());
    let (k, v) = put(&stored_auth_token_op(&[2u8; 32], 33));
    assert_eq!(k[0], 8);
    assert_eq!(v, 33u128.to_be_bytes().to_vec());
    let (k, v) = put(&ws_token_op(44));
    assert_eq!(k[0], 14);
    assert_eq!(v, vec![0]);
    assert!(ws_token_present(&Some(v)).unwrap());
    assert!(!ws_token_present(&None).unwrap());
}

#[test]
fn profile_write_keeps_other_users() {
    let user = Pubkey::from_bytes([1u8; 32]);
    let other = Pubkey::from_bytes([5u8; 32]);
    let pk = Pubkey::from_bytes([2u8; 32]);
    let sid = ServerId::from_bytes([3u8; 8]);
    let data = ProfileData { user_name: SerString { data: "n".to_string() }, user_bio: SerString { data: "bio".to_string() } };
    let (k, v) = put(&profile_op(user, pk, sid, &data));
    assert_eq!(k, profile_key(user, pk, sid));
    assert_ne!(k, profile_key(other, pk, sid));
    assert_ne!(k, profile_key(user, pk, ServerId::from_bytes([4u8; 8])));
    let p = stored_profile(user, pk, sid, &Some(v)).unwrap().unwrap();
    assert_eq!(p.profile_data.user_name.data, "n");
    assert_eq!(p.profile_data.user_bio.data, "bio");
}

#[test]
fn session_used_after_the_clock_has_expired() {
    // the time passed wraps around when the clock reads before the last use
    let (_, v) = put(&token_op(&[1u8; 32], 9, 1000, 50));
    let e = token_check(999, &Some(v.clone())).unwrap_err();
    assert!(matches!(e.kind(), ErrorKind::NotAuthorized(m) if m == "invalid token - expired"));
    let entries = vec![put(&token_op(&[1u8; 32], 1, 200, 10)), put(&token_op(&[1u8; 32], 2, 95, 10))];
    let keys = expired_token_keys(100, &entries);
    assert_eq!(keys.len(), 1);
    assert_eq!(keys[0], entries[0].0);
}
