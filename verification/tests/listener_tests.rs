use concord::context::{listen_url, remote_post_data, ConcordContext, Interest};
use concord::persistence::{parse_interest_list, timeout_event, Event, EVENT_TYPE_MESSAGE};

const USER: [u8; 32] = [1u8; 32];
const REMOTE: [u8; 32] = [2u8; 32];

fn interest(server_pubkey: [u8; 32], k: u8) -> Interest {
    Interest { server_pubkey, server_id: [k; 8], channel_id: None }
}

fn message_event(body: &str) -> Event {
    Event {
        etype: EVENT_TYPE_MESSAGE,
        ebody: body.to_string(),
        timestamp: "1".to_string(),
        user_pubkey: String::new(),
        server_pubkey: String::new(),
        server_id: String::new(),
        channel_id: String::new(),
    }
}

#[test]
fn first_listen_starts_remote_connections() {
    let mut ctx: ConcordContext<u32> = ConcordContext::new();
    let list = vec![interest(REMOTE, 1), interest(USER, 2), interest(REMOTE, 3)];
    let (reply, events, starts, tells) = ctx.set_listener_interest_at(USER, 7, Some(100), list, 1000);
    assert!(reply.is_none());
    assert!(events.is_empty());
    // only the first interest on a server other than the user's own
    assert_eq!(starts.len(), 1);
    assert_eq!(starts[0].server_pubkey, REMOTE);
    assert_eq!(starts[0].server_id, [1u8; 8]);
    // the second interest on that server is added to what it follows
    assert_eq!(tells.len(), 1);
    assert_eq!(tells[0].server_id, [3u8; 8]);
    // the remote server is followed now: a new interest there is told of
    let (_, _, starts, tells) = ctx.set_listener_interest_at(USER, 8, None, vec![interest(REMOTE, 9)], 1000);
    assert!(starts.is_empty());
    assert_eq!(tells.len(), 1);
    assert_eq!(tells[0].server_id, [9u8; 8]);
    // one that is followed already is not
    let (_, _, starts, tells) = ctx.set_listener_interest_at(USER, 8, None, vec![interest(REMOTE, 9)], 1000);
    assert!(starts.is_empty());
    assert!(tells.is_empty());
}

#[test]
fn dropped_interests_are_left() {
    let mut ctx: ConcordContext<u32> = ConcordContext::new();
    let a = interest(USER, 1);
    let b = interest(USER, 2);
    ctx.set_listener_interest_at(USER, 7, None, vec![a, b], 1000);
    // the listener drops `a`: events on `a` are no longer kept for it
    ctx.set_listener_interest_at(USER, 7, Some(100), vec![b], 1000);
    assert!(ctx.add_event(vec![message_event("a")], &a).is_empty());
    let (_, events, _, _) = ctx.set_listener_interest_at(USER, 7, None, vec![b], 1000);
    assert!(events.is_empty());
    // events on `b` still reach it
    ctx.set_listener_interest_at(USER, 7, Some(100), vec![b], 1000);
    assert_eq!(ctx.add_event(vec![message_event("b")], &b), vec![100]);
}

#[test]
fn events_go_to_waiting_listeners() {
    let mut ctx: ConcordContext<u32> = ConcordContext::new();
    let i = interest(USER, 1);
    ctx.set_listener_interest_at(USER, 7, Some(100), vec![i], 1000);
    ctx.set_listener_interest_at(USER, 8, Some(200), vec![i], 1000);
    ctx.set_listener_interest_at(USER, 9, Some(300), vec![interest(USER, 5)], 1000);
    let handed = ctx.add_event(vec![message_event("a")], &i);
    assert_eq!(handed, vec![100, 200]);
    // no one waits now: the next event is kept
    let handed = ctx.add_event(vec![message_event("b")], &i);
    assert!(handed.is_empty());
    // listening again hands back what was kept: the first event went out
    // on the connections handed back, the second was kept
    let (reply, events, _, _) = ctx.set_listener_interest_at(USER, 7, Some(101), vec![i], 1100);
    assert!(reply.is_none());
    assert_eq!(events.len(), 1);
    assert_eq!(events[0].ebody, "b");
    // and the listener waits on no connection, since it has its events
    let handed = ctx.add_event(vec![message_event("c")], &i);
    assert!(handed.is_empty());
    let (_, events, _, _) = ctx.set_listener_interest_at(USER, 7, Some(102), vec![i], 1200);
    assert_eq!(events.len(), 1);
    assert_eq!(events[0].ebody, "c");
}

#[test]
fn event_for_an_interest_no_one_holds() {
    let mut ctx: ConcordContext<u32> = ConcordContext::new();
    ctx.set_listener_interest_at(USER, 7, Some(100), vec![interest(USER, 1)], 1000);
    assert!(ctx.add_event(vec![message_event("x")], &interest(USER, 2)).is_empty());
    let (_, events, _, _) = ctx.set_listener_interest_at(USER, 7, Some(100), vec![interest(USER, 1)], 1000);
    assert!(events.is_empty());
}

#[test]
fn quiet_listeners_pinged_then_forgotten() {
    let mut ctx: ConcordContext<u32> = ConcordContext::new();
    let i = interest(USER, 1);
    ctx.set_listener_interest_at(USER, 7, Some(100), vec![i], 1000);
    ctx.set_listener_interest_at(USER, 8, Some(200), vec![i], 20000);
    // at 31001 the first is due a ping, the second is fresh
    let handed = ctx.get_timed_out_listeners_and_purge_at(31001);
    assert_eq!(handed, vec![100]);
    // a listener is pinged only once: its connection is given up
    assert!(ctx.get_timed_out_listeners_and_purge_at(31002).is_empty());
    // at 71001 the first is forgotten and the second due a ping
    let handed = ctx.get_timed_out_listeners_and_purge_at(71001);
    assert_eq!(handed, vec![200]);
    // the forgotten listener no longer receives events
    let handed = ctx.add_event(vec![message_event("x")], &i);
    assert!(handed.is_empty());
    let (_, events, _, _) = ctx.set_listener_interest_at(USER, 7, Some(1), vec![i], 71002);
    assert!(events.is_empty());
}

#[test]
fn purge_now_works_on_fresh_listeners() {
    let mut ctx: ConcordContext<u32> = ConcordContext::new();
    ctx.set_listener_interest(USER, 7, Some(100), vec![interest(USER, 1)]).unwrap();
    let handed = ctx.get_timed_out_listeners_and_purge().unwrap();
    assert!(handed.is_empty());
}

#[test]
fn timeout_events_for_listeners() {
    let e = timeout_event(5);
    assert_eq!(e.etype, 4);
}

#[test]
fn remote_listen_body() {
    let list = vec![interest(REMOTE, 1), Interest { server_pubkey: [0u8; 32], server_id: [0u8; 8], channel_id: Some(9) }];
    let body = remote_post_data(&list);
    assert_eq!(
        body,
        "server_pubkey=AgICAgICAgICAgICAgICAgICAgICAgICAgICAgICAgI%3D&server_id=AQEBAQEBAQE%3D&channel_id=0&seqno=0\r\n\
server_pubkey=AAAAAAAAAAAAAAAAAAAAAAAAAAAAAAAAAAAAAAAAAAA%3D&server_id=AAAAAAAAAAA%3D&channel_id=9&seqno=0"
    );
    assert_eq!(remote_post_data(&vec![]), "");
    assert_eq!(listen_url("abc", 42), "http://abc.onion/listen?listener_id=42");
}

#[test]
fn same_interest() {
    let a = interest(USER, 1);
    let b = interest(USER, 1);
    let c = Interest { server_pubkey: USER, server_id: [1u8; 8], channel_id: Some(1) };
    assert!(a.same(&b));
    assert!(!a.same(&c));
}

#[test]
fn remote_listen_body_reads_back() {
    let list = vec![
        interest(REMOTE, 1),
        Interest { server_pubkey: [0xfbu8; 32], server_id: [0xffu8; 8], channel_id: Some(9) },
        interest(USER, 200),
    ];
    let body = remote_post_data(&list);
    let back = parse_interest_list(body.as_str()).unwrap();
    assert_eq!(back.len(), 3);
    assert!(back[0].same(&interest(REMOTE, 1)));
    assert!(back[1].same(&Interest { server_pubkey: [0xfbu8; 32], server_id: [0xffu8; 8], channel_id: None }));
    assert!(back[2].same(&interest(USER, 200)));
    assert_eq!(back[1].channel_id, None);
    assert_eq!(parse_interest_list(remote_post_data(&vec![]).as_str()).unwrap().len(), 0);
}

#[test]
fn listener_heard_after_the_clock_is_forgotten() {
    // the time passed wraps around when the clock reads before the last ping
    let mut ctx: ConcordContext<u32> = ConcordContext::new();
    let i = interest(USER, 1);
    ctx.set_listener_interest_at(USER, 7, Some(100), vec![i], 5000);
    let handed = ctx.get_timed_out_listeners_and_purge_at(4000);
    assert!(handed.is_empty());
    assert!(ctx.add_event(vec![message_event("x")], &i).is_empty());
}

#[test]
fn interest_lines_with_any_channel_and_seqno_read_back() {
    let list = vec![interest(REMOTE, 1), interest(USER, 2)];
    let body = remote_post_data(&list)
        .replacen("channel_id=0&seqno=0", "channel_id=18446744073709551615&seqno=42", 1)
        .replacen("channel_id=0&seqno=0", "channel_id=7&seqno=0", 1);
    let back = parse_interest_list(body.as_str()).unwrap();
    assert_eq!(back.len(), 2);
    assert!(back[0].same(&interest(REMOTE, 1)));
    assert!(back[1].same(&interest(USER, 2)));
}
