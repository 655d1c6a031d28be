use roomchat::event::{NetEvent, NetEventKind, Presence, PresenceState};
use roomchat::room::net::app::{parse_backend, spawn_conf, spawn_conf_from, App, Backend};
use roomchat::room::net::matrix::{Call, Conf, Credentials, Server};
use roomchat::room::net::sync::{ErrorBatch, JoinedRoom, PresenceEntry, SyncResponse, TimelineEntry};
use roomchat::room::net::{Action, ActionKind, NewRoom};
use roomchat::room::RoomAddress;
use roomchat::sequence_number::SequenceNumber;

fn addr(v: &[usize]) -> RoomAddress {
    RoomAddress { segments: v.to_vec() }
}

fn tokens(v: &[&str]) -> Vec<String> {
    v.iter().map(|s| s.to_string()).collect()
}

fn error_text(e: &NetEvent) -> String {
    match &e.event {
        NetEventKind::Error(s) => s.clone(),
        other => panic!("not an error: {:?}", other),
    }
}

#[test]
fn root_publish_echoes_message_from_me() {
    let root = App::new(RoomAddress::root());
    let mut sn = SequenceNumber::new();
    let step = root.process_at(ActionKind::Publish("hello".to_string()), 42, &mut sn);
    assert_eq!(step.events.len(), 1);
    let ev = &step.events[0];
    assert!(ev.room.is_root());
    assert_eq!(ev.date, 42);
    assert_eq!(ev.source, Some("Me".to_string()));
    match &ev.event {
        NetEventKind::Message(m) => assert_eq!(m.content, "hello"),
        other => panic!("unexpected {:?}", other),
    }
    assert!(step.spawn.is_none());
    assert_eq!(sn.next(), Some(0));
}

#[test]
fn root_rejects_connect_disconnect_and_sync() {
    let root = App::new(RoomAddress::root());
    let mut sn = SequenceNumber::new();
    let c = root.process_at(ActionKind::Connect, 1, &mut sn);
    assert_eq!(error_text(&c.events[0]), "Cannot connect to the main room (it is a local room)");
    let d = root.process_at(ActionKind::Disconnect, 1, &mut sn);
    assert_eq!(error_text(&d.events[0]), "Cannot disconnect from main room (it is a local room)");
    let s = root.process_at(ActionKind::Sync, 1, &mut sn);
    assert_eq!(error_text(&s.events[0]), "The main room is local: it has nothing to sync");
    assert!(c.spawn.is_none() && d.spawn.is_none() && s.spawn.is_none());
}

#[test]
fn spawn_matrix_without_url_is_an_error_and_registers_nothing() {
    let root = App::new(RoomAddress::root());
    let mut sn = SequenceNumber::new();
    let mut registry: roomchat::dispatch::Dispatcher<u32> = roomchat::dispatch::Dispatcher::new();
    registry.register(RoomAddress::root(), "main".to_string(), 0).unwrap();
    let step = root.process_at(
        ActionKind::NewRoom(NewRoom { alias: "m".to_string(), command: tokens(&["matrix"]) }),
        5,
        &mut sn,
    );
    assert_eq!(step.events.len(), 1);
    assert_eq!(error_text(&step.events[0]), "Bad syntax. Syntax: matrix <url> [username [password]]");
    assert!(step.spawn.is_none());
    assert_eq!(registry.len(), 1);
    // no room number was used
    assert_eq!(sn.next(), Some(0));
}

#[test]
fn spawn_matrix_with_url_spawns_a_child() {
    let root = App::new(RoomAddress::root());
    let mut sn = SequenceNumber::new();
    assert_eq!(sn.next(), Some(0));
    let step = root.process_at(
        ActionKind::NewRoom(NewRoom {
            alias: "work".to_string(),
            command: tokens(&["matrix", "https://example.org", "bob", "pw"]),
        }),
        9,
        &mut sn,
    );
    assert_eq!(step.events.len(), 1);
    match &step.events[0].event {
        NetEventKind::NewRoom(r) => {
            assert_eq!(r.id, addr(&[1]));
            assert_eq!(r.alias, "work");
        }
        other => panic!("unexpected {:?}", other),
    }
    let spawned = step.spawn.expect("a room is spawned");
    assert_eq!(spawned.address, addr(&[1]));
    assert_eq!(spawned.conf.url, "https://example.org/");
    assert_eq!(spawned.conf.sync_period, 8024);
    let cr = spawned.conf.credentials.expect("credentials");
    assert_eq!(cr.username, "bob");
    assert_eq!(cr.password, "pw");
}

#[test]
fn spawn_errors_name_the_problem() {
    assert_eq!(
        spawn_conf(&tokens(&[])).unwrap_err(),
        "No server type specified! Syntax: <server_type> [...args]"
    );
    assert_eq!(spawn_conf(&tokens(&["irc", "x"])).unwrap_err(), "Unknown server type 'irc'");
    assert!(spawn_conf(&tokens(&["matrix", "not a url"])).is_err());
    let c = spawn_conf(&tokens(&["matrix", "https://h.example", "alice"])).unwrap();
    let cr = c.credentials.unwrap();
    assert_eq!(cr.username, "alice");
    assert_eq!(cr.password, "");
    assert!(spawn_conf(&tokens(&["matrix", "https://h.example"])).unwrap().credentials.is_none());
    assert_eq!(
        spawn_conf_from(&tokens(&["matrix", "u"]), Err("bad".to_string())).unwrap_err(),
        "bad"
    );
    assert_eq!(spawn_conf_from(&tokens(&["matrix", "u"]), Ok("U".to_string())).unwrap().url, "U");
    assert_eq!(parse_backend("matrix"), Some(Backend::Matrix));
    assert_eq!(parse_backend("irc"), None);
}

fn server() -> Server {
    Server::new(
        addr(&[0]),
        Conf { url: "https://h.example/".to_string(), credentials: None, sync_period: 100 },
    )
}

fn act(room: &[usize], action: ActionKind) -> Action {
    Action { room: addr(room), action }
}

fn connected_server() -> Server {
    let mut s = server();
    let st = s.on_login(Ok(()), 1);
    assert!(matches!(st.call, Some(Call::StartTicker { period: 100 })));
    s
}

fn since_of(s: &mut Server) -> Option<String> {
    let mut sn = SequenceNumber::new();
    match s.process_at(act(&[0], ActionKind::Sync), 1, &mut sn).call {
        Some(Call::Sync { since }) => since,
        other => panic!("unexpected {:?}", other),
    }
}

#[test]
fn server_connect_asks_for_login() {
    let mut s = Server::new(
        addr(&[0]),
        Conf {
            url: "https://h.example/".to_string(),
            credentials: Some(Credentials { username: "u".to_string(), password: "p".to_string() }),
            sync_period: 100,
        },
    );
    let mut sn = SequenceNumber::new();
    let st = s.process_at(act(&[0], ActionKind::Connect), 1, &mut sn);
    match st.call {
        Some(Call::LogIn { url, credentials: Some(c) }) => {
            assert_eq!(url, "https://h.example/");
            assert_eq!(c.username, "u");
            assert_eq!(c.password, "p");
        }
        other => panic!("unexpected {:?}", other),
    }
    // before the login succeeds, sync does nothing
    assert!(s.process_at(act(&[0], ActionKind::Sync), 1, &mut sn).call.is_none());
}

#[test]
fn server_failed_login_reports_and_stays_disconnected() {
    let mut s = server();
    let st = s.on_login(Err("timeout".to_string()), 3);
    assert_eq!(st.events.len(), 1);
    assert_eq!(error_text(&st.events[0]), "Unable to connect to server 'https://h.example/': 'timeout'");
    assert_eq!(st.events[0].room, addr(&[0]));
    let mut sn = SequenceNumber::new();
    assert!(s.process_at(act(&[0], ActionKind::Sync), 1, &mut sn).call.is_none());
}

#[test]
fn server_publish_is_an_unsupported_command() {
    let mut s = server();
    let mut sn = SequenceNumber::new();
    let st = s.process_at(act(&[0], ActionKind::Publish("join #room now".to_string())), 1, &mut sn);
    assert_eq!(error_text(&st.events[0]), "Unsupported command: join");
}

#[test]
fn server_spawns_room_by_matrix_id() {
    let mut s = server();
    let mut sn = SequenceNumber::new();
    let new_room = |id: &str| {
        ActionKind::NewRoom(NewRoom { alias: "r".to_string(), command: tokens(&[id]) })
    };
    let st = s.process_at(act(&[0], new_room("!abc:example.org")), 2, &mut sn);
    assert_eq!(st.events.len(), 1);
    match &st.events[0].event {
        NetEventKind::NewRoom(r) => assert_eq!(r.id, addr(&[0, 0])),
        other => panic!("unexpected {:?}", other),
    }
    let again = s.process_at(act(&[0], new_room("!abc:example.org")), 2, &mut sn);
    assert_eq!(again.errors.errors.len(), 1);
    assert_eq!(again.errors.errors[0].error, "Room '!abc:example.org' is already opened");
    let bad = s.process_at(act(&[0], new_room("abc")), 2, &mut sn);
    assert!(bad.errors.errors[0].error.starts_with("Bad matrix room id: "));
    assert_eq!(bad.errors.errors[0].id, addr(&[0]));
    let none = s.process_at(act(&[0], ActionKind::NewRoom(NewRoom { alias: "r".to_string(), command: vec![] })), 2, &mut sn);
    assert_eq!(none.errors.errors[0].error, "Syntax: <matrix room id>");
}

#[test]
fn server_child_actions() {
    let mut s = connected_server();
    let mut sn = SequenceNumber::new();
    s.process_at(act(&[0], ActionKind::NewRoom(NewRoom { alias: "r".to_string(), command: tokens(&["!abc:example.org"]) })), 2, &mut sn);
    let unknown = s.process_at(act(&[0, 7], ActionKind::Connect), 2, &mut sn);
    assert_eq!(unknown.errors.errors[0].error, "Unknown room /0/7");
    assert_eq!(unknown.errors.errors[0].id, addr(&[0]));
    match s.process_at(act(&[0, 0], ActionKind::Connect), 2, &mut sn).call {
        Some(Call::Join { room, name }) => {
            assert_eq!(room, addr(&[0, 0]));
            assert_eq!(name, "!abc:example.org");
        }
        other => panic!("unexpected {:?}", other),
    }
    assert!(matches!(s.process_at(act(&[0, 0], ActionKind::Disconnect), 2, &mut sn).call, Some(Call::Leave { .. })));
    for expected in 0..2usize {
        match s.process_at(act(&[0, 0], ActionKind::Publish("hi".to_string())), 2, &mut sn).call {
            Some(Call::Send { txn_id, body, .. }) => {
                assert_eq!(txn_id, expected);
                assert_eq!(body, "hi");
            }
            other => panic!("unexpected {:?}", other),
        }
    }
    let spawn = s.process_at(act(&[0, 0], ActionKind::NewRoom(NewRoom { alias: "x".to_string(), command: vec![] })), 2, &mut sn);
    assert_eq!(spawn.errors.errors[0].error, "A matrix room cannot spawn another room");
    assert_eq!(spawn.errors.errors[0].id, addr(&[0, 0]));
    let sync = s.process_at(act(&[0, 0], ActionKind::Sync), 2, &mut sn);
    assert_eq!(sync.errors.errors[0].error, "A matrix room cannot sync by itself");
    let stop = s.process_at(act(&[0], ActionKind::Disconnect), 2, &mut sn);
    assert!(matches!(stop.call, Some(Call::Stop)));
    let offline = s.process_at(act(&[0, 0], ActionKind::Connect), 2, &mut sn);
    assert_eq!(offline.errors.errors[0].error, "Not connected to the server");
}

#[test]
fn server_outcomes_of_calls() {
    let s = server();
    let ok = s.on_join(addr(&[0, 1]), "!r:h", Ok(()), 4);
    assert!(matches!(ok.events[0].event, NetEventKind::Connected));
    let err = s.on_join(addr(&[0, 1]), "!r:h", Err("forbidden".to_string()), 4);
    assert_eq!(error_text(&err.events[0]), "Failed to join room '!r:h': 'forbidden'");
    let left = s.on_leave(addr(&[0, 1]), "!r:h", Ok(()), 4);
    assert!(matches!(left.events[0].event, NetEventKind::Disconnected));
    let lerr = s.on_leave(addr(&[0, 1]), "!r:h", Err("no".to_string()), 4);
    assert_eq!(error_text(&lerr.events[0]), "Failed to leave room '!r:h': 'no'");
    let sent = s.on_send(addr(&[0, 1]), Err("lost".to_string()));
    assert_eq!(sent.errors.errors[0].error, "lost");
    assert_eq!(sent.errors.errors[0].id, addr(&[0, 1]));
    assert!(s.on_send(addr(&[0, 1]), Ok(())).errors.errors.is_empty());
}

fn response(leave: &[&str], join: Vec<JoinedRoom>, invite: &[&str], presence: Vec<PresenceEntry>, next: &str) -> SyncResponse {
    SyncResponse {
        leave: tokens(leave),
        join,
        invite: tokens(invite),
        presence,
        next_batch: next.to_string(),
    }
}

#[test]
fn failed_sync_keeps_cursor_and_emits_nothing() {
    let mut s = connected_server();
    let mut sn = SequenceNumber::new();
    let (events, errors) = s.on_sync(Ok(response(&[], vec![], &[], vec![], "c1")), 1, &mut sn);
    assert!(events.is_empty() && errors.errors.is_empty());
    assert_eq!(since_of(&mut s), Some("c1".to_string()));
    let (events, errors) = s.on_sync(Err("network down".to_string()), 2, &mut sn);
    assert!(events.is_empty());
    assert_eq!(errors.errors.len(), 1);
    assert_eq!(errors.errors[0].id, addr(&[0]));
    assert_eq!(errors.errors[0].error, "network down");
    assert_eq!(since_of(&mut s), Some("c1".to_string()));
}

#[test]
fn unsupported_timeline_entry_is_one_error_and_room_still_connects() {
    let mut s = connected_server();
    let mut sn = SequenceNumber::new();
    let join = vec![JoinedRoom {
        name: "!a:h".to_string(),
        timeline: vec![TimelineEntry::Unsupported("m.image".to_string())],
    }];
    let (events, errors) = s.on_sync(Ok(response(&[], join, &[], vec![], "c2")), 7, &mut sn);
    assert_eq!(events.len(), 2);
    assert!(matches!(events[0].event, NetEventKind::NewRoom(_)));
    assert_eq!(events[0].room, addr(&[0]));
    assert!(matches!(events[1].event, NetEventKind::Connected));
    assert_eq!(events[1].room, addr(&[0, 0]));
    assert_eq!(errors.errors.len(), 1);
    assert_eq!(errors.errors[0].id, addr(&[0, 0]));
    assert_eq!(errors.errors[0].error, "Unsupported room event: m.image");
    assert_eq!(since_of(&mut s), Some("c2".to_string()));
}

#[test]
fn leave_is_seen_before_join_in_one_tick() {
    let mut s = connected_server();
    let mut sn = SequenceNumber::new();
    let first = vec![JoinedRoom { name: "!a:h".to_string(), timeline: vec![] }];
    s.on_sync(Ok(response(&[], first, &[], vec![], "c1")), 1, &mut sn);
    let again = vec![JoinedRoom {
        name: "!a:h".to_string(),
        timeline: vec![TimelineEntry::Text { date: 1234, body: "hey".to_string() }],
    }];
    let (events, errors) = s.on_sync(Ok(response(&["!a:h"], again, &["!a:h", "!zz:h"], vec![], "c2")), 2, &mut sn);
    assert!(errors.errors.is_empty());
    assert_eq!(events.len(), 4);
    assert!(matches!(events[0].event, NetEventKind::Disconnected));
    assert!(matches!(events[1].event, NetEventKind::Connected));
    match &events[2].event {
        NetEventKind::Message(m) => assert_eq!(m.content, "hey"),
        other => panic!("unexpected {:?}", other),
    }
    assert_eq!(events[2].date, 1234);
    assert!(matches!(events[3].event, NetEventKind::Invite));
    for e in &events {
        assert_eq!(e.room, addr(&[0, 0]));
    }
}

#[test]
fn presence_goes_to_the_session_itself() {
    let mut s = connected_server();
    let mut sn = SequenceNumber::new();
    let p = Presence {
        id: "@bob:h".to_string(),
        display_name: Some("Bob".to_string()),
        active: Some(true),
        status_msg: Some("away soon".to_string()),
        presence: PresenceState::Online,
    };
    let (events, errors) = s.on_sync(
        Ok(response(&[], vec![], &[], vec![PresenceEntry::Valid(p), PresenceEntry::Invalid("bad".to_string())], "c")),
        3,
        &mut sn,
    );
    assert_eq!(events.len(), 1);
    assert_eq!(events[0].room, addr(&[0]));
    assert_eq!(events[0].source, Some("@bob:h".to_string()));
    match &events[0].event {
        NetEventKind::Presence(q) => {
            assert_eq!(q.display_name, Some("Bob".to_string()));
            assert_eq!(q.active, Some(true));
            assert_eq!(q.status_msg, Some("away soon".to_string()));
            assert_eq!(q.presence, PresenceState::Online);
        }
        other => panic!("unexpected {:?}", other),
    }
    assert_eq!(errors.errors.len(), 1);
    assert_eq!(errors.errors[0].error, "bad");
    let demux = errors.to_events(8);
    assert_eq!(demux.len(), 1);
    assert_eq!(error_text(&demux[0]), "bad");
    assert_eq!(demux[0].room, addr(&[0]));
}

#[test]
fn error_batch_builds_and_demultiplexes() {
    let mut b = ErrorBatch::new();
    assert!(b.is_empty());
    b.push(addr(&[1]), "x".to_string());
    b.push(addr(&[2]), "y".to_string());
    let evs = b.to_events(5);
    assert_eq!(evs.len(), 2);
    assert_eq!(evs[1].room, addr(&[2]));
    assert_eq!(error_text(&evs[1]), "y");
    let single = ErrorBatch::single(addr(&[3]), "z".to_string());
    assert_eq!(single.errors.len(), 1);
}

#[test]
fn event_kinds_describe_themselves() {
    assert_eq!(NetEventKind::Connected.describe(), "Room connected");
    assert_eq!(NetEventKind::Error("boom".to_string()).describe(), "ERROR: boom");
    let u = roomchat::event::Unknown { ty: "t".to_string(), data: "d".to_string() };
    assert_eq!(NetEventKind::Unknown(u).describe(), "UNKNOWN EVENT: t: d");
    let e = NetEventKind::Invite.to_event(addr(&[4]), 11, None);
    assert_eq!(e.date, 11);
    assert_eq!(e.room, addr(&[4]));
}
