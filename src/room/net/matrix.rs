use crate::event::{concat2, concat3, push_char, str_to_string, EventView, KindView, NetEvent, NetEventKind, NewRoom};
use crate::room::net::app::{error_event, error_view, exhausted_error};
use crate::room::address::address_text;
use crate::room::net::sync::{
    event_views, find_name, find_room, lemma_add_fresh, lemma_fresh_index, lemma_sync_keeps_table_one_to_one, reconcile,
    rooms_wf, sync_spec, ErrorBatch, ErrorView, LinkView, Rooms, SyncResponse,
};
use crate::room::net::{Action, ActionKind, NewRoom as NewRoomRequest};
use crate::room::RoomAddress;
use crate::sequence_number::SequenceNumber;
use vstd::prelude::*;
use vstd::string::StrSliceExecFns;

verus! {

#[derive(Debug)]
pub struct Credentials {
    pub username: String,
    pub password: String,
}

/// How to reach a federated backend: its URL (in the form the URL parser
/// writes it), the account to log in with (a guest account when `None`), and
/// the period of the sync ticker in milliseconds.
#[derive(Debug)]
pub struct Conf {
    pub url: String,
    pub credentials: Option<Credentials>,
    pub sync_period: u64,
}

pub open spec fn credentials_view(c: Option<Credentials>) -> Option<(Seq<char>, Seq<char>)> {
    match c {
        Some(cr) => Some((cr.username@, cr.password@)),
        None => None,
    }
}

fn copy_credentials(c: &Option<Credentials>) -> (r: Option<Credentials>)
    ensures
        credentials_view(r) == credentials_view(*c),
{
    match c {
        Some(cr) => Some(Credentials { username: cr.username.clone(), password: cr.password.clone() }),
        None => None,
    }
}

/// A room identifier of the backend as `ruma_identifiers::RoomId` reads it: the
/// identifier as it writes it back, or the text of the error.
pub uninterp spec fn room_id_parse(s: Seq<char>) -> Result<Seq<char>, Seq<char>>;

/// Relies on ruma_identifiers::RoomId's TryFrom<&str> (with its Display, and
/// the Debug of its Error): the identifier written back, or the error's text.
#[verifier::external_body]
fn parse_room_id(s: &str) -> (r: Result<String, String>)
    ensures
        match r {
            Ok(v) => room_id_parse(s@) == Ok::<Seq<char>, Seq<char>>(v@),
            Err(e) => room_id_parse(s@) == Err::<Seq<char>, Seq<char>>(e@),
        },
{
    match <ruma_identifiers::RoomId as std::convert::TryFrom<&str>>::try_from(s) {
        Ok(id) => Ok(id.to_string()),
        Err(e) => Err(format!("{:?}", e)),
    }
}

/// What a session asks the backend to do; whoever runs the session performs
/// the call and hands the outcome back to the matching `on_...` method.
#[derive(Debug)]
pub enum Call {
    /// Log in (as a guest without credentials); outcome to `on_login`.
    LogIn { url: String, credentials: Option<Credentials> },
    /// Start the sync ticker, which sends `sync` every `period` milliseconds.
    StartTicker { period: u64 },
    /// Stop the sync ticker and drop the connection.
    Stop,
    /// Join a backend room; outcome to `on_join`.
    Join { room: RoomAddress, name: String },
    /// Leave a backend room; outcome to `on_leave`.
    Leave { room: RoomAddress, name: String },
    /// Send a text message with a transaction number; outcome to `on_send`.
    Send { room: RoomAddress, name: String, txn_id: usize, body: String },
    /// Ask for what happened since the cursor; outcome to `on_sync`.
    Sync { since: Option<String> },
}

/// What a session does with an action or an outcome: events to emit, errors to
/// report (each as an `error` event at its room, after the events), and at most
/// one call to the backend.
#[derive(Debug)]
pub struct ServerStep {
    pub events: Vec<NetEvent>,
    pub errors: ErrorBatch,
    pub call: Option<Call>,
}

/// The session of a federated backend. Its own address stands for the backend
/// itself; the rooms of the backend it has met are its children.
#[derive(Debug)]
pub struct Server {
    id: RoomAddress,
    conf: Conf,
    last_sync: Option<String>,
    connected: bool,
    rooms: Rooms,
    msg_sn: SequenceNumber,
}

pub open spec fn first_word(s: Seq<char>) -> Seq<char>
    decreases s.len(),
{
    if s.len() == 0 {
        s
    } else if s[0] == ' ' {
        Seq::empty()
    } else {
        seq![s[0]] + first_word(s.subrange(1, s.len() as int))
    }
}

pub open spec fn unsupported_command(line: Seq<char>) -> Seq<char> {
    "Unsupported command: "@ + first_word(line)
}

pub open spec fn no_room_id_error() -> Seq<char> {
    "Syntax: <matrix room id>"@
}

pub open spec fn bad_room_id(e: Seq<char>) -> Seq<char> {
    "Bad matrix room id: "@ + e
}

pub open spec fn already_opened(name: Seq<char>) -> Seq<char> {
    "Room '"@ + name + "' is already opened"@
}

pub open spec fn unknown_room_error(room: Seq<usize>) -> Seq<char> {
    "Unknown room "@ + address_text(room)
}

pub open spec fn not_connected_error() -> Seq<char> {
    "Not connected to the server"@
}

pub open spec fn leaf_spawn_error() -> Seq<char> {
    "A matrix room cannot spawn another room"@
}

pub open spec fn leaf_sync_error() -> Seq<char> {
    "A matrix room cannot sync by itself"@
}

pub open spec fn login_error(url: Seq<char>, e: Seq<char>) -> Seq<char> {
    "Unable to connect to server '"@ + url + "': '"@ + e + "'"@
}

pub open spec fn join_error(name: Seq<char>, e: Seq<char>) -> Seq<char> {
    "Failed to join room '"@ + name + "': '"@ + e + "'"@
}

pub open spec fn leave_error(name: Seq<char>, e: Seq<char>) -> Seq<char> {
    "Failed to leave room '"@ + name + "': '"@ + e + "'"@
}

fn first_word_of(line: &str) -> (r: String)
    ensures
        r@ == first_word(line@),
{
    let n = line.unicode_len();
    let mut r = String::new();
    let mut i: usize = 0;
    assert(line@.subrange(0, n as int) =~= line@);
    assert(r@ + first_word(line@) =~= first_word(line@));
    while i < n
        invariant
            n == line@.len(),
            i <= n,
            first_word(line@) == r@ + first_word(line@.subrange(i as int, n as int)),
            forall|k: int| 0 <= k < i ==> line@[k] != ' ',
        decreases n - i,
    {
        let c = line.get_char(i);
        let ghost rest = line@.subrange(i as int, n as int);
        assert(rest[0] == c);
        if c == ' ' {
            assert(r@ + Seq::<char>::empty() =~= r@);
            return r;
        }
        assert(rest.subrange(1, rest.len() as int) =~= line@.subrange(i + 1, n as int));
        let ghost old_r = r@;
        push_char(&mut r, c);
        assert(old_r + (seq![c] + first_word(line@.subrange(i + 1, n as int))) =~= r@ + first_word(line@.subrange(i + 1, n as int)));
        i = i + 1;
    }
    assert(r@ + first_word(line@.subrange(n as int, n as int)) =~= r@);
    r
}

/// `'` + `a` + `': '` + `b` + `'` after `head`.
fn quoted_pair(head: &str, a: &str, b: &str) -> (r: String)
    ensures
        r@ == head@ + a@ + "': '"@ + b@ + "'"@,
{
    let mut r = concat3(head, a, "': '");
    r.append(b);
    r.append("'");
    r
}

pub open spec fn step_is(s: ServerStep, events: Seq<EventView>, errors: Seq<ErrorView>) -> bool {
    event_views(s.events@) == events && s.errors@ == errors
}

impl Server {
    pub closed spec fn id(&self) -> Seq<usize> {
        self.id@
    }

    pub closed spec fn url(&self) -> Seq<char> {
        self.conf.url@
    }

    pub closed spec fn credentials(&self) -> Option<(Seq<char>, Seq<char>)> {
        credentials_view(self.conf.credentials)
    }

    pub closed spec fn sync_period(&self) -> u64 {
        self.conf.sync_period
    }

    /// The cursor of the last sync that succeeded.
    pub closed spec fn last_sync(&self) -> Option<Seq<char>> {
        self.last_sync.deep_view()
    }

    pub closed spec fn connected(&self) -> bool {
        self.connected
    }

    /// Which backend room each child index stands for.
    pub closed spec fn rooms(&self) -> Seq<LinkView> {
        self.rooms@
    }

    /// The next transaction number of an outgoing message.
    pub closed spec fn next_txn(&self) -> nat {
        self.msg_sn.upcoming()
    }

    /// The session's own address.
    pub fn address(&self) -> (r: RoomAddress)
        ensures
            r@ == self.id(),
    {
        self.id.copy()
    }

    pub fn new(id: RoomAddress, conf: Conf) -> (r: Server)
        ensures
            r.id() == id@,
            r.url() == conf.url@,
            r.credentials() == credentials_view(conf.credentials),
            r.sync_period() == conf.sync_period,
            r.last_sync() is None,
            !r.connected(),
            r.rooms() == Seq::<LinkView>::empty(),
            r.next_txn() == 0,
    {
        Server {
            id,
            conf,
            last_sync: None,
            connected: false,
            rooms: Rooms::new(),
            msg_sn: SequenceNumber::new(),
        }
    }
}

/// The parts of a session that stay as they are, but for the connection state.
pub open spec fn same_tables(a: Server, b: Server) -> bool {
    &&& b.id() == a.id()
    &&& b.url() == a.url()
    &&& b.credentials() == a.credentials()
    &&& b.sync_period() == a.sync_period()
    &&& b.last_sync() == a.last_sync()
    &&& b.rooms() == a.rooms()
    &&& b.next_txn() == a.next_txn()
}

pub open spec fn unchanged(a: Server, b: Server) -> bool {
    same_tables(a, b) && b.connected() == a.connected()
}

/// An action addressed to the session's own room, that is to the backend.
pub open spec fn own_action_post(
    s0: Server,
    s1: Server,
    sn0: SequenceNumber,
    sn1: SequenceNumber,
    kind: ActionKind,
    date: usize,
    r: ServerStep,
) -> bool {
    let id = s0.id();
    match kind {
        ActionKind::Connect => {
            &&& step_is(r, seq![], seq![])
            &&& r.call matches Some(Call::LogIn { url, credentials }) && url@ == s0.url() && credentials_view(credentials) == s0.credentials()
            &&& unchanged(s0, s1) && sn1 == sn0
        },
        ActionKind::Disconnect => {
            &&& step_is(r, seq![], seq![])
            &&& r.call matches Some(Call::Stop)
            &&& same_tables(s0, s1) && !s1.connected() && sn1 == sn0
        },
        ActionKind::Publish(line) => {
            &&& step_is(r, seq![error_view(id, date, unsupported_command(line@))], seq![])
            &&& r.call is None && unchanged(s0, s1) && sn1 == sn0
        },
        ActionKind::Sync => {
            &&& step_is(r, seq![], seq![])
            &&& if s0.connected() {
                r.call matches Some(Call::Sync { since }) && since.deep_view() == s0.last_sync()
            } else {
                r.call is None
            }
            &&& unchanged(s0, s1) && sn1 == sn0
        },
        ActionKind::NewRoom(req) => {
            &&& r.call is None
            &&& s1.id() == s0.id() && s1.url() == s0.url() && s1.credentials() == s0.credentials()
            &&& s1.sync_period() == s0.sync_period() && s1.last_sync() == s0.last_sync()
            &&& s1.next_txn() == s0.next_txn() && s1.connected() == s0.connected()
            &&& if req.command@.len() == 0 {
                step_is(r, seq![], seq![(id, no_room_id_error())]) && s1.rooms() == s0.rooms() && sn1 == sn0
            } else {
                match room_id_parse(req.command@[0]@) {
                    Err(e) => step_is(r, seq![], seq![(id, bad_room_id(e))]) && s1.rooms() == s0.rooms() && sn1 == sn0,
                    Ok(name) => match find_room(s0.rooms(), name) {
                        Some(_) => step_is(r, seq![], seq![(id, already_opened(name))]) && s1.rooms() == s0.rooms() && sn1 == sn0,
                        None => if sn0.upcoming() < usize::MAX {
                            let ix = sn0.upcoming() as usize;
                            &&& step_is(r, seq![EventView { date, room: id, source: None, kind: KindView::NewRoom(id.push(ix), req.alias@) }], seq![])
                            &&& find_name(s0.rooms(), ix) is None
                            &&& s1.rooms() == s0.rooms().push((name, ix))
                            &&& sn1.upcoming() == sn0.upcoming() + 1
                        } else {
                            step_is(r, seq![], seq![(id, exhausted_error())]) && s1.rooms() == s0.rooms() && sn1 == sn0
                        },
                    },
                }
            }
        },
    }
}

/// Whether `room` is a child of the session that it knows of.
pub open spec fn known_child(s: Server, room: Seq<usize>) -> bool {
    &&& room.len() == s.id().len() + 1
    &&& room.subrange(0, s.id().len() as int) == s.id()
    &&& find_name(s.rooms(), room.last()) is Some
}

/// An action addressed to another room than the session's own.
pub open spec fn child_action_post(
    s0: Server,
    s1: Server,
    room: Seq<usize>,
    kind: ActionKind,
    r: ServerStep,
) -> bool {
    if !known_child(s0, room) {
        step_is(r, seq![], seq![(s0.id(), unknown_room_error(room))]) && r.call is None && unchanged(s0, s1)
    } else {
        let name = find_name(s0.rooms(), room.last())->0;
        match kind {
            ActionKind::NewRoom(_) => step_is(r, seq![], seq![(room, leaf_spawn_error())]) && r.call is None && unchanged(s0, s1),
            ActionKind::Sync => step_is(r, seq![], seq![(room, leaf_sync_error())]) && r.call is None && unchanged(s0, s1),
            _ => if !s0.connected() {
                step_is(r, seq![], seq![(room, not_connected_error())]) && r.call is None && unchanged(s0, s1)
            } else {
                match kind {
                    ActionKind::Connect => step_is(r, seq![], seq![]) && unchanged(s0, s1)
                        && (r.call matches Some(Call::Join { room: to, name: n }) && to@ == room && n@ == name),
                    ActionKind::Disconnect => step_is(r, seq![], seq![]) && unchanged(s0, s1)
                        && (r.call matches Some(Call::Leave { room: to, name: n }) && to@ == room && n@ == name),
                    ActionKind::Publish(msg) => if s0.next_txn() < usize::MAX {
                        &&& step_is(r, seq![], seq![])
                        &&& r.call matches Some(Call::Send { room: to, name: n, txn_id, body })
                            && to@ == room && n@ == name && txn_id == s0.next_txn() && body@ == msg@
                        &&& s1.connected() == s0.connected() && s1.id() == s0.id() && s1.url() == s0.url()
                        &&& s1.credentials() == s0.credentials() && s1.sync_period() == s0.sync_period()
                        &&& s1.last_sync() == s0.last_sync() && s1.rooms() == s0.rooms()
                        &&& s1.next_txn() == s0.next_txn() + 1
                    } else {
                        step_is(r, seq![], seq![(room, exhausted_error())]) && r.call is None && unchanged(s0, s1)
                    },
                    _ => true,
                }
            },
        }
    }
}

fn empty_step() -> (r: ServerStep)
    ensures
        step_is(r, seq![], seq![]),
        r.call is None,
{
    let r = ServerStep { events: Vec::new(), errors: ErrorBatch::new(), call: None };
    assert(event_views(r.events@) =~= Seq::<EventView>::empty());
    r
}

fn error_step(room: RoomAddress, msg: String) -> (r: ServerStep)
    ensures
        step_is(r, seq![], seq![(room@, msg@)]),
        r.call is None,
{
    let r = ServerStep { events: Vec::new(), errors: ErrorBatch::single(room, msg), call: None };
    assert(event_views(r.events@) =~= Seq::<EventView>::empty());
    r
}

fn call_step(call: Call) -> (r: ServerStep)
    ensures
        step_is(r, seq![], seq![]),
        r.call == Some(call),
{
    let r = ServerStep { events: Vec::new(), errors: ErrorBatch::new(), call: Some(call) };
    assert(event_views(r.events@) =~= Seq::<EventView>::empty());
    r
}

fn event_step(ev: NetEvent) -> (r: ServerStep)
    ensures
        step_is(r, seq![ev@], seq![]),
        r.call is None,
{
    let mut events = Vec::new();
    events.push(ev);
    let r = ServerStep { events, errors: ErrorBatch::new(), call: None };
    assert(event_views(r.events@) =~= seq![ev@]);
    r
}

impl Server {
    fn process_server_action(&mut self, kind: ActionKind, date: usize, room_sn: &mut SequenceNumber) -> (r: ServerStep)
        requires
            rooms_wf(old(self).rooms(), old(room_sn).upcoming()),
        ensures
            own_action_post(*old(self), *final(self), *old(room_sn), *final(room_sn), kind, date, r),
            rooms_wf(final(self).rooms(), final(room_sn).upcoming()),
    {
        proof {
            reveal_strlit("Unsupported command: ");
            reveal_strlit("Syntax: <matrix room id>");
            reveal_strlit("Bad matrix room id: ");
            reveal_strlit("Room '");
            reveal_strlit("' is already opened");
            reveal_strlit("No room number is left");
        }
        match kind {
            ActionKind::Connect => call_step(Call::LogIn {
                url: self.conf.url.clone(),
                credentials: copy_credentials(&self.conf.credentials),
            }),
            ActionKind::Disconnect => {
                self.connected = false;
                call_step(Call::Stop)
            },
            ActionKind::Publish(line) => {
                let msg = concat2("Unsupported command: ", first_word_of(line.as_str()).as_str());
                event_step(error_event(&self.id, date, msg))
            },
            ActionKind::Sync => {
                if self.connected {
                    call_step(Call::Sync { since: self.last_sync.clone() })
                } else {
                    empty_step()
                }
            },
            ActionKind::NewRoom(req) => {
                let NewRoomRequest { alias, command } = req;
                if command.len() == 0 {
                    return error_step(self.id.copy(), str_to_string("Syntax: <matrix room id>"));
                }
                match parse_room_id(command[0].as_str()) {
                    Err(e) => error_step(self.id.copy(), concat2("Bad matrix room id: ", e.as_str())),
                    Ok(name) => match self.rooms.find(name.as_str()) {
                        Some(_) => error_step(self.id.copy(), concat3("Room '", name.as_str(), "' is already opened")),
                        None => match room_sn.next() {
                            None => error_step(self.id.copy(), str_to_string("No room number is left")),
                            Some(ix) => {
                                proof {
                                    lemma_fresh_index(self.rooms@, old(room_sn).upcoming(), ix);
                                    lemma_add_fresh(self.rooms@, old(room_sn).upcoming(), name@);
                                }
                                let child = RoomAddress::child_of(&self.id, ix);
                                self.rooms.add(name, ix);
                                let ev = NetEventKind::NewRoom(NewRoom { id: child, alias }).to_event(self.id.copy(), date, None);
                                event_step(ev)
                            },
                        },
                    },
                }
            },
        }
    }
}

impl Server {
    fn process_sub_room_action(&mut self, room: RoomAddress, kind: ActionKind) -> (r: ServerStep)
        ensures
            child_action_post(*old(self), *final(self), room@, kind, r),
    {
        proof {
            reveal_strlit("Unknown room ");
            reveal_strlit("A matrix room cannot spawn another room");
            reveal_strlit("A matrix room cannot sync by itself");
            reveal_strlit("Not connected to the server");
            reveal_strlit("No room number is left");
        }
        if !room.is_child_of(&self.id) {
            return error_step(self.id.copy(), concat2("Unknown room ", room.to_text().as_str()));
        }
        let ix = match room.last_index() {
            Some(ix) => ix,
            None => {
                return error_step(self.id.copy(), concat2("Unknown room ", room.to_text().as_str()));
            },
        };
        let name = match self.rooms.name_of(ix) {
            Some(n) => n,
            None => {
                return error_step(self.id.copy(), concat2("Unknown room ", room.to_text().as_str()));
            },
        };
        match kind {
            ActionKind::NewRoom(_) => error_step(room, str_to_string("A matrix room cannot spawn another room")),
            ActionKind::Sync => error_step(room, str_to_string("A matrix room cannot sync by itself")),
            ActionKind::Connect => if !self.connected {
                error_step(room, str_to_string("Not connected to the server"))
            } else {
                call_step(Call::Join { room, name })
            },
            ActionKind::Disconnect => if !self.connected {
                error_step(room, str_to_string("Not connected to the server"))
            } else {
                call_step(Call::Leave { room, name })
            },
            ActionKind::Publish(msg) => if !self.connected {
                error_step(room, str_to_string("Not connected to the server"))
            } else {
                match self.msg_sn.next() {
                    Some(txn_id) => call_step(Call::Send { room, name, txn_id, body: msg }),
                    None => error_step(room, str_to_string("No room number is left")),
                }
            },
        }
    }

    /// Handles one action at time `date`: an action for the session's own
    /// address concerns the backend, one for a child concerns that room.
    /// Rooms spawned on request are numbered with `room_sn`.
    pub fn process_at(&mut self, action: Action, date: usize, room_sn: &mut SequenceNumber) -> (r: ServerStep)
        requires
            rooms_wf(old(self).rooms(), old(room_sn).upcoming()),
        ensures
            rooms_wf(final(self).rooms(), final(room_sn).upcoming()),
            action.room@ == old(self).id() ==> own_action_post(*old(self), *final(self), *old(room_sn), *final(room_sn), action.action, date, r),
            action.room@ != old(self).id() ==> child_action_post(*old(self), *final(self), action.room@, action.action, r)
                && *final(room_sn) == *old(room_sn),
    {
        let Action { room, action } = action;
        if room == self.id {
            self.process_server_action(action, date, room_sn)
        } else {
            self.process_sub_room_action(room, action)
        }
    }

    /// The outcome of a log-in: on success the session is connected and starts
    /// its sync ticker; on failure it reports the backend and the cause, and
    /// stays disconnected.
    pub fn on_login(&mut self, result: Result<(), String>, date: usize) -> (r: ServerStep)
        ensures
            same_tables(*old(self), *final(self)),
            match result {
                Ok(_) => final(self).connected() && step_is(r, seq![], seq![])
                    && r.call == Some(Call::StartTicker { period: old(self).sync_period() }),
                Err(e) => !final(self).connected() && r.call is None
                    && step_is(r, seq![error_view(old(self).id(), date, login_error(old(self).url(), e@))], seq![]),
            },
    {
        proof {
            reveal_strlit("Unable to connect to server '");
            reveal_strlit("': '");
            reveal_strlit("'");
        }
        match result {
            Ok(_) => {
                self.connected = true;
                call_step(Call::StartTicker { period: self.conf.sync_period })
            },
            Err(e) => {
                self.connected = false;
                let msg = quoted_pair("Unable to connect to server '", self.conf.url.as_str(), e.as_str());
                event_step(error_event(&self.id, date, msg))
            },
        }
    }

    /// The outcome of joining the backend room `name`, which child `room` stands for.
    pub fn on_join(&self, room: RoomAddress, name: &str, result: Result<(), String>, date: usize) -> (r: ServerStep)
        ensures
            r.call is None,
            match result {
                Ok(_) => step_is(r, seq![EventView { date, room: room@, source: None, kind: KindView::Connected }], seq![]),
                Err(e) => step_is(r, seq![error_view(room@, date, join_error(name@, e@))], seq![]),
            },
    {
        proof {
            reveal_strlit("Failed to join room '");
            reveal_strlit("': '");
            reveal_strlit("'");
        }
        match result {
            Ok(_) => event_step(NetEventKind::Connected.to_event(room, date, None)),
            Err(e) => {
                let msg = quoted_pair("Failed to join room '", name, e.as_str());
                event_step(error_event(&room, date, msg))
            },
        }
    }

    /// The outcome of leaving the backend room `name`, which child `room` stands for.
    pub fn on_leave(&self, room: RoomAddress, name: &str, result: Result<(), String>, date: usize) -> (r: ServerStep)
        ensures
            r.call is None,
            match result {
                Ok(_) => step_is(r, seq![EventView { date, room: room@, source: None, kind: KindView::Disconnected }], seq![]),
                Err(e) => step_is(r, seq![error_view(room@, date, leave_error(name@, e@))], seq![]),
            },
    {
        proof {
            reveal_strlit("Failed to leave room '");
            reveal_strlit("': '");
            reveal_strlit("'");
        }
        match result {
            Ok(_) => event_step(NetEventKind::Disconnected.to_event(room, date, None)),
            Err(e) => {
                let msg = quoted_pair("Failed to leave room '", name, e.as_str());
                event_step(error_event(&room, date, msg))
            },
        }
    }

    /// The outcome of sending a message in child `room`: nothing on success,
    /// the cause against that room on failure.
    pub fn on_send(&self, room: RoomAddress, result: Result<(), String>) -> (r: ServerStep)
        ensures
            r.call is None,
            match result {
                Ok(_) => step_is(r, seq![], seq![]),
                Err(e) => step_is(r, seq![], seq![(room@, e@)]),
            },
    {
        match result {
            Ok(_) => empty_step(),
            Err(e) => error_step(room, e),
        }
    }

    /// The outcome of a sync request, reconciled at time `date`. A failed
    /// request leaves the cursor and the tables as they were and yields one
    /// error against the session's own room; an answer is reconciled (see
    /// `sync_spec`) and its cursor becomes the stored one.
    pub fn on_sync(&mut self, result: Result<SyncResponse, String>, date: usize, room_sn: &mut SequenceNumber) -> (r: (
        Vec<NetEvent>,
        ErrorBatch,
    ))
        requires
            rooms_wf(old(self).rooms(), old(room_sn).upcoming()),
        ensures
            rooms_wf(final(self).rooms(), final(room_sn).upcoming()),
            final(self).id() == old(self).id(),
            final(self).url() == old(self).url(),
            final(self).credentials() == old(self).credentials(),
            final(self).sync_period() == old(self).sync_period(),
            final(self).connected() == old(self).connected(),
            final(self).next_txn() == old(self).next_txn(),
            match result {
                Err(e) => {
                    &&& r.0@.len() == 0
                    &&& r.1@ == seq![(old(self).id(), e@)]
                    &&& final(self).last_sync() == old(self).last_sync()
                    &&& final(self).rooms() == old(self).rooms()
                    &&& *final(room_sn) == *old(room_sn)
                },
                Ok(resp) => {
                    let s = sync_spec(old(self).rooms(), old(room_sn).upcoming(), old(self).id(), date, resp@);
                    &&& event_views(r.0@) == s.tally.events
                    &&& r.1@ == s.tally.errors
                    &&& final(self).rooms() == s.rooms
                    &&& final(room_sn).upcoming() == s.next
                    &&& final(self).last_sync() == Some(resp.next_batch@)
                },
            },
    {
        match result {
            Err(e) => (Vec::new(), ErrorBatch::single(self.id.copy(), e)),
            Ok(resp) => {
                proof {
                    lemma_sync_keeps_table_one_to_one(self.rooms@, room_sn.upcoming(), self.id@, date, resp@);
                }
                let (events, errors) = reconcile(&mut self.rooms, room_sn, &self.id, date, &resp);
                self.last_sync = Some(resp.next_batch);
                (events, errors)
            },
        }
    }
}

} // verus!
