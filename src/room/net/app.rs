use crate::event::{
    concat3, str_to_string, EventView, KindView, Message, NetEvent, NetEventKind, NewRoom,
};
use crate::room::net::matrix::{Conf, Credentials};
use crate::room::net::{ActionKind, NewRoom as NewRoomRequest};
use crate::room::RoomAddress;
use crate::sequence_number::SequenceNumber;
use vstd::prelude::*;

verus! {

/// Period of the sync ticker of a spawned federated room, in milliseconds.
pub const SYNC_PERIOD: u64 = 8024;

/// What `url::Url::parse` makes of a text: the URL as it serialises it, or the
/// text of the parse error.
pub uninterp spec fn url_parse(s: Seq<char>) -> Result<Seq<char>, Seq<char>>;

/// Relies on url::Url::parse (with Url::as_str and the Display of ParseError):
/// the serialised URL, or the error's text.
#[verifier::external_body]
fn parse_url(s: &str) -> (r: Result<String, String>)
    ensures
        match r {
            Ok(u) => url_parse(s@) == Ok::<Seq<char>, Seq<char>>(u@),
            Err(e) => url_parse(s@) == Err::<Seq<char>, Seq<char>>(e@),
        },
{
    match url::Url::parse(s) {
        Ok(u) => Ok(u.as_str().to_owned()),
        Err(e) => Err(e.to_string()),
    }
}

/// The backends that a room can be spawned with.
#[derive(Debug, Clone, Copy, PartialEq, Eq, Structural)]
pub enum Backend {
    Matrix,
}

pub open spec fn backend_of(name: Seq<char>) -> Option<Backend> {
    if name == "matrix"@ {
        Some(Backend::Matrix)
    } else {
        None
    }
}

pub fn parse_backend(name: &str) -> (r: Option<Backend>)
    ensures
        r == backend_of(name@),
{
    proof {
        reveal_strlit("matrix");
    }
    let m = str_to_string("matrix");
    let n = str_to_string(name);
    if n == m {
        Some(Backend::Matrix)
    } else {
        None
    }
}

pub open spec fn no_backend_error() -> Seq<char> {
    "No server type specified! Syntax: <server_type> [...args]"@
}

pub open spec fn matrix_syntax_error() -> Seq<char> {
    "Bad syntax. Syntax: matrix <url> [username [password]]"@
}

pub open spec fn unknown_backend_error(name: Seq<char>) -> Seq<char> {
    "Unknown server type '"@ + name + "'"@
}

/// Where and as whom a spawned federated room connects: the URL, and the
/// user name and password when the tokens give a user name.
pub struct TargetView {
    pub url: Seq<char>,
    pub credentials: Option<(Seq<char>, Seq<char>)>,
}

/// The account that the tokens after the URL name: none without a user name,
/// an empty password without one.
pub open spec fn credentials_of(tokens: Seq<Seq<char>>) -> Option<(Seq<char>, Seq<char>)> {
    if tokens.len() >= 3 {
        Some((tokens[2], if tokens.len() >= 4 { tokens[3] } else { Seq::empty() }))
    } else {
        None
    }
}

/// What spawn tokens ask for, given what the URL parser made of the token
/// after the backend's name (when there is one).
pub open spec fn spawn_target(tokens: Seq<Seq<char>>, url: Result<Seq<char>, Seq<char>>) -> Result<
    TargetView,
    Seq<char>,
> {
    if tokens.len() == 0 {
        Err(no_backend_error())
    } else if backend_of(tokens[0]) is None {
        Err(unknown_backend_error(tokens[0]))
    } else if tokens.len() == 1 {
        Err(matrix_syntax_error())
    } else {
        match url {
            Ok(u) => Ok(TargetView { url: u, credentials: credentials_of(tokens) }),
            Err(e) => Err(e),
        }
    }
}

/// The URL parser's verdict on the token after the backend's name, where there
/// is one.
pub open spec fn url_token_parse(tokens: Seq<Seq<char>>) -> Result<Seq<char>, Seq<char>> {
    if tokens.len() >= 2 {
        url_parse(tokens[1])
    } else {
        Err(Seq::empty())
    }
}

pub open spec fn conf_matches(c: Conf, t: TargetView) -> bool {
    &&& c.url@ == t.url
    &&& c.sync_period == SYNC_PERIOD
    &&& match (c.credentials, t.credentials) {
        (None, None) => true,
        (Some(cr), Some((u, p))) => cr.username@ == u && cr.password@ == p,
        _ => false,
    }
}

fn credentials_from(tokens: &Vec<String>) -> (r: Option<Credentials>)
    ensures
        match (r, credentials_of(tokens.deep_view())) {
            (None, None) => true,
            (Some(cr), Some((u, p))) => cr.username@ == u && cr.password@ == p,
            _ => false,
        },
{
    if tokens.len() >= 3 {
        let username = tokens[2].clone();
        let password = if tokens.len() >= 4 {
            tokens[3].clone()
        } else {
            String::new()
        };
        Some(Credentials { username, password })
    } else {
        None
    }
}

pub open spec fn text_result_view(r: Result<String, String>) -> Result<Seq<char>, Seq<char>> {
    match r {
        Ok(u) => Ok(u@),
        Err(e) => Err(e@),
    }
}

/// Reads spawn tokens (`matrix <url> [username [password]]`), given the URL
/// parser's result for the token after the backend's name.
pub fn spawn_conf_from(tokens: &Vec<String>, url: Result<String, String>) -> (r: Result<Conf, String>)
    ensures
        match (r, spawn_target(tokens.deep_view(), text_result_view(url))) {
            (Ok(c), Ok(t)) => conf_matches(c, t),
            (Err(e), Err(s)) => e@ == s,
            _ => false,
        },
{
    proof {
        reveal_strlit("No server type specified! Syntax: <server_type> [...args]");
        reveal_strlit("Bad syntax. Syntax: matrix <url> [username [password]]");
        reveal_strlit("Unknown server type '");
        reveal_strlit("'");
    }
    if tokens.len() == 0 {
        return Err(str_to_string("No server type specified! Syntax: <server_type> [...args]"));
    }
    match parse_backend(tokens[0].as_str()) {
        None => Err(concat3("Unknown server type '", tokens[0].as_str(), "'")),
        Some(Backend::Matrix) => {
            if tokens.len() == 1 {
                return Err(str_to_string("Bad syntax. Syntax: matrix <url> [username [password]]"));
            }
            match url {
                Ok(u) => Ok(Conf { url: u, credentials: credentials_from(tokens), sync_period: SYNC_PERIOD }),
                Err(e) => Err(e),
            }
        },
    }
}

/// Reads spawn tokens; the URL goes through the URL parser.
pub fn spawn_conf(tokens: &Vec<String>) -> (r: Result<Conf, String>)
    ensures
        match (r, spawn_target(tokens.deep_view(), url_token_parse(tokens.deep_view()))) {
            (Ok(c), Ok(t)) => conf_matches(c, t),
            (Err(e), Err(s)) => e@ == s,
            _ => false,
        },
{
    let url = if tokens.len() >= 2 {
        parse_url(tokens[1].as_str())
    } else {
        Err(String::new())
    };
    spawn_conf_from(tokens, url)
}


pub open spec fn error_view(room: Seq<usize>, date: usize, msg: Seq<char>) -> EventView {
    EventView { date, room, source: None, kind: KindView::Error(msg) }
}

pub open spec fn connect_error() -> Seq<char> {
    "Cannot connect to the main room (it is a local room)"@
}

pub open spec fn disconnect_error() -> Seq<char> {
    "Cannot disconnect from main room (it is a local room)"@
}

pub open spec fn sync_error() -> Seq<char> {
    "The main room is local: it has nothing to sync"@
}

pub open spec fn exhausted_error() -> Seq<char> {
    "No room number is left"@
}

pub open spec fn me() -> Seq<char> {
    "Me"@
}

/// A room that the root session has spawned: the session that serves it is to
/// be started at `address` with `conf` and sent `connect` before anything else.
#[derive(Debug)]
pub struct Spawned {
    pub address: RoomAddress,
    pub alias: String,
    pub conf: Conf,
}

/// What a session does with one action: the events it emits, in order, and
/// the room it spawns, if any.
#[derive(Debug)]
pub struct Step {
    pub events: Vec<NetEvent>,
    pub spawn: Option<Spawned>,
}

/// The root session: a local room with no backend, which echoes what is
/// published in it and spawns the other rooms.
#[derive(Debug)]
pub struct App {
    id: RoomAddress,
}

pub(crate) fn error_event(room: &RoomAddress, date: usize, msg: String) -> (r: NetEvent)
    ensures
        r@ == error_view(room@, date, msg@),
{
    NetEventKind::Error(msg).to_event(room.copy(), date, None)
}

impl App {
    pub closed spec fn id(&self) -> Seq<usize> {
        self.id@
    }

    pub fn new(id: RoomAddress) -> (r: App)
        ensures
            r.id() == id@,
    {
        App { id }
    }

    /// Handles one action at time `date`, numbering a spawned room with
    /// `room_sn`.
    pub fn process_at(&self, action: ActionKind, date: usize, room_sn: &mut SequenceNumber) -> (r: Step)
        ensures
            match action {
                ActionKind::Connect => r.events@.len() == 1 && r.events@[0]@ == error_view(self.id(), date, connect_error())
                    && r.spawn is None && *final(room_sn) == *old(room_sn),
                ActionKind::Disconnect => r.events@.len() == 1 && r.events@[0]@ == error_view(self.id(), date, disconnect_error())
                    && r.spawn is None && *final(room_sn) == *old(room_sn),
                ActionKind::Sync => r.events@.len() == 1 && r.events@[0]@ == error_view(self.id(), date, sync_error())
                    && r.spawn is None && *final(room_sn) == *old(room_sn),
                ActionKind::Publish(p) => r.events@.len() == 1 && r.events@[0]@ == (EventView {
                    date,
                    room: self.id(),
                    source: Some(me()),
                    kind: KindView::Message(p@),
                }) && r.spawn is None && *final(room_sn) == *old(room_sn),
                ActionKind::NewRoom(req) => match spawn_target(req.command.deep_view(), url_token_parse(req.command.deep_view())) {
                    Err(e) => r.events@.len() == 1 && r.events@[0]@ == error_view(self.id(), date, e)
                        && r.spawn is None && *final(room_sn) == *old(room_sn),
                    Ok(t) => if old(room_sn).upcoming() < usize::MAX {
                        let child = self.id().push(old(room_sn).upcoming() as usize);
                        &&& r.events@.len() == 1
                        &&& r.events@[0]@ == (EventView {
                            date,
                            room: self.id(),
                            source: None,
                            kind: KindView::NewRoom(child, req.alias@),
                        })
                        &&& r.spawn matches Some(s) && s.address@ == child && s.alias@ == req.alias@ && conf_matches(s.conf, t)
                        &&& final(room_sn).upcoming() == old(room_sn).upcoming() + 1
                    } else {
                        r.events@.len() == 1 && r.events@[0]@ == error_view(self.id(), date, exhausted_error())
                            && r.spawn is None
                    },
                },
            },
    {
        proof {
            reveal_strlit("Cannot connect to the main room (it is a local room)");
            reveal_strlit("Cannot disconnect from main room (it is a local room)");
            reveal_strlit("The main room is local: it has nothing to sync");
            reveal_strlit("No room number is left");
            reveal_strlit("Me");
        }
        let mut events: Vec<NetEvent> = Vec::new();
        match action {
            ActionKind::Connect => {
                let msg = str_to_string("Cannot connect to the main room (it is a local room)");
                events.push(error_event(&self.id, date, msg));
                Step { events, spawn: None }
            },
            ActionKind::Disconnect => {
                let msg = str_to_string("Cannot disconnect from main room (it is a local room)");
                events.push(error_event(&self.id, date, msg));
                Step { events, spawn: None }
            },
            ActionKind::Sync => {
                let msg = str_to_string("The main room is local: it has nothing to sync");
                events.push(error_event(&self.id, date, msg));
                Step { events, spawn: None }
            },
            ActionKind::Publish(packet) => {
                let ev = NetEventKind::Message(Message { content: packet });
                events.push(ev.to_event(self.id.copy(), date, Some(str_to_string("Me"))));
                Step { events, spawn: None }
            },
            ActionKind::NewRoom(req) => {
                let NewRoomRequest { alias, command } = req;
                match spawn_conf(&command) {
                    Err(e) => {
                        events.push(error_event(&self.id, date, e));
                        Step { events, spawn: None }
                    },
                    Ok(conf) => match room_sn.next() {
                        None => {
                            let msg = str_to_string("No room number is left");
                            events.push(error_event(&self.id, date, msg));
                            Step { events, spawn: None }
                        },
                        Some(n) => {
                            let address = RoomAddress::child_of(&self.id, n);
                            let ev = NetEventKind::NewRoom(NewRoom { id: address.copy(), alias: alias.clone() });
                            events.push(ev.to_event(self.id.copy(), date, None));
                            Step { events, spawn: Some(Spawned { address, alias, conf }) }
                        },
                    },
                }
            },
        }
    }

}

} // verus!
