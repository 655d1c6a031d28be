use crate::room::net::NewRoom as NewRoomRequest;
use crate::room::RoomAddress;
use vstd::prelude::*;

verus! {

/// A message published in a room.
#[derive(Debug, Clone)]
pub struct Message {
    pub content: String,
}

/// An event that the backend sent and that this client does not interpret.
#[derive(Debug, Clone)]
pub struct Unknown {
    pub ty: String,
    pub data: String,
}

#[derive(Debug, Clone, Copy, PartialEq, Eq, Structural)]
pub enum PresenceState {
    Offline,
    Online,
    Unavailable,
}

/// Presence of a user of the backend: account-wide, not tied to one room.
#[derive(Debug, Clone)]
pub struct Presence {
    pub id: String,
    pub display_name: Option<String>,
    pub active: Option<bool>,
    pub status_msg: Option<String>,
    pub presence: PresenceState,
}

/// A room that a session has spawned. The channel that reaches it is attached
/// by whoever runs the session.
#[derive(Debug, Clone)]
pub struct NewRoom {
    pub id: RoomAddress,
    pub alias: String,
}

#[derive(Debug, Clone)]
pub enum NetEventKind {
    Connected,
    Disconnected,
    Invite,
    Message(Message),
    NewRoom(NewRoom),
    Presence(Presence),
    Error(String),
    Unknown(Unknown),
}

/// An event emitted by a room session: when, by which room, on whose behalf.
#[derive(Debug)]
pub struct NetEvent {
    pub date: usize,
    pub room: RoomAddress,
    pub source: Option<String>,
    pub event: NetEventKind,
}

/// What a presence update says, as values.
pub struct PresenceFields {
    pub id: Seq<char>,
    pub display_name: Option<Seq<char>>,
    pub active: Option<bool>,
    pub status_msg: Option<Seq<char>>,
    pub state: PresenceState,
}

pub open spec fn presence_view(p: Presence) -> PresenceFields {
    PresenceFields {
        id: p.id@,
        display_name: p.display_name.deep_view(),
        active: p.active,
        status_msg: p.status_msg.deep_view(),
        state: p.presence,
    }
}

/// A copy of an optional text.
pub(crate) fn copy_text(o: &Option<String>) -> (r: Option<String>)
    ensures
        r.deep_view() == o.deep_view(),
{
    match o {
        Some(s) => Some(s.clone()),
        None => None,
    }
}

/// A copy of a presence update.
pub fn copy_presence(p: &Presence) -> (r: Presence)
    ensures
        presence_view(r) == presence_view(*p),
{
    Presence {
        id: p.id.clone(),
        display_name: copy_text(&p.display_name),
        active: p.active,
        status_msg: copy_text(&p.status_msg),
        presence: p.presence,
    }
}

/// The mathematical content of an event kind.
pub enum KindView {
    Connected,
    Disconnected,
    Invite,
    Message(Seq<char>),
    NewRoom(Seq<usize>, Seq<char>),
    Presence(PresenceFields),
    Error(Seq<char>),
    Unknown(Seq<char>, Seq<char>),
}

/// The mathematical content of an event.
pub struct EventView {
    pub date: usize,
    pub room: Seq<usize>,
    pub source: Option<Seq<char>>,
    pub kind: KindView,
}

impl View for NetEventKind {
    type V = KindView;

    open spec fn view(&self) -> KindView {
        match self {
            NetEventKind::Connected => KindView::Connected,
            NetEventKind::Disconnected => KindView::Disconnected,
            NetEventKind::Invite => KindView::Invite,
            NetEventKind::Message(m) => KindView::Message(m.content@),
            NetEventKind::NewRoom(r) => KindView::NewRoom(r.id@, r.alias@),
            NetEventKind::Presence(p) => KindView::Presence(presence_view(*p)),
            NetEventKind::Error(s) => KindView::Error(s@),
            NetEventKind::Unknown(u) => KindView::Unknown(u.ty@, u.data@),
        }
    }
}

impl View for NetEvent {
    type V = EventView;

    open spec fn view(&self) -> EventView {
        EventView {
            date: self.date,
            room: self.room@,
            source: self.source.deep_view(),
            kind: self.event@,
        }
    }
}

pub(crate) fn str_to_string(s: &str) -> (r: String)
    ensures
        r@ == s@,
{
    s.to_owned()
}

pub(crate) fn concat2(a: &str, b: &str) -> (r: String)
    ensures
        r@ == a@ + b@,
{
    let mut r = a.to_owned();
    r.append(b);
    r
}

pub(crate) fn concat3(a: &str, b: &str, c: &str) -> (r: String)
    ensures
        r@ == a@ + b@ + c@,
{
    let mut r = a.to_owned();
    r.append(b);
    r.append(c);
    r
}

/// Relies on std's String::push: appends one character.
#[verifier::external_body]
pub(crate) fn push_char(s: &mut String, c: char)
    ensures
        final(s)@ == old(s)@.push(c),
{
    s.push(c)
}

/// The text under which an event is shown.
pub open spec fn describe_spec(k: KindView) -> Seq<char> {
    match k {
        KindView::Connected => "Room connected"@,
        KindView::Disconnected => "Room disconnected"@,
        KindView::Invite => "Room invitation"@,
        KindView::Message(c) => c,
        KindView::NewRoom(_, alias) => "Spawned room "@ + alias,
        KindView::Presence(f) => "Presence "@ + f.id,
        KindView::Error(s) => "ERROR: "@ + s,
        KindView::Unknown(ty, data) => "UNKNOWN EVENT: "@ + ty + ": "@ + data,
    }
}

impl NetEventKind {
    /// The event stamped with a date, a room and an optional sender.
    pub fn to_event(self, room: RoomAddress, date: usize, source: Option<String>) -> (r: NetEvent)
        ensures
            r.date == date,
            r.room == room,
            r.source == source,
            r.event == self,
    {
        NetEvent { date, room, source, event: self }
    }

    pub fn describe(&self) -> (r: String)
        ensures
            r@ == describe_spec(self@),
    {
        proof {
            reveal_strlit("Room connected");
            reveal_strlit("Room disconnected");
            reveal_strlit("Room invitation");
            reveal_strlit("Spawned room ");
            reveal_strlit("Presence ");
            reveal_strlit("ERROR: ");
            reveal_strlit("UNKNOWN EVENT: ");
            reveal_strlit(": ");
        }
        match self {
            NetEventKind::Connected => str_to_string("Room connected"),
            NetEventKind::Disconnected => str_to_string("Room disconnected"),
            NetEventKind::Invite => str_to_string("Room invitation"),
            NetEventKind::Message(m) => m.content.clone(),
            NetEventKind::NewRoom(r) => concat2("Spawned room ", r.alias.as_str()),
            NetEventKind::Presence(p) => concat2("Presence ", p.id.as_str()),
            NetEventKind::Error(s) => concat2("ERROR: ", s.as_str()),
            NetEventKind::Unknown(u) => {
                let mut r = concat3("UNKNOWN EVENT: ", u.ty.as_str(), ": ");
                r.append(u.data.as_str());
                r
            },
        }
    }
}

// =============================================================================
// What the user does
// =============================================================================

/// A key pressed by the user.
#[derive(Debug, Clone, Copy, PartialEq, Eq, Structural)]
pub enum Key {
    Char(char),
    Ctrl(char),
    Alt(char),
    Up,
    Down,
    Left,
    Right,
    Home,
    End,
    Backspace,
    Delete,
    Esc,
    Other,
}

/// What reaches the application: a key, a mouse action, or an event of a room.
#[derive(Debug)]
pub enum Event {
    Key(Key),
    Mouse,
    Net(NetEvent),
}

// =============================================================================
// Actions that the interface hands to the application
// =============================================================================
#[derive(Debug)]
pub enum Action {
    Command(CommandAction),
    Input(InputAction),
    Room(RoomAction),
    App(AppAction),
    FocusLoss,
}

#[derive(Debug)]
pub enum CommandAction {
    Connect,
    Disconnect,
    NewRoom(NewRoomRequest),
    Quit,
    Save,
}

#[derive(Debug)]
pub enum InputAction {
    Message(String),
}

#[derive(Debug)]
pub struct RoomPublish {
    pub id: RoomAddress,
    pub msg: String,
}

#[derive(Debug)]
pub enum RoomAction {
    Publish(RoomPublish),
}

#[derive(Debug)]
pub enum AppAction {
    CopyBufferSet(String),
    StatusSet(String),
}

} // verus!
