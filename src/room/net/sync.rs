use crate::event::{concat2, copy_presence, presence_view, str_to_string, EventView, KindView, Message, NetEvent, NetEventKind, NewRoom, Presence, PresenceFields};
use crate::room::net::app::exhausted_error;
use crate::room::RoomAddress;
use crate::sequence_number::SequenceNumber;
use vstd::prelude::*;

verus! {

// =============================================================================
// What a sync response holds, as plain values
// =============================================================================

/// One entry of the timeline of a joined room.
#[derive(Debug)]
pub enum TimelineEntry {
    /// A text message, with the date the server gave it.
    Text { date: usize, body: String },
    /// Anything else: another kind of message, another kind of room event,
    /// or an event that did not parse; with a description of it.
    Unsupported(String),
}

#[derive(Debug)]
pub struct JoinedRoom {
    pub name: String,
    pub timeline: Vec<TimelineEntry>,
}

#[derive(Debug)]
pub enum PresenceEntry {
    Valid(Presence),
    Invalid(String),
}

/// One answer of the backend's sync endpoint: the rooms left, joined and
/// invited to since the cursor, the presence updates, and the next cursor.
#[derive(Debug)]
pub struct SyncResponse {
    pub leave: Vec<String>,
    pub join: Vec<JoinedRoom>,
    pub invite: Vec<String>,
    pub presence: Vec<PresenceEntry>,
    pub next_batch: String,
}

pub enum EntryView {
    Text(usize, Seq<char>),
    Unsupported(Seq<char>),
}

impl View for TimelineEntry {
    type V = EntryView;

    open spec fn view(&self) -> EntryView {
        match self {
            TimelineEntry::Text { date, body } => EntryView::Text(*date, body@),
            TimelineEntry::Unsupported(d) => EntryView::Unsupported(d@),
        }
    }
}

pub struct JoinView {
    pub name: Seq<char>,
    pub timeline: Seq<EntryView>,
}

impl View for JoinedRoom {
    type V = JoinView;

    open spec fn view(&self) -> JoinView {
        JoinView { name: self.name@, timeline: self.timeline@.map_values(|e: TimelineEntry| e@) }
    }
}

pub enum PresenceView {
    Valid(PresenceFields),
    Invalid(Seq<char>),
}


impl View for PresenceEntry {
    type V = PresenceView;

    open spec fn view(&self) -> PresenceView {
        match self {
            PresenceEntry::Valid(p) => PresenceView::Valid(presence_view(*p)),
            PresenceEntry::Invalid(e) => PresenceView::Invalid(e@),
        }
    }
}

pub struct SyncView {
    pub leave: Seq<Seq<char>>,
    pub join: Seq<JoinView>,
    pub invite: Seq<Seq<char>>,
    pub presence: Seq<PresenceView>,
    pub next_batch: Seq<char>,
}

impl View for SyncResponse {
    type V = SyncView;

    open spec fn view(&self) -> SyncView {
        SyncView {
            leave: self.leave.deep_view(),
            join: self.join@.map_values(|j: JoinedRoom| j@),
            invite: self.invite.deep_view(),
            presence: self.presence@.map_values(|p: PresenceEntry| p@),
            next_batch: self.next_batch@,
        }
    }
}

// =============================================================================
// Errors of one pass, each attributed to a room
// =============================================================================

#[derive(Debug)]
pub struct Error {
    pub id: RoomAddress,
    pub error: String,
}

/// The failures of one pass, in order, each against the room it concerns.
#[derive(Debug)]
pub struct ErrorBatch {
    pub errors: Vec<Error>,
}

pub type ErrorView = (Seq<usize>, Seq<char>);

impl View for ErrorBatch {
    type V = Seq<ErrorView>;

    open spec fn view(&self) -> Seq<ErrorView> {
        self.errors@.map_values(|e: Error| (e.id@, e.error@))
    }
}

pub open spec fn event_views(evs: Seq<NetEvent>) -> Seq<EventView> {
    evs.map_values(|e: NetEvent| e@)
}

pub open spec fn error_events(errors: Seq<ErrorView>, date: usize) -> Seq<EventView> {
    errors.map_values(|e: ErrorView| EventView { date, room: e.0, source: None, kind: KindView::Error(e.1) })
}

impl ErrorBatch {
    pub fn new() -> (r: ErrorBatch)
        ensures
            r@ == Seq::<ErrorView>::empty(),
    {
        ErrorBatch { errors: Vec::new() }
    }

    /// A batch of one error.
    pub fn single(id: RoomAddress, error: String) -> (r: ErrorBatch)
        ensures
            r@ == seq![(id@, error@)],
    {
        let mut errors = Vec::new();
        errors.push(Error { id, error });
        let r = ErrorBatch { errors };
        assert(r@ =~= seq![(r.errors@[0].id@, r.errors@[0].error@)]);
        r
    }

    pub fn push(&mut self, id: RoomAddress, error: String)
        ensures
            final(self)@ == old(self)@.push((id@, error@)),
    {
        self.errors.push(Error { id, error });
        assert(final(self)@ =~= old(self)@.push((id@, error@)));
    }

    pub fn is_empty(&self) -> (r: bool)
        ensures
            r == (self@.len() == 0),
    {
        self.errors.len() == 0
    }

    /// One `error` event per entry, in order, each at the room it concerns.
    pub fn to_events(&self, date: usize) -> (r: Vec<NetEvent>)
        ensures
            event_views(r@) == error_events(self@, date),
    {
        let mut out: Vec<NetEvent> = Vec::new();
        let mut i: usize = 0;
        while i < self.errors.len()
            invariant
                i <= self.errors@.len(),
                event_views(out@) == error_events(self@, date).take(i as int),
            decreases self.errors@.len() - i,
        {
            let e = &self.errors[i];
            let ev = NetEventKind::Error(e.error.clone()).to_event(e.id.copy(), date, None);
            let ghost prev = out@;
            out.push(ev);
            assert(event_views(out@) =~= event_views(prev).push(ev@));
            assert(event_views(out@) =~= error_events(self@, date).take(i + 1));
            i = i + 1;
        }
        assert(error_events(self@, date).take(i as int) =~= error_events(self@, date));
        out
    }
}

// =============================================================================
// The table between the backend's room identifiers and child indices
// =============================================================================

pub type LinkView = (Seq<char>, usize);

/// The child index of the first entry named `name`.
pub open spec fn find_room(rooms: Seq<LinkView>, name: Seq<char>) -> Option<usize>
    decreases rooms.len(),
{
    if rooms.len() == 0 {
        None
    } else if rooms[0].0 == name {
        Some(rooms[0].1)
    } else {
        find_room(rooms.subrange(1, rooms.len() as int), name)
    }
}

/// The name of the first entry with child index `index`.
pub open spec fn find_name(rooms: Seq<LinkView>, index: usize) -> Option<Seq<char>>
    decreases rooms.len(),
{
    if rooms.len() == 0 {
        None
    } else if rooms[0].1 == index {
        Some(rooms[0].0)
    } else {
        find_name(rooms.subrange(1, rooms.len() as int), index)
    }
}

#[derive(Debug)]
pub struct RoomLink {
    pub name: String,
    pub index: usize,
}

/// Which backend room each child room of a session stands for.
#[derive(Debug)]
pub struct Rooms {
    links: Vec<RoomLink>,
}

impl View for Rooms {
    type V = Seq<LinkView>;

    closed spec fn view(&self) -> Seq<LinkView> {
        self.links@.map_values(|l: RoomLink| (l.name@, l.index))
    }
}

impl Rooms {
    pub fn new() -> (r: Rooms)
        ensures
            r@ == Seq::<LinkView>::empty(),
    {
        let r = Rooms { links: Vec::new() };
        assert(r@ =~= Seq::<LinkView>::empty());
        r
    }

    pub fn find(&self, name: &str) -> (r: Option<usize>)
        ensures
            r == find_room(self@, name@),
    {
        let key = str_to_string(name);
        let mut i: usize = 0;
        assert(self@.subrange(0, self@.len() as int) =~= self@);
        while i < self.links.len()
            invariant
                i <= self@.len(),
                self@.len() == self.links@.len(),
                key@ == name@,
                find_room(self@, name@) == find_room(self@.subrange(i as int, self@.len() as int), name@),
            decreases self@.len() - i,
        {
            let l = &self.links[i];
            let ghost rest = self@.subrange(i as int, self@.len() as int);
            assert(rest[0] == (l.name@, l.index));
            assert(rest.subrange(1, rest.len() as int) =~= self@.subrange(i + 1, self@.len() as int));
            if l.name == key {
                return Some(l.index);
            }
            i = i + 1;
        }
        None
    }

    pub fn name_of(&self, index: usize) -> (r: Option<String>)
        ensures
            match r {
                Some(n) => find_name(self@, index) == Some(n@),
                None => find_name(self@, index) is None,
            },
    {
        let mut i: usize = 0;
        assert(self@.subrange(0, self@.len() as int) =~= self@);
        while i < self.links.len()
            invariant
                i <= self@.len(),
                self@.len() == self.links@.len(),
                find_name(self@, index) == find_name(self@.subrange(i as int, self@.len() as int), index),
            decreases self@.len() - i,
        {
            let l = &self.links[i];
            let ghost rest = self@.subrange(i as int, self@.len() as int);
            assert(rest[0] == (l.name@, l.index));
            assert(rest.subrange(1, rest.len() as int) =~= self@.subrange(i + 1, self@.len() as int));
            if l.index == index {
                return Some(l.name.clone());
            }
            i = i + 1;
        }
        None
    }

    pub fn add(&mut self, name: String, index: usize)
        ensures
            final(self)@ == old(self)@.push((name@, index)),
    {
        let ghost n = name@;
        self.links.push(RoomLink { name, index });
        assert(final(self)@ =~= old(self)@.push((n, index)));
    }
}

// =============================================================================
// The reconciliation of one sync answer
// =============================================================================

/// The events and the errors of a pass, so far.
pub struct Tally {
    pub events: Seq<EventView>,
    pub errors: Seq<ErrorView>,
}

pub open spec fn tally_of(events: Seq<NetEvent>, errors: ErrorBatch) -> Tally {
    Tally { events: event_views(events), errors: errors@ }
}

pub open spec fn at(date: usize, room: Seq<usize>, kind: KindView) -> EventView {
    EventView { date, room, source: None, kind }
}

pub open spec fn with_event(t: Tally, e: EventView) -> Tally {
    Tally { events: t.events.push(e), errors: t.errors }
}

pub open spec fn with_error(t: Tally, room: Seq<usize>, msg: Seq<char>) -> Tally {
    Tally { events: t.events, errors: t.errors.push((room, msg)) }
}

pub open spec fn unsupported_error(what: Seq<char>) -> Seq<char> {
    "Unsupported room event: "@ + what
}

/// `disconnected` at each known room that the answer says was left.
pub open spec fn leave_tally(t: Tally, rooms: Seq<LinkView>, own: Seq<usize>, date: usize, names: Seq<Seq<char>>) -> Tally
    decreases names.len(),
{
    if names.len() == 0 {
        t
    } else {
        let p = leave_tally(t, rooms, own, date, names.drop_last());
        match find_room(rooms, names.last()) {
            Some(ix) => with_event(p, at(date, own.push(ix), KindView::Disconnected)),
            None => p,
        }
    }
}

/// `invited` at each known room that the answer says this account was invited to.
pub open spec fn invite_tally(t: Tally, rooms: Seq<LinkView>, own: Seq<usize>, date: usize, names: Seq<Seq<char>>) -> Tally
    decreases names.len(),
{
    if names.len() == 0 {
        t
    } else {
        let p = invite_tally(t, rooms, own, date, names.drop_last());
        match find_room(rooms, names.last()) {
            Some(ix) => with_event(p, at(date, own.push(ix), KindView::Invite)),
            None => p,
        }
    }
}

/// A `message` for each text entry of a timeline, an error for each other entry.
pub open spec fn timeline_tally(t: Tally, room: Seq<usize>, entries: Seq<EntryView>) -> Tally
    decreases entries.len(),
{
    if entries.len() == 0 {
        t
    } else {
        let p = timeline_tally(t, room, entries.drop_last());
        match entries.last() {
            EntryView::Text(d, body) => with_event(p, at(d, room, KindView::Message(body))),
            EntryView::Unsupported(what) => with_error(p, room, unsupported_error(what)),
        }
    }
}

/// A `presence` event at the session's own room for each valid update, an error
/// for each invalid one.
pub open spec fn presence_tally(t: Tally, own: Seq<usize>, date: usize, ps: Seq<PresenceView>) -> Tally
    decreases ps.len(),
{
    if ps.len() == 0 {
        t
    } else {
        let p = presence_tally(t, own, date, ps.drop_last());
        match ps.last() {
            PresenceView::Valid(f) => with_event(
                p,
                EventView { date, room: own, source: Some(f.id), kind: KindView::Presence(f) },
            ),
            PresenceView::Invalid(e) => with_error(p, own, e),
        }
    }
}

/// The state of a pass over the joined rooms: the table, the next room number,
/// and the tally.
pub struct JoinState {
    pub rooms: Seq<LinkView>,
    pub next: nat,
    pub tally: Tally,
}

/// One joined room: a room not yet known is numbered and announced first
/// (`room-spawned` at the session's own room); then `connected`, then its timeline.
pub open spec fn join_one(s: JoinState, own: Seq<usize>, date: usize, j: JoinView) -> JoinState {
    match find_room(s.rooms, j.name) {
        Some(ix) => JoinState {
            rooms: s.rooms,
            next: s.next,
            tally: timeline_tally(with_event(s.tally, at(date, own.push(ix), KindView::Connected)), own.push(ix), j.timeline),
        },
        None => if s.next < usize::MAX {
            let ix = s.next as usize;
            let t1 = with_event(s.tally, at(date, own, KindView::NewRoom(own.push(ix), j.name)));
            JoinState {
                rooms: s.rooms.push((j.name, ix)),
                next: s.next + 1,
                tally: timeline_tally(with_event(t1, at(date, own.push(ix), KindView::Connected)), own.push(ix), j.timeline),
            }
        } else {
            JoinState { rooms: s.rooms, next: s.next, tally: with_error(s.tally, own, exhausted_error()) }
        },
    }
}

pub open spec fn join_all(s: JoinState, own: Seq<usize>, date: usize, joins: Seq<JoinView>) -> JoinState
    decreases joins.len(),
{
    if joins.len() == 0 {
        s
    } else {
        join_one(join_all(s, own, date, joins.drop_last()), own, date, joins.last())
    }
}

/// One reconciliation pass over a sync answer: leaves, then joins, then
/// invites, then presence.
pub open spec fn sync_spec(rooms: Seq<LinkView>, next: nat, own: Seq<usize>, date: usize, resp: SyncView) -> JoinState {
    let t1 = leave_tally(Tally { events: seq![], errors: seq![] }, rooms, own, date, resp.leave);
    let s2 = join_all(JoinState { rooms, next, tally: t1 }, own, date, resp.join);
    let t3 = invite_tally(s2.tally, s2.rooms, own, date, resp.invite);
    JoinState { rooms: s2.rooms, next: s2.next, tally: presence_tally(t3, own, date, resp.presence) }
}

proof fn lemma_push_views(evs: Seq<NetEvent>, e: NetEvent)
    ensures
        event_views(evs.push(e)) == event_views(evs).push(e@),
{
    assert(event_views(evs.push(e)) =~= event_views(evs).push(e@));
}

fn leave_pass(
    rooms: &Rooms,
    own: &RoomAddress,
    date: usize,
    names: &Vec<String>,
    events: &mut Vec<NetEvent>,
    errors: &mut ErrorBatch,
)
    ensures
        tally_of(final(events)@, *final(errors)) == leave_tally(tally_of(old(events)@, *old(errors)), rooms@, own@, date, names.deep_view()),
{
    let ghost t0 = tally_of(events@, *errors);
    let mut i: usize = 0;
    while i < names.len()
        invariant
            i <= names@.len(),
            tally_of(events@, *errors) == leave_tally(t0, rooms@, own@, date, names.deep_view().take(i as int)),
        decreases names@.len() - i,
    {
        let ghost prefix = names.deep_view().take(i + 1);
        assert(prefix.drop_last() =~= names.deep_view().take(i as int));
        assert(prefix.last() == names@[i as int]@);
        match rooms.find(names[i].as_str()) {
            Some(ix) => {
                let ev = NetEventKind::Disconnected.to_event(RoomAddress::child_of(own, ix), date, None);
                proof { lemma_push_views(events@, ev); }
                events.push(ev);
            },
            None => {},
        }
        i = i + 1;
    }
    assert(names.deep_view().take(i as int) =~= names.deep_view());
}

fn invite_pass(
    rooms: &Rooms,
    own: &RoomAddress,
    date: usize,
    names: &Vec<String>,
    events: &mut Vec<NetEvent>,
    errors: &mut ErrorBatch,
)
    ensures
        tally_of(final(events)@, *final(errors)) == invite_tally(tally_of(old(events)@, *old(errors)), rooms@, own@, date, names.deep_view()),
{
    let ghost t0 = tally_of(events@, *errors);
    let mut i: usize = 0;
    while i < names.len()
        invariant
            i <= names@.len(),
            tally_of(events@, *errors) == invite_tally(t0, rooms@, own@, date, names.deep_view().take(i as int)),
        decreases names@.len() - i,
    {
        let ghost prefix = names.deep_view().take(i + 1);
        assert(prefix.drop_last() =~= names.deep_view().take(i as int));
        assert(prefix.last() == names@[i as int]@);
        match rooms.find(names[i].as_str()) {
            Some(ix) => {
                let ev = NetEventKind::Invite.to_event(RoomAddress::child_of(own, ix), date, None);
                proof { lemma_push_views(events@, ev); }
                events.push(ev);
            },
            None => {},
        }
        i = i + 1;
    }
    assert(names.deep_view().take(i as int) =~= names.deep_view());
}

fn timeline_pass(room: &RoomAddress, entries: &Vec<TimelineEntry>, events: &mut Vec<NetEvent>, errors: &mut ErrorBatch)
    ensures
        tally_of(final(events)@, *final(errors)) == timeline_tally(
            tally_of(old(events)@, *old(errors)),
            room@,
            entries@.map_values(|e: TimelineEntry| e@),
        ),
{
    proof {
        reveal_strlit("Unsupported room event: ");
    }
    let ghost t0 = tally_of(events@, *errors);
    let ghost all = entries@.map_values(|e: TimelineEntry| e@);
    let mut i: usize = 0;
    while i < entries.len()
        invariant
            i <= entries@.len(),
            all == entries@.map_values(|e: TimelineEntry| e@),
            tally_of(events@, *errors) == timeline_tally(t0, room@, all.take(i as int)),
        decreases entries@.len() - i,
    {
        let ghost prefix = all.take(i + 1);
        assert(prefix.drop_last() =~= all.take(i as int));
        assert(prefix.last() == entries@[i as int]@);
        match &entries[i] {
            TimelineEntry::Text { date, body } => {
                let ev = NetEventKind::Message(Message { content: body.clone() }).to_event(room.copy(), *date, None);
                proof { lemma_push_views(events@, ev); }
                events.push(ev);
            },
            TimelineEntry::Unsupported(what) => {
                errors.push(room.copy(), concat2("Unsupported room event: ", what.as_str()));
            },
        }
        i = i + 1;
    }
    assert(all.take(i as int) =~= all);
}

fn presence_pass(own: &RoomAddress, date: usize, ps: &Vec<PresenceEntry>, events: &mut Vec<NetEvent>, errors: &mut ErrorBatch)
    ensures
        tally_of(final(events)@, *final(errors)) == presence_tally(
            tally_of(old(events)@, *old(errors)),
            own@,
            date,
            ps@.map_values(|p: PresenceEntry| p@),
        ),
{
    let ghost t0 = tally_of(events@, *errors);
    let ghost all = ps@.map_values(|p: PresenceEntry| p@);
    let mut i: usize = 0;
    while i < ps.len()
        invariant
            i <= ps@.len(),
            all == ps@.map_values(|p: PresenceEntry| p@),
            tally_of(events@, *errors) == presence_tally(t0, own@, date, all.take(i as int)),
        decreases ps@.len() - i,
    {
        let ghost prefix = all.take(i + 1);
        assert(prefix.drop_last() =~= all.take(i as int));
        assert(prefix.last() == ps@[i as int]@);
        match &ps[i] {
            PresenceEntry::Valid(p) => {
                let kind = NetEventKind::Presence(copy_presence(p));
                let ev = kind.to_event(own.copy(), date, Some(p.id.clone()));
                proof { lemma_push_views(events@, ev); }
                events.push(ev);
            },
            PresenceEntry::Invalid(e) => {
                errors.push(own.copy(), e.clone());
            },
        }
        i = i + 1;
    }
    assert(all.take(i as int) =~= all);
}

pub open spec fn state_of(rooms: Rooms, room_sn: SequenceNumber, events: Seq<NetEvent>, errors: ErrorBatch) -> JoinState {
    JoinState { rooms: rooms@, next: room_sn.upcoming(), tally: tally_of(events, errors) }
}

fn join_one_pass(
    rooms: &mut Rooms,
    room_sn: &mut SequenceNumber,
    own: &RoomAddress,
    date: usize,
    j: &JoinedRoom,
    events: &mut Vec<NetEvent>,
    errors: &mut ErrorBatch,
)
    ensures
        state_of(*final(rooms), *final(room_sn), final(events)@, *final(errors)) == join_one(
            state_of(*old(rooms), *old(room_sn), old(events)@, *old(errors)),
            own@,
            date,
            j@,
        ),
{
    proof {
        reveal_strlit("No room number is left");
    }
    match rooms.find(j.name.as_str()) {
        Some(ix) => {
            let child = RoomAddress::child_of(own, ix);
            let ev = NetEventKind::Connected.to_event(child.copy(), date, None);
            proof { lemma_push_views(events@, ev); }
            events.push(ev);
            timeline_pass(&child, &j.timeline, events, errors);
        },
        None => match room_sn.next() {
            Some(ix) => {
                let child = RoomAddress::child_of(own, ix);
                rooms.add(j.name.clone(), ix);
                let spawned = NetEventKind::NewRoom(NewRoom { id: child.copy(), alias: j.name.clone() });
                let ev = spawned.to_event(own.copy(), date, None);
                proof { lemma_push_views(events@, ev); }
                events.push(ev);
                let ev = NetEventKind::Connected.to_event(child.copy(), date, None);
                proof { lemma_push_views(events@, ev); }
                events.push(ev);
                timeline_pass(&child, &j.timeline, events, errors);
            },
            None => {
                errors.push(own.copy(), str_to_string("No room number is left"));
            },
        },
    }
}

fn join_pass(
    rooms: &mut Rooms,
    room_sn: &mut SequenceNumber,
    own: &RoomAddress,
    date: usize,
    joins: &Vec<JoinedRoom>,
    events: &mut Vec<NetEvent>,
    errors: &mut ErrorBatch,
)
    ensures
        state_of(*final(rooms), *final(room_sn), final(events)@, *final(errors)) == join_all(
            state_of(*old(rooms), *old(room_sn), old(events)@, *old(errors)),
            own@,
            date,
            joins@.map_values(|j: JoinedRoom| j@),
        ),
{
    let ghost s0 = state_of(*rooms, *room_sn, events@, *errors);
    let ghost all = joins@.map_values(|j: JoinedRoom| j@);
    let mut i: usize = 0;
    while i < joins.len()
        invariant
            i <= joins@.len(),
            all == joins@.map_values(|j: JoinedRoom| j@),
            state_of(*rooms, *room_sn, events@, *errors) == join_all(s0, own@, date, all.take(i as int)),
        decreases joins@.len() - i,
    {
        let ghost prefix = all.take(i + 1);
        assert(prefix.drop_last() =~= all.take(i as int));
        assert(prefix.last() == joins@[i as int]@);
        join_one_pass(rooms, room_sn, own, date, &joins[i], events, errors);
        i = i + 1;
    }
    assert(all.take(i as int) =~= all);
}

/// One reconciliation pass of a session at `own` over a sync answer, at time
/// `date`: the events to emit, in order, and the errors met on the way. Rooms
/// joined for the first time are numbered with `room_sn` and entered in `rooms`.
pub fn reconcile(
    rooms: &mut Rooms,
    room_sn: &mut SequenceNumber,
    own: &RoomAddress,
    date: usize,
    resp: &SyncResponse,
) -> (r: (Vec<NetEvent>, ErrorBatch))
    ensures
        state_of(*final(rooms), *final(room_sn), r.0@, r.1) == sync_spec(old(rooms)@, old(room_sn).upcoming(), own@, date, resp@),
{
    let mut events: Vec<NetEvent> = Vec::new();
    let mut errors = ErrorBatch::new();
    assert(tally_of(events@, errors) == (Tally { events: seq![], errors: seq![] })) by {
        assert(event_views(events@) =~= Seq::<EventView>::empty());
    }
    leave_pass(rooms, own, date, &resp.leave, &mut events, &mut errors);
    join_pass(rooms, room_sn, own, date, &resp.join, &mut events, &mut errors);
    invite_pass(rooms, own, date, &resp.invite, &mut events, &mut errors);
    presence_pass(own, date, &resp.presence, &mut events, &mut errors);
    (events, errors)
}

// =============================================================================
// Laws of the reconciliation
// =============================================================================

/// `a` starts with `b`.
pub open spec fn extends(a: Seq<EventView>, b: Seq<EventView>) -> bool {
    b.len() <= a.len() && forall|k: int| 0 <= k < b.len() ==> a[k] == b[k]
}

proof fn lemma_find_push(rooms: Seq<LinkView>, x: LinkView, name: Seq<char>)
    requires
        find_room(rooms, name) is Some,
    ensures
        find_room(rooms.push(x), name) == find_room(rooms, name),
    decreases rooms.len(),
{
    if rooms[0].0 != name {
        assert(rooms.push(x).subrange(1, rooms.len() as int + 1) =~= rooms.subrange(1, rooms.len() as int).push(x));
        lemma_find_push(rooms.subrange(1, rooms.len() as int), x, name);
    }
}

proof fn lemma_timeline_extends(t: Tally, room: Seq<usize>, es: Seq<EntryView>)
    ensures
        extends(timeline_tally(t, room, es).events, t.events),
    decreases es.len(),
{
    if es.len() > 0 {
        lemma_timeline_extends(t, room, es.drop_last());
    }
}

proof fn lemma_leave_extends(t: Tally, rooms: Seq<LinkView>, own: Seq<usize>, date: usize, names: Seq<Seq<char>>)
    ensures
        extends(leave_tally(t, rooms, own, date, names).events, t.events),
    decreases names.len(),
{
    if names.len() > 0 {
        lemma_leave_extends(t, rooms, own, date, names.drop_last());
    }
}

proof fn lemma_invite_extends(t: Tally, rooms: Seq<LinkView>, own: Seq<usize>, date: usize, names: Seq<Seq<char>>)
    ensures
        extends(invite_tally(t, rooms, own, date, names).events, t.events),
    decreases names.len(),
{
    if names.len() > 0 {
        lemma_invite_extends(t, rooms, own, date, names.drop_last());
    }
}

proof fn lemma_presence_extends(t: Tally, own: Seq<usize>, date: usize, ps: Seq<PresenceView>)
    ensures
        extends(presence_tally(t, own, date, ps).events, t.events),
    decreases ps.len(),
{
    if ps.len() > 0 {
        lemma_presence_extends(t, own, date, ps.drop_last());
    }
}

proof fn lemma_join_one_extends(s: JoinState, own: Seq<usize>, date: usize, j: JoinView, name: Seq<char>)
    ensures
        extends(join_one(s, own, date, j).tally.events, s.tally.events),
        find_room(s.rooms, name) is Some ==> find_room(join_one(s, own, date, j).rooms, name) == find_room(s.rooms, name),
{
    match find_room(s.rooms, j.name) {
        Some(ix) => {
            lemma_timeline_extends(with_event(s.tally, at(date, own.push(ix), KindView::Connected)), own.push(ix), j.timeline);
        },
        None => {
            if s.next < usize::MAX {
                let ix = s.next as usize;
                let t1 = with_event(s.tally, at(date, own, KindView::NewRoom(own.push(ix), j.name)));
                lemma_timeline_extends(with_event(t1, at(date, own.push(ix), KindView::Connected)), own.push(ix), j.timeline);
                if find_room(s.rooms, name) is Some {
                    lemma_find_push(s.rooms, (j.name, ix), name);
                }
            }
        },
    }
}

proof fn lemma_join_all_extends(s: JoinState, own: Seq<usize>, date: usize, joins: Seq<JoinView>, name: Seq<char>)
    ensures
        extends(join_all(s, own, date, joins).tally.events, s.tally.events),
        find_room(s.rooms, name) is Some ==> find_room(join_all(s, own, date, joins).rooms, name) == find_room(s.rooms, name),
    decreases joins.len(),
{
    if joins.len() > 0 {
        lemma_join_all_extends(s, own, date, joins.drop_last(), name);
        lemma_join_one_extends(join_all(s, own, date, joins.drop_last()), own, date, joins.last(), name);
    }
}

proof fn lemma_leave_emits(t: Tally, rooms: Seq<LinkView>, own: Seq<usize>, date: usize, names: Seq<Seq<char>>, name: Seq<char>, ix: usize)
    requires
        find_room(rooms, name) == Some(ix),
        names.contains(name),
    ensures
        exists|k: int| 0 <= k < leave_tally(t, rooms, own, date, names).events.len()
            && #[trigger] leave_tally(t, rooms, own, date, names).events[k] == at(date, own.push(ix), KindView::Disconnected),
    decreases names.len(),
{
    let p = leave_tally(t, rooms, own, date, names.drop_last());
    if names.last() == name {
        let k = p.events.len() as int;
        assert(leave_tally(t, rooms, own, date, names).events[k] == at(date, own.push(ix), KindView::Disconnected));
    } else {
        let w = choose|w: int| 0 <= w < names.len() && names[w] == name;
        assert(names.drop_last()[w] == name);
        lemma_leave_emits(t, rooms, own, date, names.drop_last(), name, ix);
        let k = choose|k: int| 0 <= k < p.events.len() && #[trigger] p.events[k] == at(date, own.push(ix), KindView::Disconnected);
        assert(leave_tally(t, rooms, own, date, names).events[k] == p.events[k]);
    }
}

proof fn lemma_join_emits(s: JoinState, own: Seq<usize>, date: usize, joins: Seq<JoinView>, name: Seq<char>, ix: usize)
    requires
        find_room(s.rooms, name) == Some(ix),
        exists|w: int| 0 <= w < joins.len() && (#[trigger] joins[w]).name == name,
    ensures
        exists|k: int| s.tally.events.len() <= k < join_all(s, own, date, joins).tally.events.len()
            && #[trigger] join_all(s, own, date, joins).tally.events[k] == at(date, own.push(ix), KindView::Connected),
    decreases joins.len(),
{
    let s1 = join_all(s, own, date, joins.drop_last());
    lemma_join_all_extends(s, own, date, joins.drop_last(), name);
    lemma_join_one_extends(s1, own, date, joins.last(), name);
    let fin = join_all(s, own, date, joins);
    if joins.last().name == name {
        assert(find_room(s1.rooms, name) == Some(ix));
        let t0 = with_event(s1.tally, at(date, own.push(ix), KindView::Connected));
        lemma_timeline_extends(t0, own.push(ix), joins.last().timeline);
        let k = s1.tally.events.len() as int;
        assert(fin.tally.events[k] == t0.events[k]);
    } else {
        let w = choose|w: int| 0 <= w < joins.len() && (#[trigger] joins[w]).name == name;
        assert(joins.drop_last()[w].name == name);
        lemma_join_emits(s, own, date, joins.drop_last(), name, ix);
        let k = choose|k: int| s.tally.events.len() <= k < s1.tally.events.len()
            && #[trigger] s1.tally.events[k] == at(date, own.push(ix), KindView::Connected);
        assert(fin.tally.events[k] == s1.tally.events[k]);
    }
}

/// Within one sync answer that both leaves and joins a room the session
/// knows, that room's `disconnected` event comes before its `connected` event.
pub proof fn lemma_leave_before_join(
    rooms: Seq<LinkView>,
    next: nat,
    own: Seq<usize>,
    date: usize,
    resp: SyncView,
    name: Seq<char>,
    ix: usize,
)
    requires
        find_room(rooms, name) == Some(ix),
        resp.leave.contains(name),
        exists|w: int| 0 <= w < resp.join.len() && (#[trigger] resp.join[w]).name == name,
    ensures
        exists|k1: int, k2: int|
            0 <= k1 < k2 < sync_spec(rooms, next, own, date, resp).tally.events.len()
                && #[trigger] sync_spec(rooms, next, own, date, resp).tally.events[k1] == at(date, own.push(ix), KindView::Disconnected)
                && #[trigger] sync_spec(rooms, next, own, date, resp).tally.events[k2] == at(date, own.push(ix), KindView::Connected),
{
    let t0 = Tally { events: seq![], errors: seq![] };
    let t1 = leave_tally(t0, rooms, own, date, resp.leave);
    let s0 = JoinState { rooms, next, tally: t1 };
    let s2 = join_all(s0, own, date, resp.join);
    let t3 = invite_tally(s2.tally, s2.rooms, own, date, resp.invite);
    let fin = sync_spec(rooms, next, own, date, resp);
    lemma_leave_emits(t0, rooms, own, date, resp.leave, name, ix);
    let k1 = choose|k: int| 0 <= k < t1.events.len() && #[trigger] t1.events[k] == at(date, own.push(ix), KindView::Disconnected);
    lemma_join_emits(s0, own, date, resp.join, name, ix);
    let k2 = choose|k: int| t1.events.len() <= k < s2.tally.events.len()
        && #[trigger] s2.tally.events[k] == at(date, own.push(ix), KindView::Connected);
    lemma_join_all_extends(s0, own, date, resp.join, name);
    lemma_invite_extends(s2.tally, s2.rooms, own, date, resp.invite);
    lemma_presence_extends(t3, own, date, resp.presence);
    assert(fin.tally.events[k1] == t1.events[k1]);
    assert(fin.tally.events[k2] == s2.tally.events[k2]);
}

/// A sync answer that only joins one room, whose timeline holds one entry of
/// an unsupported kind, still connects that room and records exactly one
/// error, against that room.
pub proof fn lemma_unsupported_entry_is_one_error(
    rooms: Seq<LinkView>,
    next: nat,
    own: Seq<usize>,
    date: usize,
    name: Seq<char>,
    what: Seq<char>,
    next_batch: Seq<char>,
)
    requires
        next < usize::MAX || find_room(rooms, name) is Some,
    ensures
        ({
            let resp = SyncView {
                leave: seq![],
                join: seq![JoinView { name, timeline: seq![EntryView::Unsupported(what)] }],
                invite: seq![],
                presence: seq![],
                next_batch,
            };
            let s = sync_spec(rooms, next, own, date, resp);
            let ix = match find_room(rooms, name) {
                Some(i) => i,
                None => next as usize,
            };
            &&& s.tally.errors == seq![(own.push(ix), unsupported_error(what))]
            &&& s.tally.events.contains(at(date, own.push(ix), KindView::Connected))
        }),
{
    let j = JoinView { name, timeline: seq![EntryView::Unsupported(what)] };
    let joins = seq![j];
    let t0 = Tally { events: seq![], errors: seq![] };
    let s0 = JoinState { rooms, next, tally: t0 };
    assert(leave_tally(t0, rooms, own, date, seq![]) == t0);
    assert(joins.drop_last() =~= Seq::<JoinView>::empty());
    assert(joins.last() == j);
    assert(join_all(s0, own, date, Seq::<JoinView>::empty()) == s0);
    assert(join_all(s0, own, date, joins) == join_one(s0, own, date, j));
    assert(j.timeline.drop_last() =~= Seq::<EntryView>::empty());
    let ix = match find_room(rooms, name) {
        Some(i) => i,
        None => next as usize,
    };
    let s1 = join_one(s0, own, date, j);
    assert(invite_tally(s1.tally, s1.rooms, own, date, seq![]) == s1.tally);
    assert(presence_tally(s1.tally, own, date, seq![]) == s1.tally);
    let child = own.push(ix);
    let t_before = match find_room(rooms, name) {
        Some(i) => with_event(t0, at(date, child, KindView::Connected)),
        None => with_event(with_event(t0, at(date, own, KindView::NewRoom(child, name))), at(date, child, KindView::Connected)),
    };
    assert(timeline_tally(t_before, child, Seq::<EntryView>::empty()) == t_before);
    assert(s1.tally == timeline_tally(t_before, child, j.timeline));
    let connected = at(date, own.push(ix), KindView::Connected);
    assert(s1.tally.errors =~= seq![(own.push(ix), unsupported_error(what))]);
    let k = s1.tally.events.len() - 1;
    assert(s1.tally.events[k] == connected);
}

// =============================================================================
// The table stays one-to-one
// =============================================================================

/// The table is one-to-one (no name twice, no child index twice), and every
/// child index in it was issued before `next`, the numbering's next value.
pub open spec fn rooms_wf(rooms: Seq<LinkView>, next: nat) -> bool {
    &&& forall|i: int, j: int|
        0 <= i < j < rooms.len() ==> (#[trigger] rooms[i]).0 != (#[trigger] rooms[j]).0 && rooms[i].1 != rooms[j].1
    &&& forall|i: int| 0 <= i < rooms.len() ==> ((#[trigger] rooms[i]).1 as nat) < next
}

/// A name that the table does not find is in no entry.
pub proof fn lemma_find_room_none(rooms: Seq<LinkView>, name: Seq<char>)
    requires
        find_room(rooms, name) is None,
    ensures
        forall|k: int| 0 <= k < rooms.len() ==> (#[trigger] rooms[k]).0 != name,
    decreases rooms.len(),
{
    if rooms.len() > 0 {
        let rest = rooms.subrange(1, rooms.len() as int);
        lemma_find_room_none(rest, name);
        assert forall|k: int| 0 <= k < rooms.len() implies (#[trigger] rooms[k]).0 != name by {
            if k > 0 {
                assert(rest[k - 1] == rooms[k]);
            }
        }
    }
}

/// An index in no entry is not found.
pub proof fn lemma_find_name_absent(rooms: Seq<LinkView>, index: usize)
    requires
        forall|k: int| 0 <= k < rooms.len() ==> (#[trigger] rooms[k]).1 != index,
    ensures
        find_name(rooms, index) is None,
    decreases rooms.len(),
{
    if rooms.len() > 0 {
        let rest = rooms.subrange(1, rooms.len() as int);
        assert forall|k: int| 0 <= k < rest.len() implies (#[trigger] rest[k]).1 != index by {
            assert(rest[k] == rooms[k + 1]);
        }
        lemma_find_name_absent(rest, index);
    }
}

/// In a one-to-one table, the numbering's next value (and anything above it)
/// is the index of no room: a room numbered with it is fresh.
pub proof fn lemma_fresh_index(rooms: Seq<LinkView>, next: nat, index: usize)
    requires
        rooms_wf(rooms, next),
        next <= index,
    ensures
        find_name(rooms, index) is None,
{
    lemma_find_name_absent(rooms, index);
}

/// Entering a name the table does not know, with the numbering's next value,
/// keeps the table one-to-one once the numbering has moved on.
pub proof fn lemma_add_fresh(rooms: Seq<LinkView>, next: nat, name: Seq<char>)
    requires
        rooms_wf(rooms, next),
        find_room(rooms, name) is None,
        next < usize::MAX,
    ensures
        rooms_wf(rooms.push((name, next as usize)), next + 1),
{
    lemma_find_room_none(rooms, name);
    let r2 = rooms.push((name, next as usize));
    assert forall|i: int, j: int| 0 <= i < j < r2.len() implies (#[trigger] r2[i]).0 != (#[trigger] r2[j]).0
        && r2[i].1 != r2[j].1 by {
        if j == rooms.len() {
            assert(rooms[i].0 != name);
            assert((rooms[i].1 as nat) < next);
        } else {
            assert(r2[i] == rooms[i] && r2[j] == rooms[j]);
        }
    }
    assert forall|i: int| 0 <= i < r2.len() implies ((#[trigger] r2[i]).1 as nat) < next + 1 by {
        if i < rooms.len() {
            assert(r2[i] == rooms[i]);
        }
    }
}

pub proof fn lemma_wf_later(rooms: Seq<LinkView>, next: nat, later: nat)
    requires
        rooms_wf(rooms, next),
        next <= later,
    ensures
        rooms_wf(rooms, later),
{
}

proof fn lemma_join_one_wf(s: JoinState, own: Seq<usize>, date: usize, j: JoinView)
    requires
        rooms_wf(s.rooms, s.next),
    ensures
        rooms_wf(join_one(s, own, date, j).rooms, join_one(s, own, date, j).next),
        s.next <= join_one(s, own, date, j).next,
        join_one(s, own, date, j).rooms.take(s.rooms.len() as int) == s.rooms,
        s.rooms.len() <= join_one(s, own, date, j).rooms.len(),
        forall|k: int|
            s.rooms.len() <= k < join_one(s, own, date, j).rooms.len() ==> s.next <= (#[trigger] join_one(
                s,
                own,
                date,
                j,
            ).rooms[k]).1,
{
    let r = join_one(s, own, date, j);
    if find_room(s.rooms, j.name) is None && s.next < usize::MAX {
        lemma_add_fresh(s.rooms, s.next, j.name);
        assert(r.rooms.take(s.rooms.len() as int) =~= s.rooms);
    } else {
        assert(r.rooms.take(s.rooms.len() as int) =~= s.rooms);
    }
}

proof fn lemma_join_all_wf(s: JoinState, own: Seq<usize>, date: usize, joins: Seq<JoinView>)
    requires
        rooms_wf(s.rooms, s.next),
    ensures
        rooms_wf(join_all(s, own, date, joins).rooms, join_all(s, own, date, joins).next),
        s.next <= join_all(s, own, date, joins).next,
        join_all(s, own, date, joins).rooms.take(s.rooms.len() as int) == s.rooms,
        s.rooms.len() <= join_all(s, own, date, joins).rooms.len(),
        forall|k: int|
            s.rooms.len() <= k < join_all(s, own, date, joins).rooms.len() ==> s.next <= (
            #[trigger] join_all(s, own, date, joins).rooms[k]).1,
    decreases joins.len(),
{
    if joins.len() == 0 {
        assert(s.rooms.take(s.rooms.len() as int) =~= s.rooms);
    } else {
        let p = join_all(s, own, date, joins.drop_last());
        lemma_join_all_wf(s, own, date, joins.drop_last());
        lemma_join_one_wf(p, own, date, joins.last());
        let r = join_all(s, own, date, joins);
        assert forall|k: int| s.rooms.len() <= k < r.rooms.len() implies s.next <= (#[trigger] r.rooms[k]).1 by {
            if k < p.rooms.len() {
                assert(r.rooms.take(p.rooms.len() as int)[k] == r.rooms[k]);
            }
        }
        assert(r.rooms.take(s.rooms.len() as int) =~= r.rooms.take(p.rooms.len() as int).take(s.rooms.len() as int));
    }
}

/// A sync pass keeps the table one-to-one: the rooms known before keep their
/// entries, and every room met for the first time gets an index that no room
/// had, issued by the numbering during the pass.
pub proof fn lemma_sync_keeps_table_one_to_one(rooms: Seq<LinkView>, next: nat, own: Seq<usize>, date: usize, resp: SyncView)
    requires
        rooms_wf(rooms, next),
    ensures
        ({
            let s = sync_spec(rooms, next, own, date, resp);
            &&& rooms_wf(s.rooms, s.next)
            &&& next <= s.next
            &&& s.rooms.take(rooms.len() as int) == rooms
            &&& rooms.len() <= s.rooms.len()
            &&& forall|k: int| rooms.len() <= k < s.rooms.len() ==> next <= (#[trigger] s.rooms[k]).1
                && find_name(rooms, s.rooms[k].1) is None
        }),
{
    let t1 = leave_tally(Tally { events: seq![], errors: seq![] }, rooms, own, date, resp.leave);
    let s0 = JoinState { rooms, next, tally: t1 };
    lemma_join_all_wf(s0, own, date, resp.join);
    let s = sync_spec(rooms, next, own, date, resp);
    assert forall|k: int| rooms.len() <= k < s.rooms.len() implies next <= (#[trigger] s.rooms[k]).1
        && find_name(rooms, s.rooms[k].1) is None by {
        lemma_fresh_index(rooms, next, s.rooms[k].1);
    }
}

} // verus!
