use crate::dispatch::{address_taken, position_of, Dispatcher};
use crate::event::{str_to_string, Action, AppAction, CommandAction, Event, InputAction, Key};
use crate::input::command::{action_view, action_views, ActionView, Command};
use crate::input::Input;
use crate::room::net::{Action as RoomAction, ActionKind};
use crate::room::RoomAddress;
use crate::text::block::{item_views, Area, StringBlockItem};
use crate::text::editable_text::height_of;
use crate::widget::text::{text_layout, Text};
use vstd::prelude::*;

verus! {

/// Which part of the interface keys go to.
#[derive(Debug, Clone, Copy, PartialEq, Eq, Structural)]
pub enum Focus {
    Idle,
    Room,
    Input,
    Command,
}

pub open spec fn focus_name(f: Focus) -> Seq<char> {
    match f {
        Focus::Idle => "Idle"@,
        Focus::Room => "Room"@,
        Focus::Input => "Message"@,
        Focus::Command => "Command"@,
    }
}

impl Focus {
    /// The name shown in the status line.
    pub fn name(&self) -> (r: String)
        ensures
            r@ == focus_name(*self),
    {
        proof {
            reveal_strlit("Idle");
            reveal_strlit("Room");
            reveal_strlit("Message");
            reveal_strlit("Command");
        }
        match self {
            Focus::Idle => str_to_string("Idle"),
            Focus::Room => str_to_string("Room"),
            Focus::Input => str_to_string("Message"),
            Focus::Command => str_to_string("Command"),
        }
    }
}

/// What carrying out an action asks of whoever runs the interface.
#[derive(Debug)]
pub enum Outcome {
    Nothing,
    Quit,
    /// Send this action to the session of its room.
    Send(RoomAction),
}

pub open spec fn nothing_to_save() -> Seq<char> {
    "Nothing to save"@
}

/// The interface: the open rooms and the selected one, the message being
/// written, the command line, where keys go, and the status line.
#[derive(Debug)]
pub struct App<S> {
    rooms: Dispatcher<S>,
    input: Input,
    command: Command,
    focus: Focus,
    status: String,
    copy_buffer: String,
}

impl<S> App<S> {
    pub closed spec fn focus(&self) -> Focus {
        self.focus
    }

    pub closed spec fn status(&self) -> Seq<char> {
        self.status@
    }

    pub closed spec fn copy_buffer(&self) -> Seq<char> {
        self.copy_buffer@
    }

    /// The widget of the message being written.
    pub closed spec fn input_widget(&self) -> Text {
        self.input.widget()
    }

    /// The widget of the command line.
    pub closed spec fn command_widget(&self) -> Text {
        self.command.widget()
    }

    /// The lines of the message being written.
    pub closed spec fn message(&self) -> Seq<Seq<char>> {
        self.input.edit().text()
    }

    pub closed spec fn rooms(&self) -> Dispatcher<S> {
        self.rooms
    }

    pub closed spec fn wf(&self) -> bool {
        &&& self.rooms.wf()
        &&& self.input.edit().wf()
        &&& self.command.wf()
    }

    pub fn new() -> (r: App<S>)
        ensures
            r.wf(),
            r.focus() == Focus::Idle,
            r.rooms().addresses().len() == 0,
            r.status() == Seq::<char>::empty(),
    {
        App {
            rooms: Dispatcher::new(),
            input: Input::new(),
            command: Command::new(),
            focus: Focus::Idle,
            status: String::new(),
            copy_buffer: String::new(),
        }
    }

    /// The registry of open rooms.
    pub fn registry(&self) -> (r: &Dispatcher<S>)
        ensures
            *r == self.rooms(),
    {
        &self.rooms
    }

    /// The message being written, laid out in `area` (the view first follows
    /// the cursor).
    pub fn layout_input(&mut self, area: Area) -> (r: Vec<StringBlockItem>)
        requires
            old(self).wf(),
        ensures
            final(self).wf(),
            final(self).focus() == old(self).focus(),
            final(self).rooms() == old(self).rooms(),
            item_views(r@) == text_layout(final(self).input_widget(), area),
    {
        self.input.layout(area)
    }

    /// The command line, laid out in `area`.
    pub fn layout_command(&mut self, area: Area) -> (r: Vec<StringBlockItem>)
        requires
            old(self).wf(),
        ensures
            final(self).wf(),
            final(self).focus() == old(self).focus(),
            final(self).rooms() == old(self).rooms(),
            item_views(r@) == text_layout(final(self).command_widget(), area),
    {
        self.command.layout(area)
    }

    /// Rows the message takes at `width` columns (none when no width).
    pub fn input_height(&self, width: u16) -> (r: usize)
        requires
            self.wf(),
        ensures
            width == 0 ==> r == 0,
            width > 0 ==> r == height_of(self.input_widget().text.lines_widths@, width as nat),
    {
        if width == 0 {
            0
        } else {
            self.input.height(width)
        }
    }

    pub fn input_is_empty(&self) -> (r: bool)
        requires
            self.wf(),
        ensures
            r == (self.message().len() == 1 && self.message()[0].len() == 0),
    {
        self.input.is_empty()
    }

    pub fn focus_now(&self) -> (r: Focus)
        ensures
            r == self.focus(),
    {
        self.focus
    }

    pub fn status_text(&self) -> (r: &String)
        ensures
            r@ == self.status(),
    {
        &self.status
    }

    /// Enters a spawned room; a second room at one address is refused and
    /// the refusal shown in the status line.
    pub fn add_room(&mut self, id: RoomAddress, alias: String, sender: S) -> (r: bool)
        requires
            old(self).wf(),
        ensures
            final(self).wf(),
            final(self).focus() == old(self).focus(),
            r == (position_of(old(self).rooms().addresses(), id@) is None),
            r ==> final(self).rooms().addresses() == old(self).rooms().addresses().push(id@)
                && final(self).rooms().aliases() == old(self).rooms().aliases().push(alias@)
                && final(self).rooms().senders() == old(self).rooms().senders().push(sender)
                && final(self).rooms().current() == old(self).rooms().current()
                && final(self).status() == old(self).status(),
            !r ==> final(self).rooms() == old(self).rooms() && final(self).status() == address_taken(),
    {
        match self.rooms.register(id, alias, sender) {
            Ok(()) => true,
            Err(e) => {
                self.status = e;
                false
            },
        }
    }

    /// Handles a key: Ctrl-C quits; when idle, `m` goes to the message, `r`
    /// to the room, `:` to the command line, the arrows select a room;
    /// Escape gives up the focus; otherwise the focused part takes the key
    /// (Ctrl-S publishes the message being written).
    pub fn process_key(&mut self, key: Key) -> (r: Vec<Action>)
        requires
            old(self).wf(),
        ensures
            final(self).wf(),
            key == Key::Ctrl('c') ==> action_views(r@) == seq![ActionView::Quit],
            key != Key::Ctrl('c') && old(self).focus() == Focus::Idle ==> {
                &&& key == Key::Char('m') ==> final(self).focus() == Focus::Input && r@.len() == 0
                &&& key == Key::Char('r') ==> final(self).focus() == Focus::Room && r@.len() == 0
                &&& key == Key::Char(':') ==> final(self).focus() == Focus::Command && r@.len() == 0
                &&& key == Key::Esc ==> action_views(r@) == seq![ActionView::FocusLoss]
                &&& key == Key::Down ==> final(self).rooms().current() == if old(self).rooms().current() + 1 < old(self).rooms().addresses().len() {
                    old(self).rooms().current() + 1
                } else {
                    old(self).rooms().current()
                }
                &&& key == Key::Up ==> final(self).rooms().current() == if old(self).rooms().current() > 0 {
                    (old(self).rooms().current() - 1) as nat
                } else {
                    0
                }
            },
            key != Key::Ctrl('c') && old(self).focus() == Focus::Room ==> final(self).focus() == Focus::Room
                && (key == Key::Esc ==> action_views(r@) == seq![ActionView::FocusLoss])
                && (key != Key::Esc ==> r@.len() == 0),
            final(self).rooms().addresses() == old(self).rooms().addresses(),
    {
        let mut ret: Vec<Action> = Vec::new();
        if key == Key::Ctrl('c') {
            ret.push(Action::Command(CommandAction::Quit));
            assert(action_views(ret@) =~= seq![ActionView::Quit]);
            return ret;
        }
        match self.focus {
            Focus::Idle => {
                if key == Key::Char('m') {
                    self.focus = Focus::Input;
                    self.input.set_focused(true);
                } else if key == Key::Char('r') {
                    self.focus = Focus::Room;
                } else if key == Key::Char(':') {
                    self.focus = Focus::Command;
                    self.command.set_focus(true);
                } else if key == Key::Down {
                    self.rooms.select_next();
                } else if key == Key::Up {
                    self.rooms.select_previous();
                } else if key == Key::Esc {
                    ret.push(Action::FocusLoss);
                    assert(action_views(ret@) =~= seq![ActionView::FocusLoss]);
                }
                ret
            },
            Focus::Room => {
                if key == Key::Esc {
                    ret.push(Action::FocusLoss);
                    assert(action_views(ret@) =~= seq![ActionView::FocusLoss]);
                }
                ret
            },
            Focus::Input => {
                if key == Key::Ctrl('s') {
                    let msg = self.input.take_message();
                    ret.push(Action::Input(InputAction::Message(msg)));
                    return ret;
                }
                let out = self.input.process_event(Event::Key(key));
                if out.len() > 0 {
                    if let Action::FocusLoss = &out[0] {
                        self.input.set_focused(false);
                    }
                }
                out
            },
            Focus::Command => {
                if self.command.history_len() < usize::MAX - 2 {
                    self.command.process_event(Event::Key(key))
                } else {
                    ret
                }
            },
        }
    }

    /// Carries out an action: one for a room goes to the selected room;
    /// the others change the interface.
    pub fn execute_action(&mut self, action: Action) -> (r: Outcome)
        requires
            old(self).wf(),
        ensures
            final(self).wf(),
            final(self).rooms() == old(self).rooms(),
            match action {
                Action::Input(InputAction::Message(msg)) => sent_to_current(old(self).rooms(), r, |k: ActionKind| k matches ActionKind::Publish(m) && m@ == msg@),
                Action::Command(CommandAction::Connect) => sent_to_current(old(self).rooms(), r, |k: ActionKind| k matches ActionKind::Connect),
                Action::Command(CommandAction::Disconnect) => sent_to_current(old(self).rooms(), r, |k: ActionKind| k matches ActionKind::Disconnect),
                Action::Command(CommandAction::NewRoom(n)) => sent_to_current(old(self).rooms(), r, |k: ActionKind| k matches ActionKind::NewRoom(m) && m.alias@ == n.alias@ && m.command.deep_view() == n.command.deep_view()),
                Action::Command(CommandAction::Quit) => r is Quit,
                Action::Command(CommandAction::Save) => r is Nothing && final(self).status() == nothing_to_save(),
                Action::App(AppAction::StatusSet(s)) => r is Nothing && final(self).status() == s@,
                Action::App(AppAction::CopyBufferSet(b)) => r is Nothing && final(self).copy_buffer() == b@,
                Action::FocusLoss => r is Nothing && final(self).focus() == Focus::Idle,
                Action::Room(_) => r is Nothing,
            },
    {
        proof {
            reveal_strlit("Nothing to save");
        }
        match action {
            Action::Input(InputAction::Message(msg)) => self.to_current(ActionKind::Publish(msg)),
            Action::Command(act) => match act {
                CommandAction::Save => {
                    self.status = str_to_string("Nothing to save");
                    Outcome::Nothing
                },
                CommandAction::Quit => Outcome::Quit,
                CommandAction::NewRoom(n) => self.to_current(ActionKind::NewRoom(n)),
                CommandAction::Connect => self.to_current(ActionKind::Connect),
                CommandAction::Disconnect => self.to_current(ActionKind::Disconnect),
            },
            Action::Room(_) => Outcome::Nothing,
            Action::App(act) => match act {
                AppAction::CopyBufferSet(b) => {
                    self.copy_buffer = b;
                    Outcome::Nothing
                },
                AppAction::StatusSet(s) => {
                    self.status = s;
                    Outcome::Nothing
                },
            },
            Action::FocusLoss => {
                self.focus = Focus::Idle;
                Outcome::Nothing
            },
        }
    }

    fn to_current(&self, kind: ActionKind) -> (r: Outcome)
        requires
            self.wf(),
        ensures
            self.rooms().addresses().len() == 0 ==> r is Nothing,
            self.rooms().addresses().len() > 0 ==> (r matches Outcome::Send(a) && a.room@ == self.rooms().addresses()[
                self.rooms().current() as int] && a.action == kind),
    {
        match self.rooms.current_address() {
            Some(a) => Outcome::Send(RoomAction { room: a.copy(), action: kind }),
            None => Outcome::Nothing,
        }
    }
}

/// An action for the selected room went to it (nothing went anywhere when no
/// room is open).
pub open spec fn sent_to_current<S>(rooms: Dispatcher<S>, r: Outcome, kind_ok: spec_fn(ActionKind) -> bool) -> bool {
    if rooms.addresses().len() == 0 {
        r is Nothing
    } else {
        r matches Outcome::Send(a) && a.room@ == rooms.addresses()[rooms.current() as int] && kind_ok(a.action)
    }
}

} // verus!
