use crate::event::{str_to_string, Action, AppAction, Event, Key};
use crate::input::command::{action_view, action_views, ActionView};
use crate::text::editable_text::{height_of, join_lines, EditableText, TEXT_LIMIT};
use crate::text::block::{Area, StringBlockItem};
use crate::widget::text::{text_layout, Text};
use crate::text::block::item_views;
use vstd::prelude::*;

pub mod command;

verus! {

/// How keys act on the message being written: as commands (`Normal`), typed in
/// (`Insert`), or typed over (`Replace`).
#[derive(Debug, Clone, Copy, PartialEq, Eq, Structural)]
pub enum Mode {
    Normal,
    Insert,
    Replace,
}

pub open spec fn mode_name(m: Mode) -> Seq<char> {
    match m {
        Mode::Normal => ""@,
        Mode::Insert => "insert"@,
        Mode::Replace => "replace"@,
    }
}

impl Mode {
    /// The name shown in the status line.
    pub fn name(&self) -> (r: String)
        ensures
            r@ == mode_name(*self),
    {
        proof {
            reveal_strlit("");
            reveal_strlit("insert");
            reveal_strlit("replace");
        }
        match self {
            Mode::Normal => str_to_string(""),
            Mode::Insert => str_to_string("insert"),
            Mode::Replace => str_to_string("replace"),
        }
    }
}

/// The message being written, edited with modes.
#[derive(Debug)]
pub struct Input {
    mode: Mode,
    pub text_widget: Text,
    focused: bool,
}

impl Input {
    pub closed spec fn mode(&self) -> Mode {
        self.mode
    }

    pub closed spec fn focused(&self) -> bool {
        self.focused
    }

    /// The message as an editable text.
    pub open spec fn edit(&self) -> EditableText {
        self.widget().text
    }

    /// The text widget of the message.
    pub closed spec fn widget(&self) -> Text {
        self.text_widget
    }

    pub closed spec fn shows_cursor(&self) -> bool {
        self.text_widget.show_cursor
    }

    pub fn new() -> (r: Input)
        ensures
            r.edit().wf(),
            r.edit().text() == seq![Seq::<char>::empty()],
            r.mode() == Mode::Normal,
            !r.focused(),
            !r.shows_cursor(),
    {
        proof {
            reveal_strlit("");
        }
        let r = Input { mode: Mode::Normal, text_widget: Text::new(""), focused: false };
        assert(r.edit().text() =~= seq![Seq::<char>::empty()]);
        r
    }

    /// Rows the message takes at `width` columns.
    pub fn height(&self, width: u16) -> (r: usize)
        requires
            self.edit().wf(),
            width > 0,
        ensures
            r == height_of(self.edit().lines_widths@, width as nat),
    {
        self.text_widget.height(width)
    }

    pub fn is_empty(&self) -> (r: bool)
        ensures
            r == (self.edit().text().len() == 1 && self.edit().text()[0].len() == 0),
    {
        self.text_widget.text.is_empty()
    }

    /// Takes the message out (its lines joined) and leaves it empty.
    pub fn take_message(&mut self) -> (r: String)
        requires
            old(self).edit().wf(),
        ensures
            r@ == join_lines(old(self).edit().text()),
            final(self).edit().wf(),
            final(self).edit().text() == seq![Seq::<char>::empty()],
            final(self).mode() == old(self).mode(),
            final(self).focused() == old(self).focused(),
    {
        self.text_widget.text.consume()
    }

    /// The message laid out in `area`.
    pub fn layout(&mut self, area: Area) -> (r: Vec<StringBlockItem>)
        requires
            old(self).edit().wf(),
        ensures
            final(self).edit() == old(self).edit(),
            final(self).mode() == old(self).mode(),
            final(self).focused() == old(self).focused(),
            item_views(r@) == text_layout(final(self).widget(), area),
    {
        self.text_widget.layout(area)
    }

    pub fn set_focused(&mut self, focused: bool)
        ensures
            final(self).focused() == focused,
            final(self).shows_cursor() == focused,
            final(self).edit() == old(self).edit(),
            final(self).mode() == old(self).mode(),
    {
        self.focused = focused;
        self.text_widget.show_cursor = focused;
    }

    /// From `Normal`: typing goes in, with the cursor one place to the right.
    pub fn set_append_mode(&mut self)
        requires
            old(self).edit().wf(),
        ensures
            final(self).edit().wf(),
            final(self).edit().text() == old(self).edit().text(),
            old(self).mode() == Mode::Normal ==> final(self).mode() == Mode::Insert
                && final(self).edit().allow_cursor_over_limit
                && final(self).edit().cursor.line == old(self).edit().cursor.line
                && final(self).edit().cursor.char == if old(self).edit().cursor.char < old(self).edit().current().len() {
                    old(self).edit().cursor.char + 1
                } else {
                    old(self).edit().cursor.char as int
                },
            old(self).mode() != Mode::Normal ==> final(self).mode() == old(self).mode()
                && final(self).edit() == old(self).edit(),
            final(self).focused() == old(self).focused(),
    {
        if let Mode::Normal = self.mode {
            self.set_insert_mode();
            self.text_widget.text.right();
        }
    }

    /// From `Normal`: typing goes in.
    pub fn set_insert_mode(&mut self)
        requires
            old(self).edit().wf(),
        ensures
            final(self).edit().wf(),
            final(self).edit().text() == old(self).edit().text(),
            final(self).edit().cursor == old(self).edit().cursor,
            old(self).mode() == Mode::Normal ==> final(self).mode() == Mode::Insert
                && final(self).edit().allow_cursor_over_limit,
            old(self).mode() != Mode::Normal ==> final(self).mode() == old(self).mode()
                && final(self).edit() == old(self).edit(),
            final(self).focused() == old(self).focused(),
    {
        if let Mode::Normal = self.mode {
            self.text_widget.text.allow_cursor_over_limit = true;
            self.mode = Mode::Insert;
        }
    }

    /// From `Normal`: typing goes over.
    pub fn set_replace_mode(&mut self)
        requires
            old(self).edit().wf(),
        ensures
            final(self).edit().wf(),
            final(self).edit().text() == old(self).edit().text(),
            final(self).edit().cursor == old(self).edit().cursor,
            old(self).mode() == Mode::Normal ==> final(self).mode() == Mode::Replace
                && final(self).edit().allow_cursor_over_limit,
            old(self).mode() != Mode::Normal ==> final(self).mode() == old(self).mode()
                && final(self).edit() == old(self).edit(),
            final(self).focused() == old(self).focused(),
    {
        if let Mode::Normal = self.mode {
            self.text_widget.text.allow_cursor_over_limit = true;
            self.mode = Mode::Replace;
        }
    }

    /// Keys in `Normal` mode: `hjkl` and the arrows move, `i` and `a` start
    /// inserting (`a` one place further), `r` starts replacing; a character
    /// key also shows the mode in the status line.
    fn process_none_event(&mut self, event: Event) -> (r: Vec<Action>)
        requires
            old(self).edit().wf(),
            old(self).mode() == Mode::Normal,
        ensures
            final(self).edit().wf(),
            final(self).focused() == old(self).focused(),
            event matches Event::Key(Key::Char(c)) ==> action_views(r@) == seq![ActionView::Status(mode_name(final(self).mode()))]
                && final(self).mode() == match c {
                    'i' | 'a' => Mode::Insert,
                    'r' => Mode::Replace,
                    _ => Mode::Normal,
                },
            !(event matches Event::Key(Key::Char(_))) ==> r@.len() == 0 && final(self).mode() == Mode::Normal,
    {
        let mut ret: Vec<Action> = Vec::new();
        match event {
            Event::Key(k) => match k {
                Key::Char(c) => {
                    match c {
                        'h' => self.text_widget.text.left(),
                        'l' => self.text_widget.text.right(),
                        'j' => self.text_widget.text.down(),
                        'k' => self.text_widget.text.up(),
                        'i' => {
                            self.text_widget.text.allow_cursor_over_limit = true;
                            self.mode = Mode::Insert;
                        },
                        'a' => {
                            self.text_widget.text.allow_cursor_over_limit = true;
                            self.text_widget.text.right();
                            self.mode = Mode::Insert;
                        },
                        'r' => self.mode = Mode::Replace,
                        _ => {},
                    }
                    let a = Action::App(AppAction::StatusSet(self.mode.name()));
                    ret.push(a);
                    assert(action_views(ret@) =~= seq![action_view(a)]);
                },
                Key::Up => self.text_widget.text.up(),
                Key::Down => self.text_widget.text.down(),
                Key::Right => self.text_widget.text.right(),
                Key::Left => self.text_widget.text.left(),
                Key::Home => self.text_widget.text.home(),
                Key::End => self.text_widget.text.end(),
                _ => {},
            },
            _ => {},
        }
        ret
    }

    /// Keys in `Insert` or `Replace` mode: characters are typed in or over,
    /// arrows move, Escape goes back to `Normal` and gives up the focus.
    fn process_typing_event(&mut self, event: Event) -> (r: Vec<Action>)
        requires
            old(self).edit().wf(),
            old(self).mode() != Mode::Normal,
        ensures
            final(self).edit().wf(),
            final(self).focused() == old(self).focused(),
            event matches Event::Key(Key::Esc) ==> action_views(r@) == seq![ActionView::FocusLoss]
                && final(self).mode() == Mode::Normal,
            !(event matches Event::Key(Key::Esc)) ==> r@.len() == 0 && final(self).mode() == old(self).mode(),
    {
        let mut ret: Vec<Action> = Vec::new();
        let replacing = match self.mode {
            Mode::Replace => true,
            _ => false,
        };
        match event {
            Event::Key(k) => match k {
                Key::Char(c) => {
                    if self.text_widget.text.size() < TEXT_LIMIT {
                        if replacing {
                            self.text_widget.text.replace(c);
                        } else {
                            self.text_widget.text.insert(c);
                        }
                    }
                },
                Key::Backspace => {
                    if !replacing {
                        self.text_widget.text.backspace();
                    }
                },
                Key::Up => self.text_widget.text.up(),
                Key::Down => self.text_widget.text.down(),
                Key::Right => self.text_widget.text.right(),
                Key::Left => self.text_widget.text.left(),
                Key::Home => self.text_widget.text.home(),
                Key::End => self.text_widget.text.end(),
                Key::Esc => {
                    self.text_widget.text.left();
                    self.mode = Mode::Normal;
                    ret.push(Action::FocusLoss);
                    assert(action_views(ret@) =~= seq![ActionView::FocusLoss]);
                },
                _ => {},
            },
            _ => {},
        }
        ret
    }

    /// Handles a key in the current mode. Giving up the focus also clears the
    /// status line.
    pub fn process_event(&mut self, event: Event) -> (r: Vec<Action>)
        requires
            old(self).edit().wf(),
        ensures
            final(self).edit().wf(),
            final(self).focused() == old(self).focused(),
            old(self).mode() != Mode::Normal && (event matches Event::Key(Key::Esc)) ==> final(self).mode() == Mode::Normal
                && action_views(r@) == seq![ActionView::FocusLoss, ActionView::Status(Seq::empty())],
            old(self).mode() != Mode::Normal && !(event matches Event::Key(Key::Esc)) ==> final(self).mode() == old(self).mode()
                && r@.len() == 0,
            old(self).mode() == Mode::Normal && (event matches Event::Key(Key::Char(_))) ==> action_views(r@) == seq![
                ActionView::Status(mode_name(final(self).mode())),
            ],
            old(self).mode() == Mode::Normal && !(event matches Event::Key(Key::Char(_))) ==> r@.len() == 0
                && final(self).mode() == Mode::Normal,
    {
        proof {
            reveal_strlit("");
        }
        let tmp_ret = match self.mode {
            Mode::Normal => self.process_none_event(event),
            _ => self.process_typing_event(event),
        };
        let mut tmp = tmp_ret;
        let ghost tmp_views = action_views(tmp@);
        assert(tmp@.len() == tmp_views.len());
        let mut ret: Vec<Action> = Vec::new();
        if let Some(act) = tmp.pop() {
            assert(action_view(act) == tmp_views[0]);
            match act {
                Action::FocusLoss => {
                    ret.push(Action::FocusLoss);
                    ret.push(Action::App(AppAction::StatusSet(String::new())));
                    assert(action_views(ret@) =~= seq![ActionView::FocusLoss, ActionView::Status(Seq::empty())]);
                },
                act => {
                    ret.push(act);
                    assert(action_views(ret@) =~= seq![action_view(act)]);
                },
            }
        }
        ret
    }
}

} // verus!
