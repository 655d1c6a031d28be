use crate::event::{concat3, push_char, str_to_string, Action, AppAction, CommandAction, Event, Key};
use crate::room::net::NewRoom;
use crate::text::editable_text::{join_lines, lemma_join_len, lemma_join_split, TEXT_LIMIT};
use crate::text::block::{Area, StringBlockItem};
use crate::widget::text::{text_layout, Text};
use crate::text::block::item_views;
use vstd::prelude::*;
use vstd::string::StrSliceExecFns;

verus! {

/// The words of a command line: cut at each space (two spaces give an empty
/// word between them).
pub open spec fn words_of(s: Seq<char>) -> Seq<Seq<char>>
    decreases s.len(),
{
    if s.len() == 0 {
        seq![Seq::<char>::empty()]
    } else {
        let p = words_of(s.drop_last());
        if s.last() == ' ' {
            p.push(Seq::<char>::empty())
        } else {
            p.update(p.len() - 1, p.last().push(s.last()))
        }
    }
}

proof fn lemma_words_nonempty(s: Seq<char>)
    ensures
        words_of(s).len() >= 1,
    decreases s.len(),
{
    if s.len() > 0 {
        lemma_words_nonempty(s.drop_last());
    }
}

/// What an action of the command line is, as values.
pub enum ActionView {
    Save,
    Quit,
    Connect,
    Disconnect,
    NewRoom(Seq<char>, Seq<Seq<char>>),
    Status(Seq<char>),
    FocusLoss,
    Other,
}

pub open spec fn action_view(a: Action) -> ActionView {
    match a {
        Action::Command(CommandAction::Save) => ActionView::Save,
        Action::Command(CommandAction::Quit) => ActionView::Quit,
        Action::Command(CommandAction::Connect) => ActionView::Connect,
        Action::Command(CommandAction::Disconnect) => ActionView::Disconnect,
        Action::Command(CommandAction::NewRoom(r)) => ActionView::NewRoom(r.alias@, r.command.deep_view()),
        Action::App(AppAction::StatusSet(s)) => ActionView::Status(s@),
        Action::FocusLoss => ActionView::FocusLoss,
        _ => ActionView::Other,
    }
}

pub open spec fn action_views(v: Seq<Action>) -> Seq<ActionView> {
    v.map_values(|a: Action| action_view(a))
}

pub open spec fn spawn_syntax() -> Seq<char> {
    "Syntax: spawn <alias> ..."@
}

pub open spec fn unknown_command(cmd: Seq<char>) -> Seq<char> {
    "Unknown command '"@ + cmd + "'"@
}

/// The actions a command line asks for: `w` or `x` save, `q` quits,
/// `spawn <alias> <tokens...>` opens a room, `connect` and `disconnect` act on
/// the selected room; then the status line is set (to an error, or cleared),
/// and the command line gives up the focus.
pub open spec fn command_actions(line: Seq<char>) -> Seq<ActionView> {
    let words = words_of(line);
    let cmd = words[0];
    let args = words.skip(1);
    let status = ActionView::Status(Seq::empty());
    if cmd == "w"@ || cmd == "x"@ {
        seq![ActionView::Save, status, ActionView::FocusLoss]
    } else if cmd == "q"@ {
        seq![ActionView::Quit, status, ActionView::FocusLoss]
    } else if cmd == "spawn"@ {
        if args.len() == 0 {
            seq![ActionView::Status(spawn_syntax()), status, ActionView::FocusLoss]
        } else {
            seq![ActionView::NewRoom(args[0], args.skip(1)), status, ActionView::FocusLoss]
        }
    } else if cmd == "connect"@ {
        seq![ActionView::Connect, status, ActionView::FocusLoss]
    } else if cmd == "disconnect"@ {
        seq![ActionView::Disconnect, status, ActionView::FocusLoss]
    } else {
        seq![ActionView::Status(unknown_command(cmd)), ActionView::FocusLoss]
    }
}

/// The words of `line`.
pub fn split_words(line: &str) -> (r: Vec<String>)
    ensures
        r.deep_view() == words_of(line@),
{
    let n = line.unicode_len();
    let mut words: Vec<String> = Vec::new();
    let mut cur = String::new();
    let mut i: usize = 0;
    assert(line@.take(0) =~= Seq::<char>::empty());
    assert(words.deep_view().push(cur@) =~= seq![Seq::<char>::empty()]);
    while i < n
        invariant
            n == line@.len(),
            i <= n,
            words_of(line@.take(i as int)) == words.deep_view().push(cur@),
        decreases n - i,
    {
        let c = line.get_char(i);
        assert(line@.take(i + 1).drop_last() =~= line@.take(i as int));
        if c == ' ' {
            let ghost wv = words.deep_view();
            words.push(cur);
            assert(words.deep_view() =~= wv.push(words@.last()@));
            cur = String::new();
            assert(words.deep_view().push(cur@) =~= wv.push(words@.last()@).push(Seq::<char>::empty()));
        } else {
            let ghost old_cur = cur@;
            push_char(&mut cur, c);
            assert(words.deep_view().push(cur@) =~= words.deep_view().push(old_cur).update(words@.len() as int, old_cur.push(c)));
        }
        i = i + 1;
    }
    assert(line@.take(n as int) =~= line@);
    let ghost wv = words.deep_view();
    words.push(cur);
    assert(words.deep_view() =~= wv.push(words@.last()@));
    words
}

fn string_is(s: &String, lit: &str) -> (r: bool)
    ensures
        r == (s@ == lit@),
{
    let l = str_to_string(lit);
    *s == l
}

fn copy_words(v: &Vec<String>, from: usize) -> (r: Vec<String>)
    requires
        from <= v@.len(),
    ensures
        r.deep_view() == v.deep_view().skip(from as int),
{
    let mut r: Vec<String> = Vec::new();
    let mut i = from;
    while i < v.len()
        invariant
            from <= i <= v@.len(),
            r.deep_view() == v.deep_view().subrange(from as int, i as int),
        decreases v@.len() - i,
    {
        let ghost rv = r.deep_view();
        let w = v[i].clone();
        assert(w@ == v.deep_view()[i as int]);
        r.push(w);
        assert(r.deep_view() =~= rv.push(w@));
        assert(r.deep_view() =~= v.deep_view().subrange(from as int, i + 1));
        i = i + 1;
    }
    assert(v.deep_view().subrange(from as int, i as int) =~= v.deep_view().skip(from as int));
    r
}

fn push_action(v: &mut Vec<Action>, a: Action)
    ensures
        action_views(final(v)@) == action_views(old(v)@).push(action_view(a)),
{
    v.push(a);
    assert(action_views(final(v)@) =~= action_views(old(v)@).push(action_view(a)));
}

/// The actions that the command line `line` asks for.
pub fn parse_command(line: &str) -> (r: Vec<Action>)
    ensures
        action_views(r@) == command_actions(line@),
{
    proof {
        reveal_strlit("w");
        reveal_strlit("x");
        reveal_strlit("q");
        reveal_strlit("spawn");
        reveal_strlit("connect");
        reveal_strlit("disconnect");
        reveal_strlit("Syntax: spawn <alias> ...");
        reveal_strlit("Unknown command '");
        reveal_strlit("'");
        reveal_strlit("");
        lemma_words_nonempty(line@);
    }
    let words = split_words(line);
    let cmd = &words[0];
    let mut ret: Vec<Action> = Vec::new();
    assert(action_views(ret@) =~= Seq::<ActionView>::empty());
    let mut known = true;
    if string_is(cmd, "w") || string_is(cmd, "x") {
        push_action(&mut ret, Action::Command(CommandAction::Save));
    } else if string_is(cmd, "q") {
        push_action(&mut ret, Action::Command(CommandAction::Quit));
    } else if string_is(cmd, "spawn") {
        if words.len() < 2 {
            push_action(&mut ret, Action::App(AppAction::StatusSet(str_to_string("Syntax: spawn <alias> ..."))));
        } else {
            let alias = words[1].clone();
            let command = copy_words(&words, 2);
            assert(words.deep_view().skip(1).skip(1) =~= words.deep_view().skip(2));
            push_action(&mut ret, Action::Command(CommandAction::NewRoom(NewRoom { alias, command })));
        }
    } else if string_is(cmd, "connect") {
        push_action(&mut ret, Action::Command(CommandAction::Connect));
    } else if string_is(cmd, "disconnect") {
        push_action(&mut ret, Action::Command(CommandAction::Disconnect));
    } else {
        known = false;
        push_action(&mut ret, Action::App(AppAction::StatusSet(concat3("Unknown command '", cmd.as_str(), "'"))));
    }
    if known {
        push_action(&mut ret, Action::App(AppAction::StatusSet(String::new())));
    }
    push_action(&mut ret, Action::FocusLoss);
    ret
}

/// The command line: a one-line text, and the lines entered before.
#[derive(Debug)]
pub struct Command {
    text_widget: Text,
    focused: bool,
    history: Vec<String>,
    history_cursor: usize,
}

impl Command {
    /// The line being typed.
    pub closed spec fn line(&self) -> Seq<char> {
        join_lines(self.text_widget.text.text())
    }

    pub closed spec fn focused(&self) -> bool {
        self.focused
    }

    /// The text widget of the command line.
    pub closed spec fn widget(&self) -> Text {
        self.text_widget
    }

    /// The lines entered, the last one being the line in progress.
    pub closed spec fn history(&self) -> Seq<Seq<char>> {
        self.history.deep_view()
    }

    pub closed spec fn history_cursor(&self) -> nat {
        self.history_cursor as nat
    }

    pub closed spec fn wf(&self) -> bool {
        &&& self.text_widget.text.wf()
        &&& self.history@.len() >= 1
        &&& self.history_cursor < self.history@.len()
        &&& forall|i: int| 0 <= i < self.history@.len() ==> #[trigger] self.history@[i]@.len() + 1 <= TEXT_LIMIT
    }

    pub fn new() -> (r: Command)
        ensures
            r.wf(),
            r.line() == Seq::<char>::empty(),
            r.history() == seq![Seq::<char>::empty()],
            r.history_cursor() == 0,
            !r.focused(),
    {
        proof {
            reveal_strlit("");
        }
        let mut text_widget = Text::new("");
        text_widget.one_line = true;
        text_widget.text.allow_cursor_over_limit = true;
        let mut history: Vec<String> = Vec::new();
        history.push(String::new());
        let r = Command { text_widget, focused: false, history, history_cursor: 0 };
        assert(r.history() =~= seq![Seq::<char>::empty()]);
        assert(r.text_widget.text.text() =~= seq![Seq::<char>::empty()]);
        r
    }

    /// The text widget, to draw it.
    pub fn text_widget(&self) -> (r: &Text)
        ensures
            join_lines(r.text.text()) == self.line(),
    {
        &self.text_widget
    }

    /// The command line laid out in `area`.
    pub fn layout(&mut self, area: Area) -> (r: Vec<StringBlockItem>)
        requires
            old(self).wf(),
        ensures
            final(self).wf(),
            final(self).line() == old(self).line(),
            final(self).history() == old(self).history(),
            final(self).focused() == old(self).focused(),
            item_views(r@) == text_layout(final(self).widget(), area),
    {
        self.text_widget.layout(area)
    }

    /// Number of entries of the history.
    pub fn history_len(&self) -> (r: usize)
        ensures
            r == self.history().len(),
    {
        self.history.len()
    }

    pub fn set_focus(&mut self, focused: bool)
        requires
            old(self).wf(),
        ensures
            final(self).wf(),
            final(self).focused() == focused,
            final(self).line() == old(self).line(),
            final(self).history() == old(self).history(),
    {
        self.focused = focused;
        self.text_widget.show_cursor = focused;
    }

    fn show(&mut self, i: usize)
        requires
            old(self).wf(),
            i < old(self).history@.len(),
        ensures
            final(self).wf(),
            final(self).line() == old(self).history()[i as int],
            final(self).history() == old(self).history(),
            final(self).history_cursor() == i,
            final(self).focused() == old(self).focused(),
    {
        self.history_cursor = i;
        self.text_widget.set_text(self.history[i].as_str());
        self.text_widget.text.end();
        proof {
            lemma_join_split(self.history@[i as int]@);
        }
    }

    /// Shows the line entered before the one shown; leaving the line in
    /// progress keeps it as the last entry.
    pub fn history_up(&mut self)
        requires
            old(self).wf(),
        ensures
            final(self).wf(),
            old(self).history_cursor() == 0 ==> final(self).line() == old(self).line()
                && final(self).history() == old(self).history(),
            old(self).history_cursor() > 0 ==> final(self).history_cursor() == old(self).history_cursor() - 1,
            old(self).history_cursor() > 0 && old(self).history_cursor() + 1 == old(self).history().len()
                ==> final(self).history() == old(self).history().update(old(self).history_cursor() as int, old(self).line())
                && final(self).line() == old(self).history()[old(self).history_cursor() - 1 as int],
            old(self).history_cursor() > 0 && old(self).history_cursor() + 1 < old(self).history().len()
                ==> final(self).history() == old(self).history()
                && final(self).line() == old(self).history()[old(self).history_cursor() - 1 as int],
    {
        if self.history_cursor > 0 {
            let hist_max = self.history.len() - 1;
            if self.history_cursor == hist_max {
                proof {
                    lemma_join_len(self.text_widget.text.text());
                }
                let line = self.text_widget.text.consume();
                self.history.set(hist_max, line);
                assert(self.history.deep_view() =~= old(self).history().update(hist_max as int, old(self).line()));
            }
            let i = self.history_cursor - 1;
            self.show(i);
        }
    }

    /// Shows the line entered after the one shown.
    pub fn history_down(&mut self)
        requires
            old(self).wf(),
        ensures
            final(self).wf(),
            final(self).history() == old(self).history(),
            old(self).history_cursor() + 1 < old(self).history().len() ==> final(self).history_cursor()
                == old(self).history_cursor() + 1 && final(self).line() == old(self).history()[old(self).history_cursor() + 1 as int],
            old(self).history_cursor() + 1 >= old(self).history().len() ==> final(self).line() == old(self).line(),
    {
        if self.history_cursor < self.history.len() - 1 {
            let i = self.history_cursor + 1;
            self.show(i);
        }
    }

    /// Enters the line: it is kept in the history, the line is emptied, and
    /// the actions it asks for are returned.
    pub fn execute_command(&mut self) -> (r: Vec<Action>)
        requires
            old(self).wf(),
            old(self).history().len() + 1 < usize::MAX,
        ensures
            final(self).wf(),
            action_views(r@) == command_actions(old(self).line()),
            final(self).focused() == old(self).focused(),
            final(self).line() == Seq::<char>::empty(),
            final(self).history() == old(self).history().update(old(self).history().len() - 1, old(self).line()).push(
                Seq::<char>::empty(),
            ),
    {
        proof {
            lemma_join_len(self.text_widget.text.text());
        }
        let cmd_str = self.text_widget.text.consume();
        let hist_max = self.history.len() - 1;
        let ret = parse_command(cmd_str.as_str());
        self.history.set(hist_max, cmd_str);
        self.history.push(String::new());
        assert(self.history.deep_view() =~= old(self).history().update(hist_max as int, old(self).line()).push(
            Seq::<char>::empty(),
        ));
        assert(self.text_widget.text.text() =~= seq![Seq::<char>::empty()]);
        ret
    }

    /// Handles a key: Enter runs the line, Escape abandons it, arrows move
    /// in the line or in the history, other characters are typed.
    pub fn process_event(&mut self, event: Event) -> (r: Vec<Action>)
        requires
            old(self).wf(),
            old(self).history().len() + 1 < usize::MAX,
        ensures
            final(self).wf(),
            event matches Event::Key(Key::Char('\n')) ==> action_views(r@) == command_actions(old(self).line())
                && !final(self).focused(),
            event matches Event::Key(Key::Esc) ==> action_views(r@) == seq![ActionView::FocusLoss]
                && !final(self).focused() && final(self).line() == Seq::<char>::empty(),
            !(event matches Event::Key(Key::Char('\n'))) && !(event matches Event::Key(Key::Esc)) ==> r@.len() == 0,
    {
        let mut ret: Vec<Action> = Vec::new();
        match event {
            Event::Key(k) => match k {
                Key::Char(c) => {
                    if c == '\n' {
                        self.set_focus(false);
                        return self.execute_command();
                    } else if self.text_widget.text.size() < TEXT_LIMIT {
                        self.text_widget.text.insert(c);
                    }
                },
                Key::Backspace => self.text_widget.text.backspace(),
                Key::Up => self.history_up(),
                Key::Down => self.history_down(),
                Key::Right => self.text_widget.text.right(),
                Key::Left => self.text_widget.text.left(),
                Key::Home => self.text_widget.text.home(),
                Key::End => self.text_widget.text.end(),
                Key::Esc => {
                    self.set_focus(false);
                    self.text_widget.text.reset();
                    push_action(&mut ret, Action::FocusLoss);
                    assert(self.text_widget.text.text() =~= seq![Seq::<char>::empty()]);
                    return ret;
                },
                _ => {},
            },
            _ => {},
        }
        ret
    }
}

} // verus!
