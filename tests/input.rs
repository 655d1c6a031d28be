use roomchat::event::{Action, AppAction, CommandAction, Event, Key};
use roomchat::input::command::{parse_command, split_words, Command};
use roomchat::input::{Input, Mode};

fn status(a: &Action) -> Option<String> {
    match a {
        Action::App(AppAction::StatusSet(s)) => Some(s.clone()),
        _ => None,
    }
}

#[test]
fn command_words_keep_empty_fields() {
    assert_eq!(split_words("a  b"), vec!["a", "", "b"]);
    assert_eq!(split_words(""), vec![""]);
}

#[test]
fn spawn_command_carries_alias_and_tokens() {
    let acts = parse_command("spawn work matrix https://h.example bob");
    assert_eq!(acts.len(), 3);
    match &acts[0] {
        Action::Command(CommandAction::NewRoom(r)) => {
            assert_eq!(r.alias, "work");
            assert_eq!(r.command, vec!["matrix", "https://h.example", "bob"]);
        }
        other => panic!("unexpected {:?}", other),
    }
    assert_eq!(status(&acts[1]), Some(String::new()));
    assert!(matches!(acts[2], Action::FocusLoss));
}

#[test]
fn other_commands() {
    let q = parse_command("q");
    assert!(matches!(q[0], Action::Command(CommandAction::Quit)));
    let w = parse_command("w");
    assert!(matches!(w[0], Action::Command(CommandAction::Save)));
    let c = parse_command("connect");
    assert!(matches!(c[0], Action::Command(CommandAction::Connect)));
    let d = parse_command("disconnect");
    assert!(matches!(d[0], Action::Command(CommandAction::Disconnect)));
    let s = parse_command("spawn");
    assert_eq!(status(&s[0]), Some("Syntax: spawn <alias> ...".to_string()));
    assert_eq!(s.len(), 3);
    let u = parse_command("dance now");
    assert_eq!(u.len(), 2);
    assert_eq!(status(&u[0]), Some("Unknown command 'dance'".to_string()));
    assert!(matches!(u[1], Action::FocusLoss));
}

#[test]
fn command_line_runs_and_remembers() {
    let mut c = Command::new();
    c.set_focus(true);
    for ch in "connect".chars() {
        assert!(c.process_event(Event::Key(Key::Char(ch))).is_empty());
    }
    let acts = c.process_event(Event::Key(Key::Char('\n')));
    assert!(matches!(acts[0], Action::Command(CommandAction::Connect)));
    assert_eq!(c.text_widget().text.lines[0].line, "");
    c.history_down();
    c.history_up();
    assert_eq!(c.text_widget().text.lines[0].line, "connect");
    let esc = c.process_event(Event::Key(Key::Esc));
    assert_eq!(esc.len(), 1);
    assert!(matches!(esc[0], Action::FocusLoss));
    assert_eq!(c.text_widget().text.lines[0].line, "");
}

#[test]
fn input_modes() {
    assert_eq!(Mode::Insert.name(), "insert");
    assert_eq!(Mode::Normal.name(), "");
    let mut i = Input::new();
    let acts = i.process_event(Event::Key(Key::Char('i')));
    assert_eq!(status(&acts[0]), Some("insert".to_string()));
    assert!(i.process_event(Event::Key(Key::Char('h'))).is_empty());
    assert!(i.process_event(Event::Key(Key::Char('i'))).is_empty());
    let out = i.process_event(Event::Key(Key::Esc));
    assert_eq!(out.len(), 2);
    assert!(matches!(out[0], Action::FocusLoss));
    assert_eq!(status(&out[1]), Some(String::new()));
    assert_eq!(i.text_widget.text.lines[0].line, "hi");
    let r = i.process_event(Event::Key(Key::Char('r')));
    assert_eq!(status(&r[0]), Some("replace".to_string()));
    i.process_event(Event::Key(Key::Home));
    i.process_event(Event::Key(Key::Char('H')));
    assert_eq!(i.text_widget.text.lines[0].line, "Hi");
    let mut j = Input::new();
    j.set_replace_mode();
    j.set_insert_mode();
    j.process_event(Event::Key(Key::Char('z')));
    assert_eq!(j.text_widget.text.lines[0].line, "z");
    let mut k = Input::new();
    k.set_append_mode();
    k.set_focused(true);
    k.process_event(Event::Key(Key::Char('q')));
    assert_eq!(k.text_widget.text.lines[0].line, "q");
}
