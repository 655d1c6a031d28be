use roomchat::app::{App, Focus, Outcome};
use roomchat::event::{Action, AppAction, CommandAction, InputAction, Key};
use roomchat::room::net::ActionKind;
use roomchat::room::RoomAddress;
use roomchat::text::block::Area;

fn app_with_rooms() -> App<u8> {
    let mut app: App<u8> = App::new();
    assert!(app.add_room(RoomAddress::root(), "main".to_string(), 0));
    assert!(app.add_room(RoomAddress { segments: vec![1] }, "m".to_string(), 1));
    app
}

#[test]
fn keys_move_the_focus_and_selection() {
    let mut app = app_with_rooms();
    assert_eq!(app.focus_now(), Focus::Idle);
    assert_eq!(Focus::Input.name(), "Message");
    assert!(app.process_key(Key::Down).is_empty());
    assert_eq!(app.registry().current_address().unwrap().segments, vec![1]);
    assert!(app.process_key(Key::Char('m')).is_empty());
    assert_eq!(app.focus_now(), Focus::Input);
    app.process_key(Key::Char('i'));
    app.process_key(Key::Char('y'));
    app.process_key(Key::Char('o'));
    let sent = app.process_key(Key::Ctrl('s'));
    match &sent[0] {
        Action::Input(InputAction::Message(m)) => assert_eq!(m, "yo"),
        other => panic!("unexpected {:?}", other),
    }
    assert!(app.input_is_empty());
    let quit = app.process_key(Key::Ctrl('c'));
    assert!(matches!(quit[0], Action::Command(CommandAction::Quit)));
}

#[test]
fn actions_go_to_the_selected_room() {
    let mut app = app_with_rooms();
    app.process_key(Key::Down);
    match app.execute_action(Action::Command(CommandAction::Connect)) {
        Outcome::Send(a) => {
            assert_eq!(a.room, RoomAddress { segments: vec![1] });
            assert!(matches!(a.action, ActionKind::Connect));
        }
        other => panic!("unexpected {:?}", other),
    }
    assert!(matches!(app.execute_action(Action::Command(CommandAction::Quit)), Outcome::Quit));
    app.execute_action(Action::App(AppAction::StatusSet("hi".to_string())));
    assert_eq!(app.status_text(), "hi");
    app.execute_action(Action::Command(CommandAction::Save));
    assert_eq!(app.status_text(), "Nothing to save");
    app.process_key(Key::Char(':'));
    assert_eq!(app.focus_now(), Focus::Command);
    assert!(matches!(app.execute_action(Action::FocusLoss), Outcome::Nothing));
    assert_eq!(app.focus_now(), Focus::Idle);
    let mut empty: App<u8> = App::new();
    assert!(matches!(empty.execute_action(Action::Command(CommandAction::Connect)), Outcome::Nothing));
    assert!(!app.add_room(RoomAddress::root(), "again".to_string(), 9));
    assert_eq!(app.status_text(), "A room is already open at this address");
}

#[test]
fn command_line_through_the_interface() {
    let mut app = app_with_rooms();
    app.process_key(Key::Char(':'));
    for c in "spawn x matrix".chars() {
        app.process_key(Key::Char(c));
    }
    let items = app.layout_command(Area { x: 1, y: 5, width: 40, height: 1 });
    assert_eq!(items[0].s, "spawn x matrix");
    let acts = app.process_key(Key::Char('\n'));
    match &acts[0] {
        Action::Command(CommandAction::NewRoom(r)) => {
            assert_eq!(r.alias, "x");
            assert_eq!(r.command, vec!["matrix"]);
        }
        other => panic!("unexpected {:?}", other),
    }
    assert_eq!(app.input_height(10), 1);
    assert!(app.layout_input(Area { x: 0, y: 0, width: 0, height: 1 }).is_empty());
}
