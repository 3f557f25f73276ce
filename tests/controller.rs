use alectro::controller::{handle_event, handle_message, parse_command, Action, Command, Key, Message};
use alectro::{ChatBuf, Error, UI};

fn row(c: &ChatBuf, y: u16) -> String {
    let buf = c.buffer();
    let b = *buf.bound();
    let mut s = String::new();
    for x in b.x..b.x + b.width {
        s.push_str(buf.get(x, y));
    }
    s
}

fn type_line(ui: &mut UI, s: &str) {
    for c in s.chars() {
        assert!(matches!(handle_event(ui, Key::Char(c), "me"), Ok(Action::Nothing)));
    }
}

#[test]
fn command_parsing() {
    assert!(matches!(parse_command("/switch #a"), Command::Switch(a) if a == "#a"));
    assert!(matches!(parse_command("/join #x extra"), Command::Join(a) if a == "#x"));
    assert!(matches!(parse_command("/part #x"), Command::Part(a) if a == "#x"));
    assert!(matches!(parse_command("/quit"), Command::Quit));
    assert!(matches!(parse_command("/quit now"), Command::Quit));
    assert!(matches!(parse_command("/switch"), Command::Ignored));
    assert!(matches!(parse_command("/foo bar"), Command::Ignored));
    assert!(matches!(parse_command("hello there"), Command::Say));
    assert!(matches!(parse_command(""), Command::Say));
    assert!(matches!(parse_command("/join "), Command::Join(a) if a.is_empty()));
}

#[test]
fn enter_sends_text_to_current() {
    let mut ui = UI::new(20, 6);
    type_line(&mut ui, "hi");
    match handle_event(&mut ui, Key::Char('\n'), "me") {
        Ok(Action::Send { target, text }) => {
            assert_eq!(target, "*default*");
            assert_eq!(text, "hi");
        },
        _ => panic!("expected Send"),
    }
    assert!(row(ui.chat_buf("*default*").unwrap(), 0).starts_with("<me> hi"));
    assert_eq!(ui.input().get_content(), "");
}

#[test]
fn enter_join_and_part() {
    let mut ui = UI::new(20, 6);
    type_line(&mut ui, "/join #x");
    assert!(matches!(handle_event(&mut ui, Key::Char('\n'), "me"), Ok(Action::Join(n)) if n == "#x"));
    assert_eq!(ui.current_buf(), "#x");
    type_line(&mut ui, "/part #x");
    assert!(matches!(handle_event(&mut ui, Key::Char('\n'), "me"), Ok(Action::Part(n)) if n == "#x"));
    assert_eq!(ui.current_buf(), "*default*");
    assert_eq!(ui.has_chat_buf("#x").unwrap(), false);
}

#[test]
fn enter_switch_to_missing_fails() {
    let mut ui = UI::new(20, 6);
    type_line(&mut ui, "/switch #nope");
    assert!(matches!(handle_event(&mut ui, Key::Char('\n'), "me"), Err(Error::TabNotFound { .. })));
    assert_eq!(ui.input().get_content(), "/switch #nope");
}

#[test]
fn quit_keys() {
    let mut ui = UI::new(20, 6);
    assert!(matches!(handle_event(&mut ui, Key::Ctrl('c'), "me"), Ok(Action::Quit)));
    assert!(matches!(handle_event(&mut ui, Key::Ctrl('d'), "me"), Ok(Action::Quit)));
    assert!(matches!(handle_event(&mut ui, Key::Ctrl('x'), "me"), Ok(Action::Nothing)));
    type_line(&mut ui, "/quit");
    assert!(matches!(handle_event(&mut ui, Key::Char('\n'), "me"), Ok(Action::Quit)));
}

#[test]
fn editing_keys() {
    let mut ui = UI::new(20, 6);
    type_line(&mut ui, "abc");
    handle_event(&mut ui, Key::Left, "me").unwrap();
    handle_event(&mut ui, Key::Backspace, "me").unwrap();
    assert_eq!(ui.input().get_content(), "ac");
    handle_event(&mut ui, Key::Right, "me").unwrap();
    assert_eq!(ui.input().cursor(), 2);
    handle_event(&mut ui, Key::Char('\n'), "me").unwrap();
    handle_event(&mut ui, Key::Up, "me").unwrap();
    assert_eq!(ui.input().get_content(), "ac");
    handle_event(&mut ui, Key::Down, "me").unwrap();
    assert_eq!(ui.input().get_content(), "");
    assert!(matches!(handle_event(&mut ui, Key::Other, "me"), Ok(Action::Nothing)));
}

#[test]
fn messages_are_routed() {
    let mut ui = UI::new(20, 6);
    ui.new_chat_buf("#a").unwrap();
    let msg = |target: &str, text: &str| Message::PrivMsg {
        source: Some("x".to_string()),
        target: target.to_string(),
        text: text.to_string(),
    };
    handle_message(&mut ui, msg("#unknown", "lost")).unwrap();
    assert!(row(ui.chat_buf("*default*").unwrap(), 0).trim().is_empty());
    handle_message(&mut ui, msg("#a", "one")).unwrap();
    assert!(row(ui.chat_buf("#a").unwrap(), 0).starts_with("<x> one"));
    handle_message(&mut ui, msg("me", "two")).unwrap();
    assert!(row(ui.chat_buf("*default*").unwrap(), 0).starts_with("<x> two"));
    handle_message(&mut ui, Message::Join { source: Some("y".to_string()), chan: "#a".to_string() }).unwrap();
    assert_eq!(row(ui.chat_buf("#a").unwrap(), 1).trim_end(), "+y");
    handle_message(&mut ui, Message::Part { source: Some("y".to_string()), chan: "#a".to_string() }).unwrap();
    assert_eq!(row(ui.chat_buf("#a").unwrap(), 2).trim_end(), "-y");
    handle_message(&mut ui, Message::Other).unwrap();
}

#[test]
fn names_reply_adds_joins() {
    let mut ui = UI::new(20, 6);
    ui.new_chat_buf("#a").unwrap();
    handle_message(
        &mut ui,
        Message::Names { chan: "#a".to_string(), nicks: vec!["p".to_string(), String::new(), "q".to_string()] },
    )
    .unwrap();
    assert_eq!(row(ui.chat_buf("#a").unwrap(), 0).trim_end(), "+p");
    assert_eq!(row(ui.chat_buf("#a").unwrap(), 1).trim_end(), "+q");
    assert!(row(ui.chat_buf("#a").unwrap(), 2).trim().is_empty());
}
