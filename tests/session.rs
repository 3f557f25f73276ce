use alectro::{ChatBuf, Error, Event, UI};

fn row(c: &ChatBuf, y: u16) -> String {
    let buf = c.buffer();
    let b = *buf.bound();
    let mut s = String::new();
    for x in b.x..b.x + b.width {
        s.push_str(buf.get(x, y));
    }
    s
}

fn blank(c: &ChatBuf) -> bool {
    c.buffer().inner().iter().all(|cell| cell.grapheme == " ")
}

#[test]
fn session_starts_with_default_buffer() {
    let ui = UI::new(20, 6);
    assert_eq!(ui.current_buf(), "*default*");
    assert_eq!(ui.has_chat_buf("*default*").unwrap(), true);
    assert_eq!(ui.tabline().len(), 1);
    assert_eq!(ui.tabline().flags(0), (true, false));
    let b = *ui.chat_buf("*default*").unwrap().buffer().bound();
    assert_eq!((b.x, b.y, b.width, b.height), (0, 0, 20, 4));
}

#[test]
fn session_unknown_channel_goes_to_default() {
    let mut ui = UI::new(20, 6);
    ui.new_chat_buf("#a").unwrap();
    ui.add_event_to_chat_buf("#b", Event::message(Some("x"), "#b", "yo")).unwrap();
    assert!(blank(ui.chat_buf("#a").unwrap()));
    assert!(row(ui.chat_buf("*default*").unwrap(), 0).starts_with("<x> yo"));
}

#[test]
fn session_known_channel_gets_its_event() {
    let mut ui = UI::new(20, 6);
    ui.new_chat_buf("#a").unwrap();
    ui.add_event_to_chat_buf("#a", Event::message(Some("x"), "#a", "yo")).unwrap();
    assert!(row(ui.chat_buf("#a").unwrap(), 0).starts_with("<x> yo"));
    assert!(blank(ui.chat_buf("*default*").unwrap()));
}

#[test]
fn session_non_channel_name_goes_to_default() {
    let mut ui = UI::new(20, 6);
    ui.new_chat_buf("bob").unwrap();
    ui.add_event_to_chat_buf("bob", Event::message(Some("bob"), "me", "psst")).unwrap();
    assert!(blank(ui.chat_buf("bob").unwrap()));
    assert!(row(ui.chat_buf("*default*").unwrap(), 0).starts_with("<bob> psst"));
}

#[test]
fn session_event_to_current() {
    let mut ui = UI::new(20, 6);
    ui.new_chat_buf("#a").unwrap();
    ui.switch_to("#a").unwrap();
    ui.add_event_to_current_chat_buf(Event::notice(None, "#a", "note")).unwrap();
    assert_eq!(row(ui.chat_buf("#a").unwrap(), 0), "note                ");
}

#[test]
fn session_switch_to_missing_changes_nothing() {
    let mut ui = UI::new(20, 6);
    match ui.switch_to("#nope") {
        Err(Error::TabNotFound { tab }) => assert_eq!(tab, "#nope"),
        _ => panic!("expected TabNotFound"),
    }
    assert_eq!(ui.current_buf(), "*default*");
    assert_eq!(ui.tabline().current(), 0);
}

#[test]
fn session_new_chat_buf_twice_keeps_one_tab() {
    let mut ui = UI::new(20, 6);
    ui.new_chat_buf("#a").unwrap();
    ui.add_event_to_chat_buf("#a", Event::notice(None, "#a", "x")).unwrap();
    ui.new_chat_buf("#a").unwrap();
    assert_eq!(ui.tabline().len(), 2);
    assert!(blank(ui.chat_buf("#a").unwrap()));
}

#[test]
fn session_remove_current_falls_back_to_default() {
    let mut ui = UI::new(20, 6);
    ui.new_chat_buf("#a").unwrap();
    ui.new_chat_buf("#b").unwrap();
    ui.switch_to("#a").unwrap();
    ui.remove_chat_buf("#a").unwrap();
    assert_eq!(ui.current_buf(), "*default*");
    assert_eq!(ui.has_chat_buf("#a").unwrap(), false);
    assert_eq!(ui.tabline().len(), 2);
    assert_eq!(ui.tabline().current(), 0);
    assert_eq!(ui.tabline().flags(0), (true, false));
    assert_eq!(ui.tabline().flags(1), (false, false));
}

#[test]
fn session_remove_other_keeps_current() {
    let mut ui = UI::new(20, 6);
    ui.new_chat_buf("#a").unwrap();
    ui.new_chat_buf("#b").unwrap();
    ui.switch_to("#b").unwrap();
    ui.remove_chat_buf("#a").unwrap();
    assert_eq!(ui.current_buf(), "#b");
    assert_eq!(ui.tabline().current(), 1);
    assert_eq!(ui.tabline().flags(0), (false, true));
}

#[test]
fn session_remove_missing_and_default() {
    let mut ui = UI::new(20, 6);
    assert!(matches!(ui.remove_chat_buf("#zz"), Err(Error::TabNotFound { .. })));
    ui.remove_chat_buf("*default*").unwrap();
    assert_eq!(ui.has_chat_buf("*default*").unwrap(), true);
    assert_eq!(ui.tabline().len(), 1);
}

#[test]
fn session_end_to_end() {
    let mut ui = UI::new(30, 6);
    ui.new_chat_buf("#chat").unwrap();
    assert_eq!(ui.tabline().flags(1), (false, false));
    ui.add_event_to_chat_buf("#chat", Event::message(Some("ann"), "#chat", "hi")).unwrap();
    ui.switch_to("#chat").unwrap();
    let out = ui.draw_all().unwrap();
    assert_eq!(row(ui.chat_buf("#chat").unwrap(), 0), "<ann> hi                      ");
    assert!(out.contains("ann"));
    assert!(out.contains("hi"));
    assert!(out.find("ann").unwrap() < out.find("hi").unwrap());
    assert_eq!(ui.current_buf(), "#chat");
    assert_eq!(ui.tabline().flags(1), (true, false));
    // The default tab directly precedes the current one.
    assert_eq!(ui.tabline().flags(0), (false, true));
    assert!(out.ends_with("\x1b[6;1H"));
    let frame = ui.terminal().previous_buf();
    let mut top = String::new();
    for x in 0..8 {
        top.push_str(frame.get(x, 0));
    }
    assert_eq!(top, "<ann> hi");
    assert_eq!(frame.get_style(1, 0).fg, alectro::Color::LightYellow);
    // Tab strip on row 4: " *default* " then the separator, then " #chat ".
    assert_eq!(frame.get(1, 4), "*");
    assert_eq!(frame.get(13, 4), "#");
    assert_eq!(frame.get_style(13, 4).bg, alectro::Color::Magenta);
}

#[test]
fn session_layout_rows() {
    let ui = UI::new(20, 6);
    assert_eq!(*ui.tabline().buffer().bound(), alectro::Bound::new(0, 4, 20, 1));
    assert_eq!(*ui.input().buffer().bound(), alectro::Bound::new(0, 5, 20, 1));
    assert_eq!(*ui.terminal().current_buf().bound(), alectro::Bound::new(0, 0, 20, 6));
    assert_eq!(ui.input().get_content(), "");
}

#[test]
fn session_draw_all_twice_writes_only_changes() {
    let mut ui = UI::new(10, 4);
    let first = ui.draw_all().unwrap();
    assert!(first.contains("*default*"));
    let second = ui.draw_all().unwrap();
    assert_eq!(second, "\x1b[39m\x1b[49m\x1b[m\x1b[4;1H");
}
