use alectro::{colorize, Color, Event, Modifier, Style};

#[test]
fn colorize_by_bytes() {
    // 0 * 'a' + 1 * 'n' + 2 * 'n' = 330, and 330 % 12 + 2 = 8.
    assert_eq!(colorize("ann"), Color::LightYellow);
    // 0 * 'b' + 1 * 'o' + 2 * 'b' = 307, and 307 % 12 + 2 = 9.
    assert_eq!(colorize("bob"), Color::LightGreen);
    assert_eq!(colorize(""), Color::Blue);
}

#[test]
fn colorize_wraps_at_sixteen_bits() {
    let name = "z".repeat(200);
    let mut sum: u16 = 0;
    for (i, b) in name.bytes().enumerate() {
        sum = sum.wrapping_add((i as u16).wrapping_mul(b as u16));
    }
    assert_eq!(colorize(&name).code(), (sum % 12) as u8 + 2);
}

#[test]
fn event_message_text() {
    let e = Event::message(Some("ann"), "#chat", "hi");
    assert_eq!(e.to_string(), "<\x038ann\x03> hi");
    assert_eq!(e.style(), None);
    let anon = Event::message(None, "#chat", "hi");
    assert_eq!(anon.to_string(), "<\x032\x03> hi");
}

#[test]
fn event_notice_text() {
    let e = Event::notice(Some("bob"), "#c", "hey");
    assert_eq!(e.to_string(), "<\x039\x02bob\x02\x030,7> hey");
    assert_eq!(e.style(), Some(Style { fg: Color::LightWhite, bg: Color::Yellow, modifier: Modifier::Reset }));
    assert_eq!(Event::notice(None, "#c", "hey").to_string(), "hey");
}

#[test]
fn event_join_part_text() {
    assert_eq!(Event::joined(Some("ann"), "#c").to_string(), "\x033+\x038ann\x03");
    assert_eq!(Event::parted(Some("ann"), "#c").to_string(), "\x035-\x038ann\x03");
    assert_eq!(Event::joined(None, "#c").to_string(), "");
}
