use alectro::{Color, Modifier, Style};

#[test]
fn color_escape_sequences() {
    assert_eq!(Color::Red.to_fg_string(), "\x1b[38;5;1m");
    assert_eq!(Color::LightWhite.to_bg_string(), "\x1b[48;5;15m");
    assert_eq!(Color::Black.to_fg_string(), "\x1b[38;5;0m");
    assert_eq!(Color::Reset.to_fg_string(), "\x1b[39m");
    assert_eq!(Color::Reset.to_bg_string(), "\x1b[49m");
}

#[test]
fn color_codes_round_trip() {
    assert_eq!(Color::from_u8(4), Some(Color::LightRed));
    assert_eq!(Color::from_u8(0), Some(Color::LightWhite));
    assert_eq!(Color::from_u8(15), Some(Color::White));
    assert_eq!(Color::from_u8(255), Some(Color::Reset));
    assert_eq!(Color::from_u8(16), None);
    assert_eq!(Color::from_u8(99), None);
    for v in 0u8..16 {
        assert_eq!(Color::from_u8(v).unwrap().code(), v);
    }
}

#[test]
fn color_markup() {
    assert_eq!(Color::LightRed.to_irc_color(), "\x034");
    assert_eq!(Color::White.to_irc_color(), "\x0315");
    assert_eq!(Color::Reset.to_irc_color(), "\x03");
}

#[test]
fn modifier_escape_sequences() {
    assert_eq!(Modifier::Bold.to_string(), "\x1b[1m");
    assert_eq!(Modifier::NoBold.to_string(), "\x1b[21m");
    assert_eq!(Modifier::Framed.to_string(), "\x1b[51m");
    assert_eq!(Modifier::Reset.to_string(), "\x1b[m");
    assert_eq!(Modifier::Underline.to_string(), "\x1b[4m");
    assert_eq!(Modifier::NoInvert.to_string(), "\x1b[27m");
}

#[test]
fn modifier_inverse() {
    assert_eq!(Modifier::Bold.inverted(), Some(Modifier::NoBold));
    assert_eq!(Modifier::NoItalic.inverted(), Some(Modifier::Italic));
    assert_eq!(Modifier::Framed.inverted(), None);
    assert_eq!(Modifier::Reset.inverted(), None);
}

#[test]
fn style_toggle() {
    let s = Style::default().modifier_with_toggle(Modifier::Bold);
    assert_eq!(s.modifier, Modifier::Bold);
    let s = s.modifier_with_toggle(Modifier::Bold);
    assert_eq!(s.modifier, Modifier::NoBold);
    let f = Style::default().modifier(Modifier::Framed).modifier_with_toggle(Modifier::Framed);
    assert_eq!(f.modifier, Modifier::Reset);
    let u = Style::default().fg(Color::Red).modifier_with_toggle(Modifier::Italic);
    assert_eq!(u, Style { fg: Color::Red, bg: Color::Reset, modifier: Modifier::Italic });
}

#[test]
fn style_builders_and_reset() {
    let mut s = Style::from(Color::Cyan).bg(Color::Blue).modifier(Modifier::Underline);
    assert_eq!(s, Style { fg: Color::Cyan, bg: Color::Blue, modifier: Modifier::Underline });
    s.reset();
    assert_eq!(s, Style::default());
    assert_eq!(Style::from(Modifier::Blink), Style { fg: Color::Reset, bg: Color::Reset, modifier: Modifier::Blink });
}
