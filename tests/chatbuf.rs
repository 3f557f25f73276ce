use alectro::model;
use alectro::{Bound, Buffer, ChatBuf, Color, Event, Modifier, Style};

fn chat(width: u16, height: u16) -> ChatBuf {
    ChatBuf::from_buffer(Buffer::empty(Bound::new(0, 0, width, height)))
}

fn row(c: &ChatBuf, y: u16) -> String {
    let buf = c.buffer();
    let b = *buf.bound();
    let mut s = String::new();
    for x in b.x..b.x + b.width {
        s.push_str(buf.get(x, y));
    }
    s
}

fn has_control(c: &ChatBuf) -> bool {
    c.buffer()
        .inner()
        .iter()
        .any(|cell| cell.grapheme.chars().any(|ch| ['\x02', '\x03', '\x0f', '\x16', '\x1d', '\x1f'].contains(&ch)))
}

#[test]
fn chatbuf_color_markup_renders_plain_text() {
    let mut c = chat(10, 2);
    c.push_line("\x034hello", None);
    assert_eq!(row(&c, 0), "hello     ");
    for x in 0..5 {
        assert_eq!(c.buffer().get_style(x, 0), Style::default().fg(Color::LightRed));
    }
    assert_eq!(c.buffer().get_style(5, 0), Style::default());
    assert!(!has_control(&c));
}

#[test]
fn chatbuf_background_markup() {
    let mut c = chat(4, 1);
    c.push_line("\x034,7ab", None);
    assert_eq!(row(&c, 0), "ab  ");
    assert_eq!(c.buffer().get_style(0, 0), Style { fg: Color::LightRed, bg: Color::Yellow, modifier: Modifier::Reset });
}

#[test]
fn chatbuf_two_digit_color() {
    let mut c = chat(4, 1);
    c.push_line("\x0312ab", None);
    assert_eq!(row(&c, 0), "ab  ");
    assert_eq!(c.buffer().get_style(0, 0).fg, Color::LightBlue);
}

#[test]
fn chatbuf_bare_introducer_resets_colors() {
    let mut c = chat(3, 1);
    let notice = Style { fg: Color::LightWhite, bg: Color::Yellow, modifier: Modifier::Reset };
    c.push_line("a\x03b", Some(notice));
    assert_eq!(row(&c, 0), "ab ");
    assert_eq!(c.buffer().get_style(0, 0), notice);
    assert_eq!(c.buffer().get_style(1, 0), Style::default());
}

#[test]
fn chatbuf_invalid_color_index_is_text() {
    let mut c = chat(4, 1);
    c.push_line("\x0399x", None);
    assert_eq!(row(&c, 0), "99x ");
    assert!(!has_control(&c));
}

#[test]
fn chatbuf_color_at_end_of_line() {
    let mut c = chat(4, 1);
    c.push_line("ab\x034", None);
    assert_eq!(row(&c, 0), "ab  ");
    assert!(!has_control(&c));
}

#[test]
fn chatbuf_modifier_toggles_and_reset() {
    let mut c = chat(4, 1);
    c.push_line("\x02b\x02c\x034d\x0fe", None);
    assert_eq!(row(&c, 0), "bcde");
    assert_eq!(c.buffer().get_style(0, 0).modifier, Modifier::Bold);
    assert_eq!(c.buffer().get_style(1, 0).modifier, Modifier::NoBold);
    assert_eq!(c.buffer().get_style(2, 0).fg, Color::LightRed);
    assert_eq!(c.buffer().get_style(3, 0), Style::default());
    assert!(!has_control(&c));
}

#[test]
fn chatbuf_newline_starts_row() {
    let mut c = chat(3, 3);
    c.push_line("a\nb", None);
    assert_eq!(row(&c, 0), "a  ");
    assert_eq!(row(&c, 1), "b  ");
    c.push_line("c", None);
    assert_eq!(row(&c, 2), "c  ");
}

#[test]
fn chatbuf_exact_width_fills_one_row() {
    let mut c = chat(3, 3);
    c.push_line("abc", None);
    assert_eq!(row(&c, 0), "abc");
    assert_eq!(row(&c, 1), "   ");
    c.push_line("d", None);
    assert_eq!(row(&c, 1), "d  ");
}

#[test]
fn chatbuf_one_past_width_wraps_one_char() {
    let mut c = chat(3, 3);
    c.push_line("abcd", None);
    assert_eq!(row(&c, 0), "abc");
    assert_eq!(row(&c, 1), "d  ");
    assert_eq!(row(&c, 2), "   ");
}

#[test]
fn chatbuf_scroll_evicts_oldest() {
    let mut c = chat(2, 2);
    c.push_line("a", None);
    c.push_line("b", None);
    assert_eq!(row(&c, 0), "a ");
    assert_eq!(row(&c, 1), "b ");
    c.push_line("c", None);
    assert_eq!(row(&c, 0), "b ");
    assert_eq!(row(&c, 1), "c ");
    assert!(c.buffer().inner().iter().all(|cell| cell.grapheme != "a"));
    assert_eq!(c.buffer().inner().len(), 4);
}

#[test]
fn chatbuf_wrap_scrolls_when_full() {
    let mut c = chat(3, 3);
    c.push_line("abc", None);
    c.push_line("d", None);
    c.push_line("efgh", None);
    assert_eq!(row(&c, 0), "d  ");
    assert_eq!(row(&c, 1), "efg");
    assert_eq!(row(&c, 2), "h  ");
}

#[test]
fn chatbuf_empty_line_takes_a_row() {
    let mut c = chat(2, 2);
    c.push_line("a", None);
    c.push_line("", None);
    c.push_line("b", None);
    assert_eq!(row(&c, 0), "  ");
    assert_eq!(row(&c, 1), "b ");
}

#[test]
fn chatbuf_zero_sized_buffer_ignores_lines() {
    let mut c = chat(0, 0);
    c.push_line("abc", None);
    assert_eq!(c.buffer().inner().len(), 0);
}

#[test]
fn chatbuf_push_event_renders_sender() {
    let mut c = chat(10, 1);
    c.push_event(&Event::message(Some("ann"), "#c", "hi"));
    assert_eq!(row(&c, 0), "<ann> hi  ");
    assert_eq!(c.buffer().get_style(1, 0).fg, Color::LightYellow);
    assert_eq!(c.buffer().get_style(4, 0), Style::default());
}

#[test]
fn chatbuf_reset_and_redraw_from_model() {
    let mut c = chat(6, 2);
    c.push_line("junk", None);
    let m = model::ChatBuf {
        events: vec![Event::notice(None, "#c", "one"), Event::notice(None, "#c", "two")],
    };
    c.redraw_from_model(&m);
    assert_eq!(row(&c, 0), "one   ");
    assert_eq!(row(&c, 1), "two   ");
    assert_eq!(c.buffer().get_style(0, 0).bg, Color::Yellow);
    c.reset();
    assert_eq!(row(&c, 0), "      ");
}
