use alectro::{Bound, Buffer, Color, Style};

fn row(buf: &Buffer, y: u16) -> String {
    let b = *buf.bound();
    let mut s = String::new();
    for x in b.x..b.x + b.width {
        s.push_str(buf.get(x, y));
    }
    s
}

#[test]
fn buffer_empty_is_blank() {
    let buf = Buffer::empty(Bound::new(0, 0, 3, 2));
    assert_eq!(buf.inner().len(), 6);
    assert!(buf.inner().iter().all(|c| c.grapheme == " " && c.style == Style::default()));
    assert_eq!(buf.width(), 3);
    assert_eq!(buf.height(), 2);
}

#[test]
fn buffer_set_keeps_style() {
    let mut buf = Buffer::empty(Bound::new(2, 3, 3, 2));
    let red = Style::default().fg(Color::Red);
    buf.set_styled(3, 4, "x", red);
    buf.set(3, 4, "y");
    assert_eq!(buf.get(3, 4), "y");
    assert_eq!(buf.get_style(3, 4), red);
    buf.set_style(2, 3, red);
    assert_eq!(buf.get(2, 3), " ");
    assert_eq!(buf.get_style(2, 3), red);
}

#[test]
fn buffer_set_str_ascii() {
    let mut buf = Buffer::empty(Bound::new(0, 0, 4, 1));
    buf.set_str(1, 0, "ab");
    assert_eq!(row(&buf, 0), " ab ");
}

#[test]
fn buffer_set_str_wide_grapheme_takes_two_columns() {
    let mut buf = Buffer::empty(Bound::new(0, 0, 4, 1));
    buf.set_str(0, 0, "你a");
    assert_eq!(buf.get(0, 0), "你");
    assert_eq!(buf.get(1, 0), " ");
    assert_eq!(buf.get(2, 0), "a");
}

#[test]
fn buffer_set_str_combining_cluster_is_one_cell() {
    let mut buf = Buffer::empty(Bound::new(0, 0, 3, 1));
    buf.set_str(0, 0, "e\u{301}x");
    assert_eq!(buf.get(0, 0), "e\u{301}");
    assert_eq!(buf.get(1, 0), "x");
}

#[test]
fn buffer_set_str_does_not_wrap() {
    let mut buf = Buffer::empty(Bound::new(0, 0, 3, 2));
    buf.set_str(1, 0, "abcdef");
    assert_eq!(row(&buf, 0), " ab");
    assert_eq!(row(&buf, 1), "   ");
}

#[test]
fn buffer_set_str_styled() {
    let mut buf = Buffer::empty(Bound::new(0, 0, 3, 1));
    let s = Style::default().bg(Color::Blue);
    buf.set_str_styled(0, 0, "ok", s);
    assert_eq!(buf.get_style(0, 0), s);
    assert_eq!(buf.get_style(1, 0), s);
    assert_eq!(buf.get_style(2, 0), Style::default());
}

#[test]
fn buffer_resize_area_matches_bound() {
    let mut buf = Buffer::empty(Bound::new(0, 0, 3, 2));
    buf.resize(Bound::new(0, 0, 5, 4));
    assert_eq!(buf.inner().len(), 20);
    assert_eq!(buf.bound().area(), 20);
    buf.resize(Bound::new(0, 0, 2, 1));
    assert_eq!(buf.inner().len(), 2);
}

#[test]
fn buffer_shrink_then_grow_loses_content() {
    let mut buf = Buffer::empty(Bound::new(0, 0, 3, 2));
    buf.set_str(0, 0, "abc");
    buf.set_str(0, 1, "def");
    buf.resize(Bound::new(0, 0, 3, 1));
    buf.resize(Bound::new(0, 0, 3, 2));
    assert_eq!(row(&buf, 0), "abc");
    assert_eq!(row(&buf, 1), "   ");
}

#[test]
fn buffer_resize_keeps_linear_index() {
    let mut buf = Buffer::empty(Bound::new(0, 0, 2, 2));
    buf.set_str(0, 0, "ab");
    buf.set_str(0, 1, "cd");
    buf.resize(Bound::new(0, 0, 4, 1));
    assert_eq!(row(&buf, 0), "abcd");
}

#[test]
fn buffer_drop_top_line() {
    let mut buf = Buffer::empty(Bound::new(0, 0, 2, 2));
    buf.set_str(0, 0, "ab");
    buf.set_str(0, 1, "cd");
    buf.drop_top_line();
    assert_eq!(row(&buf, 0), "cd");
    assert_eq!(row(&buf, 1), "  ");
    assert_eq!(buf.inner().len(), 4);
}

#[test]
fn buffer_drop_top_line_without_rows() {
    let mut buf = Buffer::empty(Bound::new(0, 0, 3, 0));
    buf.drop_top_line();
    assert_eq!(buf.inner().len(), 0);
}

#[test]
fn buffer_reset_blanks() {
    let mut buf = Buffer::empty(Bound::new(1, 1, 2, 1));
    buf.set_styled(1, 1, "z", Style::default().fg(Color::Green));
    buf.reset();
    assert_eq!(buf.get(1, 1), " ");
    assert_eq!(buf.get_style(1, 1), Style::default());
    assert_eq!(*buf.bound(), Bound::new(1, 1, 2, 1));
}

#[test]
fn buffer_merge_overlays_inside() {
    let mut frame = Buffer::empty(Bound::new(0, 0, 4, 2));
    frame.set_str(0, 1, "abcd");
    let mut w = Buffer::empty(Bound::new(1, 1, 2, 1));
    w.set_str(1, 1, "xy");
    frame.merge(&w);
    assert_eq!(*frame.bound(), Bound::new(0, 0, 4, 2));
    assert_eq!(row(&frame, 1), "axyd");
}

#[test]
fn buffer_merge_grows_to_union() {
    let mut a = Buffer::empty(Bound::new(0, 0, 1, 1));
    a.set(0, 0, "a");
    let mut b = Buffer::empty(Bound::new(2, 1, 1, 1));
    b.set(2, 1, "b");
    a.merge(&b);
    assert_eq!(*a.bound(), Bound::new(0, 0, 3, 2));
    assert_eq!(row(&a, 0), "a  ");
    assert_eq!(row(&a, 1), "  b");
}

#[test]
fn buffer_merge_later_wins() {
    let mut frame = Buffer::empty(Bound::new(0, 0, 3, 1));
    let mut first = Buffer::empty(Bound::new(0, 0, 2, 1));
    first.set_str(0, 0, "11");
    let mut second = Buffer::empty(Bound::new(1, 0, 2, 1));
    second.set_str(1, 0, "22");
    frame.merge(&first);
    frame.merge(&second);
    assert_eq!(row(&frame, 0), "122");
}

#[test]
fn buffer_merge_onto_itself_is_identity() {
    let mut buf = Buffer::empty(Bound::new(3, 2, 3, 2));
    buf.set_str(3, 2, "abc");
    buf.set_styled(4, 3, "q", Style::default().fg(Color::Red));
    let copy = buf.clone();
    buf.merge(&copy);
    assert_eq!(*buf.bound(), *copy.bound());
    assert!(buf.inner() == copy.inner());
}

#[test]
fn buffer_pos_of() {
    let buf = Buffer::empty(Bound::new(2, 3, 4, 2));
    assert_eq!(buf.pos_of(0), (2, 3));
    assert_eq!(buf.pos_of(5), (3, 4));
    assert_eq!(buf.pos_of(7), (5, 4));
}
