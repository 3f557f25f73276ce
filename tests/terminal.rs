use alectro::terminal::{diff, frame_string, DrawOp};
use alectro::{Bound, Buffer, ChatBuf, Color, Style, Terminal};

const TRAILER: &str = "\x1b[39m\x1b[49m\x1b[m";

#[test]
fn diff_one_cell_is_one_move_and_one_write() {
    let prev = Buffer::empty(Bound::new(0, 0, 3, 2));
    let mut cur = prev.clone();
    cur.set(1, 1, "x");
    let ops = diff(&cur, &prev);
    assert_eq!(ops.len(), 2);
    assert!(matches!(ops[0], DrawOp::Goto(1, 1)));
    assert!(matches!(&ops[1], DrawOp::Put(g) if g == "x"));
    assert_eq!(frame_string(&ops), format!("\x1b[2;2Hx{}", TRAILER));
}

#[test]
fn diff_first_cell_still_moves_cursor() {
    let prev = Buffer::empty(Bound::new(0, 0, 3, 1));
    let mut cur = prev.clone();
    cur.set(1, 0, "y");
    let ops = diff(&cur, &prev);
    assert!(matches!(ops[0], DrawOp::Goto(1, 0)));
}

#[test]
fn diff_contiguous_cells_share_one_move() {
    let prev = Buffer::empty(Bound::new(0, 0, 4, 2));
    let mut cur = prev.clone();
    cur.set_str(0, 0, "ab");
    cur.set(3, 1, "c");
    let ops = diff(&cur, &prev);
    assert_eq!(ops.len(), 5);
    assert!(matches!(ops[0], DrawOp::Goto(0, 0)));
    assert!(matches!(&ops[1], DrawOp::Put(g) if g == "a"));
    assert!(matches!(&ops[2], DrawOp::Put(g) if g == "b"));
    assert!(matches!(ops[3], DrawOp::Goto(3, 1)));
    assert_eq!(frame_string(&ops), format!("\x1b[1;1Hab\x1b[2;4Hc{}", TRAILER));
}

#[test]
fn diff_identical_frames_write_nothing() {
    let mut a = Buffer::empty(Bound::new(0, 0, 3, 2));
    a.set_str(0, 0, "abc");
    let b = a.clone();
    assert!(diff(&a, &b).is_empty());
    assert_eq!(frame_string(&diff(&a, &b)), TRAILER);
}

#[test]
fn diff_style_changes_in_order() {
    let prev = Buffer::empty(Bound::new(0, 0, 2, 1));
    let mut cur = prev.clone();
    cur.set_styled(0, 0, "r", Style::default().fg(Color::Red).bg(Color::Blue));
    cur.set_styled(1, 0, "s", Style::default().fg(Color::Red).bg(Color::Blue));
    let ops = diff(&cur, &prev);
    assert_eq!(ops.len(), 5);
    assert!(matches!(ops[1], DrawOp::Fg(Color::Red)));
    assert!(matches!(ops[2], DrawOp::Bg(Color::Blue)));
    assert_eq!(
        frame_string(&ops),
        format!("\x1b[1;1H\x1b[38;5;1m\x1b[48;5;4mrs{}", TRAILER)
    );
}

#[test]
fn terminal_draw_swaps_frames() {
    let mut term = Terminal::new(3, 1);
    let mut widget = ChatBuf::from_buffer(Buffer::empty(Bound::new(0, 0, 3, 1)));
    widget.push_line("hi", None);
    term.render(&widget);
    assert_eq!(term.current_buf().get(0, 0), "h");
    let out = term.draw();
    assert_eq!(out, format!("\x1b[1;1Hhi{}", TRAILER));
    assert_eq!(term.current_buf().get(0, 0), " ");
    // Nothing drawn this time: the screen goes back to blank.
    let out = term.draw();
    assert_eq!(out, format!("\x1b[1;1H  {}", TRAILER));
    // Same content twice in a row: nothing to write.
    term.render(&widget);
    let _ = term.draw();
    term.render(&widget);
    let _ = term.draw();
    term.render(&widget);
    assert_eq!(term.draw(), TRAILER);
}
