use alectro::{Bound, Buffer, Input};

fn row(i: &Input) -> String {
    let buf = i.buffer();
    let b = *buf.bound();
    let mut s = String::new();
    for x in b.x..b.x + b.width {
        s.push_str(buf.get(x, b.y));
    }
    s
}

fn typed(s: &str) -> Input {
    let mut i = Input::new(0, 5, 6);
    for c in s.chars() {
        i.add_char(c);
    }
    i
}

#[test]
fn input_typing_appends() {
    let i = typed("abc");
    assert_eq!(i.get_content(), "abc");
    assert_eq!(i.cursor(), 3);
    assert_eq!(row(&i), "abc   ");
}

#[test]
fn input_insert_in_the_middle() {
    let mut i = typed("abc");
    i.move_left();
    i.move_left();
    i.add_char('x');
    assert_eq!(i.get_content(), "axbc");
    assert_eq!(i.cursor(), 2);
    assert_eq!(row(&i), "axbc  ");
}

#[test]
fn input_backspace() {
    let mut i = typed("abc");
    i.backspace();
    assert_eq!(i.get_content(), "ab");
    assert_eq!(row(&i), "ab    ");
    i.move_left();
    i.backspace();
    assert_eq!(i.get_content(), "b");
    assert_eq!(i.cursor(), 0);
    assert_eq!(row(&i), "b     ");
    i.backspace();
    assert_eq!(i.get_content(), "b");
    assert_eq!(i.cursor(), 0);
}

#[test]
fn input_cursor_moves_within_line() {
    let mut i = typed("ab");
    i.move_right();
    assert_eq!(i.cursor(), 2);
    i.move_left();
    i.move_left();
    i.move_left();
    assert_eq!(i.cursor(), 0);
}

#[test]
fn input_history_recall_and_fork() {
    let mut i = typed("abc");
    i.reset();
    assert_eq!(i.get_content(), "");
    assert_eq!(row(&i), "      ");
    i.add_char('z');
    i.move_up();
    assert_eq!(i.get_content(), "abc");
    assert_eq!(i.cursor(), 1);
    assert_eq!(row(&i), "abc   ");
    // Editing an older line copies it to the newest slot.
    i.add_char('d');
    assert_eq!(i.get_content(), "adbc");
    i.move_up();
    assert_eq!(i.get_content(), "abc");
    i.move_up();
    assert_eq!(i.get_content(), "abc");
    i.move_down();
    assert_eq!(i.get_content(), "adbc");
    i.move_down();
    assert_eq!(i.get_content(), "adbc");
}

#[test]
fn input_long_line_is_clipped_on_screen() {
    let i = typed("abcdefgh");
    assert_eq!(i.get_content(), "abcdefgh");
    assert_eq!(row(&i), "abcdef");
}

#[test]
fn input_cursor_sequence() {
    let i = typed("ab");
    assert_eq!(i.draw_cursor(), "\x1b[6;3H");
}

#[test]
fn input_from_buffer_places_below() {
    let chat = Buffer::empty(Bound::new(0, 0, 10, 8));
    let i = Input::from_buffer(&chat);
    assert_eq!(*i.buffer().bound(), Bound::new(0, 9, 10, 1));
}
