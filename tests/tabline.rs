use alectro::{Bound, Buffer, Error, TabLine};

fn row(t: &TabLine) -> String {
    let buf = t.buffer();
    let b = *buf.bound();
    let mut s = String::new();
    for x in b.x..b.x + b.width {
        s.push_str(buf.get(x, b.y));
    }
    s
}

fn check_flags(t: &TabLine) {
    let n = t.len();
    if n == 0 {
        return;
    }
    let c = t.current();
    assert!(c < n);
    for k in 0..n {
        let (h, b) = t.flags(k);
        assert_eq!(h, k == c);
        assert_eq!(b, k + 1 == c);
    }
}

#[test]
fn tabline_first_tab_is_current() {
    let mut t = TabLine::new(0, 0, 30);
    t.add_tab("one", false);
    assert_eq!(t.current(), 0);
    assert_eq!(t.flags(0), (true, false));
    check_flags(&t);
}

#[test]
fn tabline_add_and_switch() {
    let mut t = TabLine::new(0, 0, 30);
    t.add_tab("one", true);
    t.add_tab("two", false);
    assert_eq!(t.flags(1), (false, false));
    check_flags(&t);
    t.switch_to("two").unwrap();
    assert_eq!(t.current(), 1);
    assert_eq!(t.flags(0), (false, true));
    assert_eq!(t.flags(1), (true, false));
    check_flags(&t);
    t.add_tab("three", true);
    assert_eq!(t.current(), 2);
    assert_eq!(t.flags(0), (false, false));
    check_flags(&t);
    t.switch_to("one").unwrap();
    check_flags(&t);
    t.switch_to("one").unwrap();
    check_flags(&t);
}

#[test]
fn tabline_switch_to_missing() {
    let mut t = TabLine::new(0, 0, 30);
    t.add_tab("one", true);
    match t.switch_to("nope") {
        Err(Error::TabNotFound { tab }) => assert_eq!(tab, "nope"),
        _ => panic!("expected TabNotFound"),
    }
    assert_eq!(t.current(), 0);
    check_flags(&t);
}

#[test]
fn tabline_remove() {
    let mut t = TabLine::new(0, 0, 30);
    t.add_tab("a", true);
    t.add_tab("b", false);
    t.add_tab("c", true);
    t.remove_tab("c").unwrap();
    assert_eq!(t.len(), 2);
    assert_eq!(t.current(), 1);
    check_flags(&t);
    t.remove_tab("a").unwrap();
    assert_eq!(t.current(), 0);
    check_flags(&t);
    assert!(matches!(t.remove_tab("zz"), Err(Error::TabNotFound { .. })));
    t.remove_tab("b").unwrap();
    assert_eq!(t.len(), 0);
}

#[test]
fn tabline_draws_pills() {
    let mut t = TabLine::new(0, 0, 12);
    t.add_tab("ab", true);
    t.add_tab("cd", false);
    assert_eq!(row(&t), " ab \u{e0b0} cd \u{e0b1}  ");
    t.switch_to("cd").unwrap();
    assert_eq!(row(&t), " ab \u{e0b0} cd \u{e0b0}  ");
    t.remove_tab("ab").unwrap();
    assert_eq!(row(&t), " cd \u{e0b0}       ");
}

#[test]
fn tabline_clips_tabs_past_its_width() {
    let mut t = TabLine::new(0, 0, 6);
    t.add_tab("ab", true);
    t.add_tab("cdef", false);
    assert_eq!(*t.buffer().bound(), Bound::new(0, 0, 6, 1));
    assert_eq!(row(&t), " ab \u{e0b0} ");
}

#[test]
fn tabline_from_buffer_places_below() {
    let chat = Buffer::empty(Bound::new(0, 0, 10, 8));
    let t = TabLine::from_buffer(&chat);
    assert_eq!(*t.buffer().bound(), Bound::new(0, 8, 10, 1));
}
