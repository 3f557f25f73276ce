use alectro::Bound;

#[test]
fn bound_new_and_borders() {
    let b = Bound::new(2, 3, 4, 5);
    assert_eq!(b.area(), 20);
    assert_eq!(b.left_border(), 2);
    assert_eq!(b.right_border(), 6);
    assert_eq!(b.top_border(), 3);
    assert_eq!(b.bottom_border(), 8);
}

#[test]
fn bound_area_past_u16() {
    let b = Bound::new(0, 0, 300, 300);
    assert_eq!(b.area(), 90_000);
}

#[test]
fn bound_minus_width_and_height() {
    let b = Bound::new(1, 1, 10, 8);
    assert_eq!(b.minus_width(3), Bound::new(1, 1, 7, 8));
    assert_eq!(b.minus_height(2), Bound::new(1, 1, 10, 6));
    assert_eq!(b.minus_height(8), Bound::new(1, 1, 10, 0));
}

#[test]
fn bound_union_covers_both() {
    let a = Bound::new(0, 0, 2, 2);
    let b = Bound::new(3, 1, 2, 2);
    assert_eq!(a.union(&b), Bound::new(0, 0, 5, 3));
}

#[test]
fn bound_union_takes_both_extremes() {
    // The right border comes from one rectangle and the bottom from the other.
    let a = Bound::new(5, 0, 10, 1);
    let b = Bound::new(0, 4, 1, 6);
    assert_eq!(a.union(&b), Bound::new(0, 0, 15, 10));
}

#[test]
fn bound_union_commutative_and_associative() {
    let a = Bound::new(1, 2, 3, 4);
    let b = Bound::new(7, 0, 2, 2);
    let c = Bound::new(0, 9, 1, 1);
    assert_eq!(a.union(&b), b.union(&a));
    assert_eq!(a.union(&b).union(&c), a.union(&b.union(&c)));
    assert_eq!(a.union(&a), a);
}

#[test]
fn bound_union_contained() {
    let outer = Bound::new(0, 0, 80, 24);
    let inner = Bound::new(10, 5, 3, 1);
    assert_eq!(outer.union(&inner), outer);
}
