use vstd::prelude::*;

verus! {

/// The largest coordinate of the terminal plane.
pub const PLANE_MAX: u16 = 65535;

/// A rectangular region of the terminal, in cell units.
#[derive(Debug, Default, Clone, Copy, Hash, PartialEq, Eq, Structural)]
pub struct Bound {
    pub x: u16,
    pub y: u16,
    pub width: u16,
    pub height: u16,
}

impl Bound {
    /// Number of cells covered.
    pub open spec fn spec_area(&self) -> nat {
        (self.width * self.height) as nat
    }

    /// The rectangle lies inside the addressable plane: its borders are `u16` values.
    pub open spec fn fits(&self) -> bool {
        self.x + self.width <= PLANE_MAX && self.y + self.height <= PLANE_MAX
    }

    /// Cell `(px, py)` lies inside the rectangle.
    pub open spec fn covers(&self, px: int, py: int) -> bool {
        self.x <= px < self.x + self.width && self.y <= py < self.y + self.height
    }

    /// Smallest left edge of the two rectangles.
    pub open spec fn union_x(&self, o: &Bound) -> int {
        if self.x <= o.x { self.x as int } else { o.x as int }
    }

    pub open spec fn union_y(&self, o: &Bound) -> int {
        if self.y <= o.y { self.y as int } else { o.y as int }
    }

    /// Largest right border of the two rectangles.
    pub open spec fn union_right(&self, o: &Bound) -> int {
        if self.x + self.width >= o.x + o.width { self.x + self.width } else { o.x + o.width }
    }

    pub open spec fn union_bottom(&self, o: &Bound) -> int {
        if self.y + self.height >= o.y + o.height { self.y + self.height } else { o.y + o.height }
    }

    /// The union of the two rectangles has a width and height that are `u16` values.
    pub open spec fn union_representable(&self, o: &Bound) -> bool {
        self.union_right(o) - self.union_x(o) <= u16::MAX
            && self.union_bottom(o) - self.union_y(o) <= u16::MAX
    }

    /// The smallest rectangle containing both.
    pub open spec fn spec_union(&self, o: &Bound) -> Bound {
        Bound {
            x: self.union_x(o) as u16,
            y: self.union_y(o) as u16,
            width: (self.union_right(o) - self.union_x(o)) as u16,
            height: (self.union_bottom(o) - self.union_y(o)) as u16,
        }
    }

    pub fn new(x: u16, y: u16, width: u16, height: u16) -> (r: Bound)
        ensures
            r == (Bound { x, y, width, height }),
    {
        Bound { x: x, y: y, width: width, height: height }
    }

    pub fn area(&self) -> (r: u32)
        ensures
            r == self.spec_area(),
    {
        proof {
            vstd::arithmetic::mul::lemma_mul_upper_bound(
                self.width as int, u16::MAX as int, self.height as int, u16::MAX as int);
        }
        self.width as u32 * self.height as u32
    }

    pub fn left_border(&self) -> (r: u16)
        ensures
            r == self.x,
    {
        self.x
    }

    pub fn right_border(&self) -> (r: u32)
        ensures
            r == self.x + self.width,
    {
        self.x as u32 + self.width as u32
    }

    pub fn top_border(&self) -> (r: u16)
        ensures
            r == self.y,
    {
        self.y
    }

    pub fn bottom_border(&self) -> (r: u32)
        ensures
            r == self.y + self.height,
    {
        self.y as u32 + self.height as u32
    }

    /// The same rectangle, narrower by `amount` cells.
    pub fn minus_width(&self, amount: u16) -> (r: Bound)
        requires
            amount <= self.width,
        ensures
            r == (Bound { width: (self.width - amount) as u16, ..*self }),
    {
        Bound { x: self.x, y: self.y, width: self.width - amount, height: self.height }
    }

    /// The same rectangle, shorter by `amount` cells.
    pub fn minus_height(&self, amount: u16) -> (r: Bound)
        requires
            amount <= self.height,
        ensures
            r == (Bound { height: (self.height - amount) as u16, ..*self }),
    {
        Bound { x: self.x, y: self.y, width: self.width, height: self.height - amount }
    }

    /// The smallest rectangle that contains both rectangles.
    pub fn union(&self, other: &Bound) -> (r: Bound)
        requires
            self.union_representable(other),
        ensures
            r == self.spec_union(other),
    {
        let x1 = if self.x <= other.x { self.x } else { other.x };
        let y1 = if self.y <= other.y { self.y } else { other.y };
        let r1 = self.x as u32 + self.width as u32;
        let r2 = other.x as u32 + other.width as u32;
        let b1 = self.y as u32 + self.height as u32;
        let b2 = other.y as u32 + other.height as u32;
        let x2 = if r1 >= r2 { r1 } else { r2 };
        let y2 = if b1 >= b2 { b1 } else { b2 };
        Bound { x: x1, y: y1, width: (x2 - x1 as u32) as u16, height: (y2 - y1 as u32) as u16 }
    }
}

/// The cell at offset `(dx, dy)` of a rectangle of the plane is inside it and
/// has `u16` coordinates.
pub proof fn lemma_fits_inside(b: Bound, dx: int, dy: int)
    requires
        b.fits(),
        0 <= dx < b.width,
        0 <= dy < b.height,
    ensures
        b.covers(b.x + dx, b.y + dy),
        b.x + dx < PLANE_MAX,
        b.y + dy < PLANE_MAX,
{
}

/// Union is commutative.
pub proof fn lemma_union_commutative(a: Bound, b: Bound)
    requires
        a.union_representable(&b),
    ensures
        b.union_representable(&a),
        a.spec_union(&b) == b.spec_union(&a),
{
}

/// Union is associative: grouping three rectangles either way gives the same rectangle.
pub proof fn lemma_union_associative(a: Bound, b: Bound, c: Bound)
    requires
        a.union_representable(&b),
        a.spec_union(&b).union_representable(&c),
    ensures
        b.union_representable(&c),
        a.union_representable(&b.spec_union(&c)),
        a.spec_union(&b).spec_union(&c) == a.spec_union(&b.spec_union(&c)),
{
}

/// Every cell covered by either rectangle is covered by their union.
pub proof fn lemma_union_covers(a: Bound, b: Bound, px: int, py: int)
    requires
        a.union_representable(&b),
        a.covers(px, py) || b.covers(px, py),
    ensures
        a.spec_union(&b).covers(px, py),
{
}

/// No smaller rectangle covers both: any rectangle that covers every cell of two
/// non-empty rectangles contains their union.
pub proof fn lemma_union_least(a: Bound, b: Bound, r: Bound)
    requires
        a.union_representable(&b),
        a.width > 0 && a.height > 0,
        b.width > 0 && b.height > 0,
        forall|px: int, py: int| (a.covers(px, py) || b.covers(px, py)) ==> #[trigger] r.covers(px, py),
    ensures
        r.x <= a.spec_union(&b).x,
        r.y <= a.spec_union(&b).y,
        a.spec_union(&b).x + a.spec_union(&b).width <= r.x + r.width,
        a.spec_union(&b).y + a.spec_union(&b).height <= r.y + r.height,
{
    assert(r.covers(a.x as int, a.y as int));
    assert(r.covers(b.x as int, b.y as int));
    assert(r.covers(a.x + a.width - 1, a.y + a.height - 1));
    assert(r.covers(b.x + b.width - 1, b.y + b.height - 1));
}

} // verus!
