//! A grid of styled cells addressed by a `Bound`.

use vstd::prelude::*;
use crate::bound::Bound;
use crate::style::Style;
use crate::text::{display_width, grapheme_split, graphemes, str_width};

verus! {

/// What a cell holds: a grapheme cluster and its style.
pub struct CellView {
    pub grapheme: Seq<char>,
    pub style: Style,
}

/// A blank cell: one space in the default style.
pub open spec fn blank_cell() -> CellView {
    CellView { grapheme: seq![' '], style: Style::spec_default() }
}

/// `n` blank cells.
pub open spec fn blanks(n: nat) -> Seq<CellView> {
    Seq::new(n, |i: int| blank_cell())
}

/// A single terminal cell.
pub struct Cell {
    pub grapheme: String,
    pub style: Style,
}

impl View for Cell {
    type V = CellView;

    open spec fn view(&self) -> CellView {
        CellView { grapheme: self.grapheme@, style: self.style }
    }
}

impl Clone for Cell {
    fn clone(&self) -> (r: Cell)
        ensures
            r == *self,
    {
        Cell { grapheme: self.grapheme.clone(), style: self.style }
    }
}

impl PartialEq for Cell {
    fn eq(&self, other: &Cell) -> (r: bool)
        ensures
            r == (self@ == other@),
    {
        self.style == other.style && self.grapheme == other.grapheme
    }
}

impl vstd::std_specs::cmp::PartialEqSpecImpl for Cell {
    open spec fn obeys_eq_spec() -> bool {
        true
    }

    open spec fn eq_spec(&self, other: &Cell) -> bool {
        self@ == other@
    }
}

impl Default for Cell {
    fn default() -> (r: Cell)
        ensures
            r@ == blank_cell(),
    {
        proof {
            reveal_strlit(" ");
        }
        let r = Cell::new(" ", Style::default());
        assert(r@.grapheme =~= seq![' ']);
        r
    }
}

impl Cell {
    pub fn new(grapheme: &str, style: Style) -> (r: Cell)
        ensures
            r@ == (CellView { grapheme: grapheme@, style }),
    {
        Cell { grapheme: grapheme.to_owned(), style: style }
    }

    pub fn reset(&mut self)
        ensures
            final(self)@ == blank_cell(),
    {
        *self = Cell::default();
    }
}

/// Linear index of cell `(px, py)` in the row-major layout of `b`.
pub open spec fn index_at(b: Bound, px: int, py: int) -> int {
    (py - b.y) * b.width + (px - b.x)
}

/// Column of the cell at linear index `i` of `b`.
pub open spec fn pos_x(b: Bound, i: int) -> int {
    b.x + i % (b.width as int)
}

/// Row of the cell at linear index `i` of `b`.
pub open spec fn pos_y(b: Bound, i: int) -> int {
    b.y + i / (b.width as int)
}

/// A buffer's contents: its bound and its cells in row-major order.
pub struct BufferView {
    pub bound: Bound,
    pub cells: Seq<CellView>,
}

impl BufferView {
    /// As many cells as the bound's area, and the bound lies in the plane.
    pub open spec fn wf(self) -> bool {
        self.cells.len() == self.bound.spec_area() && self.bound.fits()
    }

    /// The cell at `(px, py)`.
    pub open spec fn at(self, px: int, py: int) -> CellView {
        self.cells[index_at(self.bound, px, py)]
    }

    /// This buffer with `c` at `(px, py)`.
    pub open spec fn with_cell(self, px: int, py: int, c: CellView) -> BufferView {
        BufferView { cells: self.cells.update(index_at(self.bound, px, py), c), ..self }
    }

    /// This buffer with `c` at `(px, py)` where that cell is inside the bound.
    pub open spec fn put_clipped(self, px: int, py: int, c: CellView) -> BufferView {
        if self.bound.covers(px, py) { self.with_cell(px, py, c) } else { self }
    }

    /// Every cell blank, bound kept.
    pub open spec fn cleared(self) -> BufferView {
        BufferView { bound: self.bound, cells: blanks(self.cells.len()) }
    }

    /// The cells kept by their linear index under a new bound: truncated, or
    /// padded with blank cells.
    pub open spec fn resized(self, nb: Bound) -> BufferView {
        BufferView {
            bound: nb,
            cells: if self.cells.len() >= nb.spec_area() {
                self.cells.take(nb.spec_area() as int)
            } else {
                self.cells + blanks((nb.spec_area() - self.cells.len()) as nat)
            },
        }
    }

    /// The first row removed and a blank row appended.
    pub open spec fn dropped_top(self) -> BufferView {
        let w = self.bound.width as int;
        BufferView {
            bound: self.bound,
            cells: if self.cells.len() >= w {
                self.cells.skip(w) + blanks(w as nat)
            } else {
                self.cells
            },
        }
    }

    /// `other` composited onto this buffer, over the union of the two bounds:
    /// `other`'s cells win, then this buffer's, and blank cells fill the rest.
    pub open spec fn merged(self, other: BufferView) -> BufferView {
        let u = self.bound.spec_union(&other.bound);
        BufferView {
            bound: u,
            cells: Seq::new(
                u.spec_area(),
                |i: int|
                    {
                        let px = pos_x(u, i);
                        let py = pos_y(u, i);
                        if other.bound.covers(px, py) {
                            other.at(px, py)
                        } else if self.bound.covers(px, py) {
                            self.at(px, py)
                        } else {
                            blank_cell()
                        }
                    },
            ),
        }
    }

    /// Graphemes `gs` written from column `col` of row `py`, each advancing the
    /// column by its display width; those that start outside the bound are dropped.
    pub open spec fn with_graphemes(self, col: int, py: int, gs: Seq<Seq<char>>, style: Option<Style>) -> BufferView
        decreases gs.len(),
    {
        if gs.len() == 0 {
            self
        } else {
            let next = if self.bound.covers(col, py) {
                let old = self.at(col, py);
                self.with_cell(col, py, CellView {
                    grapheme: gs[0],
                    style: match style { Some(s) => s, None => old.style },
                })
            } else {
                self
            };
            next.with_graphemes(col + display_width(gs[0]), py, gs.drop_first(), style)
        }
    }
}

/// A grid of cells for one rectangle of the terminal.
pub struct Buffer {
    bound: Bound,
    buf: Vec<Cell>,
}

impl View for Buffer {
    type V = BufferView;

    closed spec fn view(&self) -> BufferView {
        BufferView { bound: self.bound, cells: self.buf@.map_values(|c: Cell| c@) }
    }
}

impl Clone for Buffer {
    fn clone(&self) -> (r: Buffer)
        ensures
            r@ == self@,
            r.wf() == self.wf(),
    {
        let mut v: Vec<Cell> = Vec::new();
        let mut i: usize = 0;
        while i < self.buf.len()
            invariant
                i <= self.buf.len(),
                v@.len() == i,
                forall|k: int| 0 <= k < i ==> v@[k] == self.buf@[k],
            decreases self.buf.len() - i,
        {
            v.push(self.buf[i].clone());
            i += 1;
        }
        let r = Buffer { bound: self.bound, buf: v };
        proof {
            assert(r@.cells =~= self@.cells);
        }
        r
    }
}

/// `(i / w) * w + i % w == i` with both parts in range, for the cell at linear index `i`.
pub proof fn lemma_pos_of(b: Bound, i: int)
    requires
        0 <= i < b.spec_area(),
    ensures
        b.covers(pos_x(b, i), pos_y(b, i)),
        index_at(b, pos_x(b, i), pos_y(b, i)) == i,
{
    let w = b.width as int;
    let h = b.height as int;
    assert(w > 0) by {
        if w == 0 {
            assert(w * h == 0) by (nonlinear_arith) requires w == 0;
        }
    }
    vstd::arithmetic::div_mod::lemma_fundamental_div_mod(i, w);
    let q = i / w;
    let r = i % w;
    assert(0 <= r < w);
    assert(0 <= q) by {
        vstd::arithmetic::div_mod::lemma_div_pos_is_pos(i, w);
    }
    assert(q < h) by (nonlinear_arith)
        requires
            i == w * q + r,
            0 <= r,
            i < w * h,
            w > 0,
    {
        if q >= h {
            assert(w * q >= w * h);
        }
    }
    assert(q * w == w * q) by (nonlinear_arith);
}

/// An area is at most `u16::MAX * u16::MAX`.
pub proof fn lemma_area_bound(b: Bound)
    ensures
        b.spec_area() <= 0xFFFE_0001,
{
    vstd::arithmetic::mul::lemma_mul_upper_bound(
        b.width as int, u16::MAX as int, b.height as int, u16::MAX as int);
}

/// Every cell inside `b` has a linear index below the area.
pub proof fn lemma_index_in_range(b: Bound, px: int, py: int)
    requires
        b.covers(px, py),
    ensures
        0 <= index_at(b, px, py) < b.spec_area(),
        pos_x(b, index_at(b, px, py)) == px,
        pos_y(b, index_at(b, px, py)) == py,
{
    let w = b.width as int;
    let h = b.height as int;
    let dy = py - b.y;
    let dx = px - b.x;
    assert(0 <= dy * w + dx < w * h) by (nonlinear_arith)
        requires
            0 <= dy < h,
            0 <= dx < w,
    {
        assert(dy * w <= (h - 1) * w);
    }
    vstd::arithmetic::div_mod::lemma_fundamental_div_mod_converse(dy * w + dx, w, dy, dx);
}

/// The union of two rectangles of the plane lies in the plane.
pub proof fn lemma_union_fits(a: Bound, b: Bound)
    requires
        a.fits(),
        b.fits(),
    ensures
        a.union_representable(&b),
        a.spec_union(&b).fits(),
        a.spec_union(&b).union_x(&a) == a.spec_union(&b).x,
{
}

/// Writing from beyond the right border changes nothing.
pub proof fn lemma_past_right(v: BufferView, col: int, py: int, gs: Seq<Seq<char>>, style: Option<Style>)
    requires
        col >= v.bound.x + v.bound.width,
    ensures
        v.with_graphemes(col, py, gs, style) == v,
    decreases gs.len(),
{
    if gs.len() > 0 {
        lemma_past_right(v, col + display_width(gs[0]), py, gs.drop_first(), style);
    }
}

/// Merging a buffer onto an identical buffer leaves it unchanged.
pub proof fn lemma_merge_idempotent(b: BufferView)
    requires
        b.cells.len() == b.bound.spec_area(),
        b.bound.fits(),
    ensures
        b.merged(b) == b,
{
    let m = b.merged(b);
    assert(m.bound == b.bound);
    assert forall|i: int| 0 <= i < b.cells.len() implies m.cells[i] == b.cells[i] by {
        lemma_pos_of(b.bound, i);
    }
    assert(m.cells =~= b.cells);
}

/// Resizing always leaves as many cells as the new bound's area.
pub proof fn lemma_resize_area(b: BufferView, nb: Bound)
    requires
        b.cells.len() == b.bound.spec_area(),
    ensures
        b.resized(nb).cells.len() == nb.spec_area(),
        b.resized(nb).bound == nb,
{
}

/// Shrinking and growing back is no round trip: the cells beyond the smaller
/// area come back blank.
pub proof fn lemma_shrink_grow_loses_content(b: BufferView, small: Bound)
    requires
        b.cells.len() == b.bound.spec_area(),
        small.spec_area() < b.bound.spec_area(),
    ensures
        b.resized(small).resized(b.bound).cells
            == b.cells.take(small.spec_area() as int) + blanks((b.bound.spec_area() - small.spec_area()) as nat),
{
}

impl Buffer {
    /// Cells match the bound's area, and the bound lies in the plane.
    pub open spec fn wf(&self) -> bool {
        self@.wf()
    }

    /// A buffer of blank cells.
    pub fn empty(bound: Bound) -> (r: Buffer)
        requires
            bound.fits(),
        ensures
            r.wf(),
            r@ == (BufferView { bound, cells: blanks(bound.spec_area()) }),
    {
        let size = bound.area() as usize;
        let mut vec: Vec<Cell> = Vec::with_capacity(size);
        let mut i: usize = 0;
        while i < size
            invariant
                i <= size,
                size == bound.spec_area(),
                vec@.len() == i,
                forall|k: int| 0 <= k < i ==> #[trigger] vec@[k]@ == blank_cell(),
            decreases size - i,
        {
            vec.push(Cell::default());
            i += 1;
        }
        let r = Buffer { buf: vec, bound: bound };
        proof {
            assert(r@.cells =~= blanks(bound.spec_area()));
        }
        r
    }

    pub fn bound(&self) -> (r: &Bound)
        ensures
            *r == self@.bound,
    {
        &self.bound
    }

    pub fn height(&self) -> (r: u16)
        ensures
            r == self@.bound.height,
    {
        self.bound.height
    }

    pub fn width(&self) -> (r: u16)
        ensures
            r == self@.bound.width,
    {
        self.bound.width
    }

    /// The cells in row-major order.
    pub fn inner(&self) -> (r: &Vec<Cell>)
        ensures
            r@.map_values(|c: Cell| c@) == self@.cells,
    {
        &self.buf
    }

    fn index_of(&self, x: u16, y: u16) -> (r: usize)
        requires
            self.wf(),
            self@.bound.covers(x as int, y as int),
        ensures
            r == index_at(self@.bound, x as int, y as int),
            r < self@.cells.len(),
    {
        proof {
            lemma_index_in_range(self.bound, x as int, y as int);
            lemma_area_bound(self.bound);
        }
        let dy = (y - self.bound.y) as usize;
        let dx = (x - self.bound.x) as usize;
        assert(dy * self.bound.width <= index_at(self@.bound, x as int, y as int));
        dy * self.bound.width as usize + dx
    }

    /// Coordinates of the cell at linear index `i`.
    pub fn pos_of(&self, i: usize) -> (r: (u16, u16))
        requires
            self.wf(),
            i < self@.cells.len(),
        ensures
            r.0 == pos_x(self@.bound, i as int),
            r.1 == pos_y(self@.bound, i as int),
    {
        proof {
            lemma_pos_of(self.bound, i as int);
        }
        let w = self.bound.width as usize;
        ((self.bound.x as usize + i % w) as u16, (self.bound.y as usize + i / w) as u16)
    }

    /// The grapheme at `(x, y)`.
    pub fn get(&self, x: u16, y: u16) -> (r: &str)
        requires
            self.wf(),
            self@.bound.covers(x as int, y as int),
        ensures
            r@ == self@.at(x as int, y as int).grapheme,
    {
        let i = self.index_of(x, y);
        self.buf[i].grapheme.as_str()
    }

    /// The style at `(x, y)`.
    pub fn get_style(&self, x: u16, y: u16) -> (r: Style)
        requires
            self.wf(),
            self@.bound.covers(x as int, y as int),
        ensures
            r == self@.at(x as int, y as int).style,
    {
        let i = self.index_of(x, y);
        self.buf[i].style
    }

    fn put(&mut self, i: usize, c: Cell)
        requires
            i < old(self)@.cells.len(),
        ensures
            final(self)@ == (BufferView { cells: old(self)@.cells.update(i as int, c@), ..old(self)@ }),
    {
        self.buf.set(i, c);
        proof {
            assert(final(self)@.cells =~= old(self)@.cells.update(i as int, c@));
        }
    }

    /// Replaces the grapheme at `(x, y)`, keeping its style.
    pub fn set(&mut self, x: u16, y: u16, c: &str)
        requires
            old(self).wf(),
            old(self)@.bound.covers(x as int, y as int),
        ensures
            final(self).wf(),
            final(self)@.bound == old(self)@.bound,
            final(self)@ == old(self)@.with_cell(x as int, y as int, CellView {
                grapheme: c@,
                style: old(self)@.at(x as int, y as int).style,
            }),
    {
        let i = self.index_of(x, y);
        let style = self.buf[i].style;
        self.put(i, Cell::new(c, style));
    }

    /// Replaces the style at `(x, y)`, keeping its grapheme.
    pub fn set_style(&mut self, x: u16, y: u16, style: Style)
        requires
            old(self).wf(),
            old(self)@.bound.covers(x as int, y as int),
        ensures
            final(self).wf(),
            final(self)@.bound == old(self)@.bound,
            final(self)@ == old(self)@.with_cell(x as int, y as int, CellView {
                grapheme: old(self)@.at(x as int, y as int).grapheme,
                style,
            }),
    {
        let i = self.index_of(x, y);
        let g = self.buf[i].grapheme.clone();
        self.put(i, Cell { grapheme: g, style: style });
    }

    /// Replaces the whole cell at `(x, y)`.
    pub fn set_styled(&mut self, x: u16, y: u16, c: &str, style: Style)
        requires
            old(self).wf(),
            old(self)@.bound.covers(x as int, y as int),
        ensures
            final(self).wf(),
            final(self)@.bound == old(self)@.bound,
            final(self)@ == old(self)@.with_cell(x as int, y as int, CellView { grapheme: c@, style }),
    {
        let i = self.index_of(x, y);
        self.put(i, Cell::new(c, style));
    }

    /// Writes graphemes from `(x, y)` onwards without wrapping, keeping styles
    /// (or setting `style`); those that start outside the bound are dropped.
    pub fn set_graphemes(&mut self, x: u16, y: u16, gs: &Vec<String>, style: Option<Style>)
        requires
            old(self).wf(),
        ensures
            final(self).wf(),
            final(self)@.bound == old(self)@.bound,
            final(self)@ == old(self)@.with_graphemes(x as int, y as int, gs@.map_values(|g: String| g@), style),
    {
        let ghost gv = gs@.map_values(|g: String| g@);
        let ghost start = self@;
        let right = self.bound.right_border() as usize;
        let mut col: usize = x as usize;
        let mut k: usize = 0;
        assert(gv.skip(0) =~= gv);
        while k < gs.len()
            invariant
                self.wf(),
                self@.bound == start.bound,
                right == start.bound.x + start.bound.width,
                k <= gs@.len(),
                gv == gs@.map_values(|g: String| g@),
                start.with_graphemes(x as int, y as int, gv, style)
                    == self@.with_graphemes(col as int, y as int, gv.skip(k as int), style),
            decreases gs@.len() - k,
        {
            let ghost before = self@;
            let g = &gs[k];
            assert(gv.skip(k as int).drop_first() =~= gv.skip(k as int + 1));
            assert(gv.skip(k as int)[0] == g@);
            let inside = col >= self.bound.x as usize && col < right && y >= self.bound.y
                && (y as u32) < self.bound.bottom_border();
            if inside {
                let c = col as u16;
                match style {
                    Some(s) => self.set_styled(c, y, g.as_str(), s),
                    None => self.set(c, y, g.as_str()),
                }
            }
            let w = str_width(g.as_str());
            proof {
                if col >= right || w >= right - col {
                    lemma_past_right(self@, col + w, y as int, gv.skip(k as int + 1), style);
                    lemma_past_right(self@, right as int, y as int, gv.skip(k as int + 1), style);
                }
            }
            col = if col >= right || w >= right - col { right } else { col + w };
            k += 1;
        }
        proof {
            assert(gv.skip(k as int).len() == 0);
        }
    }

    /// Takes a new bound; cells keep their linear index and are truncated or
    /// padded with blank cells to the new area.
    pub fn resize(&mut self, bound: Bound)
        requires
            old(self).wf(),
            bound.fits(),
        ensures
            final(self).wf(),
            final(self)@ == old(self)@.resized(bound),
    {
        let size = bound.area() as usize;
        let ghost start = self@;
        if self.buf.len() > size {
            self.buf.truncate(size);
        } else {
            while self.buf.len() < size
                invariant
                    start.cells.len() <= self.buf@.len() <= size,
                    size == bound.spec_area(),
                    self.bound == start.bound,
                    forall|k: int| 0 <= k < start.cells.len() ==> #[trigger] self.buf@[k]@ == start.cells[k],
                    forall|k: int| start.cells.len() <= k < self.buf@.len() ==> #[trigger] self.buf@[k]@ == blank_cell(),
                decreases size - self.buf@.len(),
            {
                self.buf.push(Cell::default());
            }
        }
        self.bound = bound;
        proof {
            assert(self@.cells =~= start.resized(bound).cells);
        }
    }

    /// Scrolls up by one row: the first row leaves and a blank row is appended.
    pub fn drop_top_line(&mut self)
        requires
            old(self).wf(),
        ensures
            final(self).wf(),
            final(self)@.bound == old(self)@.bound,
            final(self)@ == old(self)@.dropped_top(),
    {
        let w = self.bound.width as usize;
        let n = self.buf.len();
        if n >= w {
            let ghost start = self@;
            let mut v: Vec<Cell> = Vec::with_capacity(n);
            let mut i: usize = w;
            while i < n
                invariant
                    w <= i <= n,
                    n == self.buf@.len(),
                    v@.len() == i - w,
                    forall|k: int| 0 <= k < i - w ==> #[trigger] v@[k] == self.buf@[k + w],
                decreases n - i,
            {
                v.push(self.buf[i].clone());
                i += 1;
            }
            while v.len() < n
                invariant
                    w <= n,
                    n - w <= v@.len() <= n,
                    n == self.buf@.len(),
                    forall|k: int| 0 <= k < n - w ==> #[trigger] v@[k] == self.buf@[k + w],
                    forall|k: int| n - w <= k < v@.len() ==> #[trigger] v@[k]@ == blank_cell(),
                decreases n - v@.len(),
            {
                v.push(Cell::default());
            }
            self.buf = v;
            proof {
                assert(self@.cells =~= start.dropped_top().cells);
            }
        }
    }

    /// Blanks every cell, keeping the bound.
    pub fn reset(&mut self)
        requires
            old(self).wf(),
        ensures
            final(self).wf(),
            final(self)@.bound == old(self)@.bound,
            final(self)@ == old(self)@.cleared(),
    {
        let n = self.buf.len();
        let mut i: usize = 0;
        let ghost start = self@;
        while i < n
            invariant
                i <= n,
                n == self.buf@.len(),
                self.bound == start.bound,
                forall|k: int| 0 <= k < i ==> #[trigger] self.buf@[k]@ == blank_cell(),
            decreases n - i,
        {
            self.buf.set(i, Cell::default());
            i += 1;
        }
        proof {
            assert(self@.cells =~= start.cleared().cells);
        }
    }

    /// Moves the buffer to column `x`, keeping its cells.
    pub fn move_x(&mut self, x: u16)
        requires
            old(self).wf(),
            x + old(self)@.bound.width <= crate::bound::PLANE_MAX,
        ensures
            final(self).wf(),
            final(self)@ == (BufferView { bound: Bound { x, ..old(self)@.bound }, ..old(self)@ }),
    {
        self.bound = Bound { x: x, ..self.bound };
    }

    /// Composites `other` onto this buffer: the bound grows to the union of
    /// the two, cells of `other` overwrite, and new cells are blank.
    pub fn merge(&mut self, other: &Buffer)
        requires
            old(self).wf(),
            other.wf(),
        ensures
            final(self).wf(),
            final(self)@ == old(self)@.merged(other@),
    {
        proof {
            lemma_union_fits(self.bound, other.bound);
        }
        let u = self.bound.union(&other.bound);
        let size = u.area() as usize;
        let uw = u.width as usize;
        let sb = self.bound;
        let ob = other.bound;
        let ghost target = self@.merged(other@);
        let mut v: Vec<Cell> = Vec::with_capacity(size);
        let mut j: usize = 0;
        while j < size
            invariant
                j <= size,
                size == u.spec_area(),
                uw == u.width,
                u == target.bound,
                sb == self@.bound,
                ob == other@.bound,
                self.wf(),
                other.wf(),
                target == self@.merged(other@),
                v@.len() == j,
                forall|k: int| 0 <= k < j ==> #[trigger] v@[k]@ == target.cells[k],
            decreases size - j,
        {
            proof {
                lemma_pos_of(u, j as int);
            }
            let px = u.x as usize + j % uw;
            let py = u.y as usize + j / uw;
            let in_other = px >= ob.x as usize && px < ob.x as usize + ob.width as usize
                && py >= ob.y as usize && py < ob.y as usize + ob.height as usize;
            let in_self = px >= sb.x as usize && px < sb.x as usize + sb.width as usize
                && py >= sb.y as usize && py < sb.y as usize + sb.height as usize;
            if in_other {
                let i = other.index_of(px as u16, py as u16);
                v.push(other.buf[i].clone());
            } else if in_self {
                let i = self.index_of(px as u16, py as u16);
                v.push(self.buf[i].clone());
            } else {
                v.push(Cell::default());
            }
            j += 1;
        }
        self.buf = v;
        self.bound = u;
        proof {
            assert(self@.cells =~= target.cells);
        }
    }

    /// Writes the grapheme clusters of `s` from `(x, y)` onwards without
    /// wrapping, keeping styles; those that start outside the bound are dropped.
    pub fn set_str(&mut self, x: u16, y: u16, s: &str)
        requires
            old(self).wf(),
        ensures
            final(self).wf(),
            final(self)@.bound == old(self)@.bound,
            final(self)@ == old(self)@.with_graphemes(x as int, y as int, grapheme_split(s@), None),
    {
        let gs = graphemes(s);
        self.set_graphemes(x, y, &gs, None);
    }

    /// Replaces the whole cell at column `x` of row `y` where it is inside the
    /// bound; elsewhere nothing changes.
    pub fn put_clipped(&mut self, x: usize, y: u16, c: &str, style: Style)
        requires
            old(self).wf(),
        ensures
            final(self).wf(),
            final(self)@.bound == old(self)@.bound,
            final(self)@ == old(self)@.put_clipped(x as int, y as int, CellView { grapheme: c@, style }),
    {
        let inside = x >= self.bound.x as usize && x < self.bound.right_border() as usize && y >= self.bound.y
            && (y as u32) < self.bound.bottom_border();
        if inside {
            self.set_styled(x as u16, y, c, style);
        }
    }

    /// Writes the grapheme clusters of `s` in `style` from column `x` of row
    /// `y` onwards, without wrapping; those that start outside the bound are dropped.
    pub fn put_str_clipped(&mut self, x: usize, y: u16, s: &str, style: Style)
        requires
            old(self).wf(),
        ensures
            final(self).wf(),
            final(self)@.bound == old(self)@.bound,
            final(self)@ == old(self)@.with_graphemes(x as int, y as int, grapheme_split(s@), Some(style)),
    {
        if x < self.bound.right_border() as usize {
            self.set_str_styled(x as u16, y, s, style);
        } else {
            proof {
                lemma_past_right(self@, x as int, y as int, grapheme_split(s@), Some(style));
            }
        }
    }

    /// Writes the grapheme clusters of `s` in `style` from `(x, y)` onwards
    /// without wrapping; those that start outside the bound are dropped.
    pub fn set_str_styled(&mut self, x: u16, y: u16, s: &str, style: Style)
        requires
            old(self).wf(),
        ensures
            final(self).wf(),
            final(self)@.bound == old(self)@.bound,
            final(self)@ == old(self)@.with_graphemes(x as int, y as int, grapheme_split(s@), Some(style)),
    {
        let gs = graphemes(s);
        self.set_graphemes(x, y, &gs, Some(style));
    }
}

} // verus!
