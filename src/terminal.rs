//! The double-buffered renderer: widgets draw into the active frame, and the
//! cells that differ from the last flushed frame become escape sequences.

use vstd::prelude::*;
use crate::bound::Bound;
use crate::buffer::{blanks, lemma_pos_of, Buffer, BufferView, CellView};
use crate::escape::{goto, goto_text, push_str, string_of_chars};
use crate::style::{Color, Modifier, Style};
use crate::widget::Widget;

verus! {

/// One step of the output stream.
pub enum DrawOp {
    /// Move the cursor to the zero-based column and row.
    Goto(u16, u16),
    Modifier(Modifier),
    Fg(Color),
    Bg(Color),
    /// Write a grapheme cluster.
    Put(String),
}

pub enum OpView {
    Goto(int, int),
    Modifier(Modifier),
    Fg(Color),
    Bg(Color),
    Put(Seq<char>),
}

impl View for DrawOp {
    type V = OpView;

    open spec fn view(&self) -> OpView {
        match self {
            DrawOp::Goto(x, y) => OpView::Goto(*x as int, *y as int),
            DrawOp::Modifier(m) => OpView::Modifier(*m),
            DrawOp::Fg(c) => OpView::Fg(*c),
            DrawOp::Bg(c) => OpView::Bg(*c),
            DrawOp::Put(g) => OpView::Put(g@),
        }
    }
}

/// Progress of the diff: operations so far, the style the terminal is in,
/// and the last cell written.
pub struct DiffState {
    pub ops: Seq<OpView>,
    pub style: Style,
    pub last: Option<(int, int)>,
}

pub open spec fn diff_start() -> DiffState {
    DiffState { ops: seq![], style: Style::spec_default(), last: None }
}

/// The style changes needed to go from `s` to `t`: modifier first (a reset
/// modifier also resets both colours), then foreground, then background.
pub open spec fn style_change(s: Style, t: Style) -> (Seq<OpView>, Style) {
    let (ops1, s1) = if t.modifier != s.modifier {
        (
            seq![OpView::Modifier(t.modifier)],
            if t.modifier == Modifier::Reset {
                Style { fg: Color::Reset, bg: Color::Reset, modifier: t.modifier }
            } else {
                Style { modifier: t.modifier, ..s }
            },
        )
    } else {
        (seq![], s)
    };
    let (ops2, s2) = if t.fg != s1.fg {
        (ops1.push(OpView::Fg(t.fg)), Style { fg: t.fg, ..s1 })
    } else {
        (ops1, s1)
    };
    if t.bg != s2.bg {
        (ops2.push(OpView::Bg(t.bg)), Style { bg: t.bg, ..s2 })
    } else {
        (ops2, s2)
    }
}

/// Writing cell `c` at `(x, y)`: a cursor move unless it follows the last
/// cell written on the same row, the style changes, then the grapheme.
pub open spec fn emit(st: DiffState, x: int, y: int, c: CellView) -> DiffState {
    let contiguous = match st.last {
        Some(p) => p.1 == y && x == p.0 + 1,
        None => false,
    };
    let ops0 = if contiguous { st.ops } else { st.ops.push(OpView::Goto(x, y)) };
    let (sops, s) = style_change(st.style, c.style);
    DiffState { ops: ops0 + sops + seq![OpView::Put(c.grapheme)], style: s, last: Some((x, y)) }
}

/// Number of cells the two frames have in common.
pub open spec fn common_len(cur: BufferView, prev: BufferView) -> int {
    if cur.cells.len() <= prev.cells.len() { cur.cells.len() as int } else { prev.cells.len() as int }
}

/// The diff after the first `n` cells of the two frames; positions are
/// relative to the frame's top left corner.
pub open spec fn diff_upto(cur: BufferView, prev: BufferView, n: int) -> DiffState
    decreases n,
{
    if n <= 0 {
        diff_start()
    } else {
        let st = diff_upto(cur, prev, n - 1);
        let i = n - 1;
        let w = cur.bound.width as int;
        if i < common_len(cur, prev) && cur.cells[i] != prev.cells[i] {
            emit(st, i % w, i / w, cur.cells[i])
        } else {
            st
        }
    }
}

/// The operations that turn frame `prev` into frame `cur` on the screen.
pub open spec fn diff_ops(cur: BufferView, prev: BufferView) -> Seq<OpView> {
    diff_upto(cur, prev, common_len(cur, prev)).ops
}

/// The escape sequence of one operation.
pub open spec fn op_text(op: OpView) -> Seq<char> {
    match op {
        OpView::Goto(x, y) => goto_text((x + 1) as nat, (y + 1) as nat),
        OpView::Modifier(m) => m.text(),
        OpView::Fg(c) => c.fg_text(),
        OpView::Bg(c) => c.bg_text(),
        OpView::Put(g) => g,
    }
}

/// The escape sequences of a list of operations, in order.
pub open spec fn ops_text(ops: Seq<OpView>) -> Seq<char>
    decreases ops.len(),
{
    if ops.len() == 0 {
        seq![]
    } else {
        ops_text(ops.drop_last()) + op_text(ops.last())
    }
}

/// What a flush writes: the operations, then the default colours and modifier.
pub open spec fn frame_text(ops: Seq<OpView>) -> Seq<char> {
    ops_text(ops) + Color::Reset.fg_text() + Color::Reset.bg_text() + Modifier::Reset.text()
}

fn push_style_change(ops: &mut Vec<DrawOp>, style: &mut Style, t: Style)
    requires
        gotos_in_plane(old(ops)@),
    ensures
        gotos_in_plane(final(ops)@),
        final(ops)@.map_values(|o: DrawOp| o@) == old(ops)@.map_values(|o: DrawOp| o@) + style_change(*old(style), t).0,
        *final(style) == style_change(*old(style), t).1,
{
    let ghost ops0 = ops@.map_values(|o: DrawOp| o@);
    if t.modifier != style.modifier {
        ops.push(DrawOp::Modifier(t.modifier));
        style.modifier = t.modifier;
        if t.modifier == Modifier::Reset {
            style.fg = Color::Reset;
            style.bg = Color::Reset;
        }
    }
    if t.fg != style.fg {
        ops.push(DrawOp::Fg(t.fg));
        style.fg = t.fg;
    }
    if t.bg != style.bg {
        ops.push(DrawOp::Bg(t.bg));
        style.bg = t.bg;
    }
    proof {
        assert(ops@.map_values(|o: DrawOp| o@) =~= ops0 + style_change(*old(style), t).0);
    }
}

/// The operations that turn frame `prev` into frame `cur` on the screen: for
/// each differing cell, in order, a cursor move unless it follows the last
/// written cell on its row, the style changes, and the grapheme.
pub fn diff(cur: &Buffer, prev: &Buffer) -> (r: Vec<DrawOp>)
    requires
        cur.wf(),
        prev.wf(),
    ensures
        r@.map_values(|o: DrawOp| o@) == diff_ops(cur@, prev@),
        gotos_in_plane(r@),
{
    let cells = cur.inner();
    let pcells = prev.inner();
    let n = if cells.len() <= pcells.len() { cells.len() } else { pcells.len() };
    let w = cur.width() as usize;
    let ghost fb = Bound { x: 0, y: 0, width: cur@.bound.width, height: cur@.bound.height };
    let mut ops: Vec<DrawOp> = Vec::new();
    let mut style = Style::default();
    let mut last: Option<(u16, u16)> = None;
    let mut i: usize = 0;
    while i < n
        invariant
            i <= n,
            n == common_len(cur@, prev@),
            cells@.map_values(|c: crate::buffer::Cell| c@) == cur@.cells,
            pcells@.map_values(|c: crate::buffer::Cell| c@) == prev@.cells,
            w == cur@.bound.width,
            fb.spec_area() == cur@.cells.len(),
            fb.width == w,
            ops@.map_values(|o: DrawOp| o@) == diff_upto(cur@, prev@, i as int).ops,
            gotos_in_plane(ops@),
            style == diff_upto(cur@, prev@, i as int).style,
            diff_upto(cur@, prev@, i as int).last == match last {
                Some(p) => Some((p.0 as int, p.1 as int)),
                None => None::<(int, int)>,
            },
        decreases n - i,
    {
        assert(cur@.cells[i as int] == cells@[i as int]@);
        assert(prev@.cells[i as int] == pcells@[i as int]@);
        let ghost st = diff_upto(cur@, prev@, i as int);
        let ghost ops_before = ops@.map_values(|o: DrawOp| o@);
        if !cells[i].eq(&pcells[i]) {
            proof {
                lemma_pos_of(fb, i as int);
            }
            let x = (i % w) as u16;
            let y = (i / w) as u16;
            let contiguous = match last {
                Some(p) => p.1 == y && p.0 as u32 + 1 == x as u32,
                None => false,
            };
            if !contiguous {
                ops.push(DrawOp::Goto(x, y));
            }
            let ghost ops_moved = ops@.map_values(|o: DrawOp| o@);
            assert(ops_moved =~= (if contiguous { ops_before } else { ops_before.push(OpView::Goto(x as int, y as int)) }));
            push_style_change(&mut ops, &mut style, cells[i].style);
            let ghost ops_styled = ops@.map_values(|o: DrawOp| o@);
            ops.push(DrawOp::Put(cells[i].grapheme.clone()));
            last = Some((x, y));
            proof {
                let e = emit(st, x as int, y as int, cur@.cells[i as int]);
                assert(ops@.map_values(|o: DrawOp| o@) =~= ops_styled.push(OpView::Put(cur@.cells[i as int].grapheme)));
                assert(ops@.map_values(|o: DrawOp| o@) =~= e.ops);
                assert(diff_upto(cur@, prev@, i as int + 1) == e);
            }
        }
        i += 1;
    }
    ops
}

/// Every cursor move targets a cell whose one-based coordinates are `u16` values.
pub open spec fn gotos_in_plane(ops: Seq<DrawOp>) -> bool {
    forall|k: int| 0 <= k < ops.len() ==> match #[trigger] ops[k] {
        DrawOp::Goto(x, y) => x < u16::MAX && y < u16::MAX,
        _ => true,
    }
}

/// Appends the escape sequence of `op`.
fn push_op_text(out: &mut Vec<char>, op: &DrawOp)
    requires
        match op {
            DrawOp::Goto(x, y) => *x < u16::MAX && *y < u16::MAX,
            _ => true,
        },
    ensures
        final(out)@ == old(out)@ + op_text(op@),
{
    let s = match op {
        DrawOp::Goto(x, y) => goto(*x + 1, *y + 1),
        DrawOp::Modifier(m) => m.to_string(),
        DrawOp::Fg(c) => c.to_fg_string(),
        DrawOp::Bg(c) => c.to_bg_string(),
        DrawOp::Put(g) => g.clone(),
    };
    push_str(out, s.as_str());
}

/// The escape sequences of `ops`, then the default colours and modifier.
pub fn frame_string(ops: &Vec<DrawOp>) -> (r: String)
    requires
        gotos_in_plane(ops@),
    ensures
        r@ == frame_text(ops@.map_values(|o: DrawOp| o@)),
{
    let ghost ov = ops@.map_values(|o: DrawOp| o@);
    let mut out: Vec<char> = Vec::new();
    let mut i: usize = 0;
    while i < ops.len()
        invariant
            i <= ops@.len(),
            ov == ops@.map_values(|o: DrawOp| o@),
            out@ == ops_text(ov.take(i as int)),
            gotos_in_plane(ops@),
        decreases ops@.len() - i,
    {
        assert(match ops@[i as int] {
            DrawOp::Goto(x, y) => x < u16::MAX && y < u16::MAX,
            _ => true,
        });
        push_op_text(&mut out, &ops[i]);
        assert(ov.take(i as int + 1).drop_last() =~= ov.take(i as int));
        i += 1;
    }
    assert(ov.take(i as int) =~= ov);
    push_str(&mut out, Color::Reset.to_fg_string().as_str());
    push_str(&mut out, Color::Reset.to_bg_string().as_str());
    push_str(&mut out, Modifier::Reset.to_string().as_str());
    string_of_chars(&out)
}

proof fn lemma_diff_single(cur: BufferView, prev: BufferView, i: int, n: int)
    requires
        cur.cells.len() == prev.cells.len(),
        0 <= i < cur.cells.len(),
        n <= cur.cells.len(),
        forall|k: int| 0 <= k < cur.cells.len() && k != i ==> cur.cells[k] == prev.cells[k],
    ensures
        n <= i ==> diff_upto(cur, prev, n) == diff_start(),
        n > i && cur.cells[i] != prev.cells[i] ==> diff_upto(cur, prev, n) == emit(
            diff_start(),
            i % (cur.bound.width as int),
            i / (cur.bound.width as int),
            cur.cells[i],
        ),
    decreases n,
{
    if n > 0 {
        lemma_diff_single(cur, prev, i, n - 1);
    }
}

/// Two frames that differ in exactly one cell give one cursor move, the style
/// changes of that cell, and one grapheme: never a rewrite of the frame.
pub proof fn lemma_diff_one_cell(cur: BufferView, prev: BufferView, i: int)
    requires
        cur.cells.len() == prev.cells.len(),
        0 <= i < cur.cells.len(),
        cur.cells[i] != prev.cells[i],
        forall|k: int| 0 <= k < cur.cells.len() && k != i ==> cur.cells[k] == prev.cells[k],
    ensures
        ({
            let ops = diff_ops(cur, prev);
            &&& ops.len() >= 2
            &&& ops[0] == OpView::Goto(i % (cur.bound.width as int), i / (cur.bound.width as int))
            &&& ops.last() == OpView::Put(cur.cells[i].grapheme)
            &&& forall|k: int| 0 < k < ops.len() - 1 ==> !(#[trigger] ops[k] is Goto) && !(ops[k] is Put)
        }),
{
    lemma_diff_single(cur, prev, i, cur.cells.len() as int);
    let ops = diff_ops(cur, prev);
    let (sops, _s) = style_change(Style::spec_default(), cur.cells[i].style);
    assert(ops == seq![OpView::Goto(i % (cur.bound.width as int), i / (cur.bound.width as int))] + sops
        + seq![OpView::Put(cur.cells[i].grapheme)]);
    assert forall|k: int| 0 < k < ops.len() - 1 implies !(#[trigger] ops[k] is Goto) && !(ops[k] is Put) by {
        assert(ops[k] == sops[k - 1]);
    }
}

/// Two frames of the terminal's size: the active one that widgets draw into,
/// and the one last flushed to the screen.
pub struct Terminal {
    current: Buffer,
    previous: Buffer,
}

impl Terminal {
    pub open spec fn wf(&self) -> bool {
        self.active().wf() && self.flushed().wf()
    }

    /// The frame being drawn.
    pub closed spec fn active(&self) -> BufferView {
        self.current@
    }

    /// The frame last flushed.
    pub closed spec fn flushed(&self) -> BufferView {
        self.previous@
    }

    /// Two blank frames of `width` by `height` cells.
    pub fn new(width: u16, height: u16) -> (r: Terminal)
        ensures
            r.wf(),
            r.active() == (BufferView {
                bound: Bound { x: 0, y: 0, width, height },
                cells: blanks((width * height) as nat),
            }),
            r.flushed() == r.active(),
    {
        let b = Bound::new(0, 0, width, height);
        Terminal { current: Buffer::empty(b), previous: Buffer::empty(b) }
    }

    /// Draws `widget` into the active frame.
    pub fn render<W: Widget>(&mut self, widget: &W)
        requires
            old(self).wf(),
            widget.drawable(),
        ensures
            final(self).wf(),
            final(self).active() == old(self).active().merged(widget.canvas()),
            final(self).flushed() == old(self).flushed(),
    {
        widget.draw(&mut self.current);
    }

    /// Flushes the active frame: returns the escape sequences that bring the
    /// screen from the last flushed frame to it; the active frame becomes the
    /// flushed one, and the other frame, blanked, becomes active.
    pub fn draw(&mut self) -> (r: String)
        requires
            old(self).wf(),
        ensures
            final(self).wf(),
            r@ == frame_text(diff_ops(old(self).active(), old(self).flushed())),
            final(self).flushed() == old(self).active(),
            final(self).active() == old(self).flushed().cleared(),
    {
        let ops = diff(&self.current, &self.previous);
        let r = frame_string(&ops);
        self.swap();
        r
    }

    /// The frame being drawn.
    pub fn current_buf(&self) -> (r: &Buffer)
        ensures
            r@ == self.active(),
    {
        &self.current
    }

    /// The frame last flushed.
    pub fn previous_buf(&self) -> (r: &Buffer)
        ensures
            r@ == self.flushed(),
    {
        &self.previous
    }

    fn swap(&mut self)
        requires
            old(self).wf(),
        ensures
            final(self).wf(),
            final(self).flushed() == old(self).active(),
            final(self).active() == old(self).flushed().cleared(),
    {
        std::mem::swap(&mut self.current, &mut self.previous);
        self.current.reset();
    }
}

} // verus!
