//! The scrollback widget: lines of marked-up text laid out into a buffer,
//! wrapped at its width and scrolled once they reach its height.

use vstd::prelude::*;
use crate::buffer::{Buffer, BufferView, CellView};
use crate::event::Event;
use crate::markup::{markup, parse_markup, Token, TokenView};
use crate::style::Style;
use crate::text::{display_width, grapheme_split, graphemes, str_width};
use crate::widget::Widget;

verus! {

/// The scrollback's contents and its write cursor: the column and row where
/// the next grapheme goes.
pub struct ChatView {
    pub buf: BufferView,
    pub x: int,
    pub y: int,
}

/// A write row past the last one scrolls the buffer up by one row first.
pub open spec fn settle(st: ChatView) -> ChatView {
    if st.y >= st.buf.bound.height {
        ChatView { buf: st.buf.dropped_top(), x: st.x, y: st.buf.bound.height - 1 }
    } else {
        st
    }
}

/// Lays out one token: a line break moves to the start of the next row; a
/// glyph first wraps when the row is full, then takes the cell under the
/// cursor and moves the cursor right by its display width.
pub open spec fn place_token(st: ChatView, t: TokenView) -> ChatView {
    let w = st.buf.bound.width as int;
    if w == 0 || st.buf.bound.height == 0 {
        st
    } else {
        match t {
            TokenView::Newline => {
                let s = settle(st);
                ChatView { x: 0, y: s.y + 1, ..s }
            },
            TokenView::Glyph(g, style) => {
                let s = settle(if st.x >= w { ChatView { x: 0, y: st.y + 1, ..st } } else { st });
                let nx = s.x + display_width(g);
                ChatView {
                    buf: s.buf.with_cell(
                        s.buf.bound.x + s.x,
                        s.buf.bound.y + s.y,
                        CellView { grapheme: g, style },
                    ),
                    x: if nx >= w { w } else { nx },
                    y: s.y,
                }
            },
        }
    }
}

/// Lays out the tokens in order.
pub open spec fn place_all(st: ChatView, ts: Seq<TokenView>) -> ChatView
    decreases ts.len(),
{
    if ts.len() == 0 {
        st
    } else {
        place_token(place_all(st, ts.drop_last()), ts.last())
    }
}

/// Ends a line: the cursor goes to the start of the row after it.
pub open spec fn end_line(st: ChatView) -> ChatView {
    if st.buf.bound.width == 0 || st.buf.bound.height == 0 {
        st
    } else {
        let s = settle(st);
        ChatView { x: 0, y: s.y + 1, ..s }
    }
}

/// A whole line laid out: its tokens, then the line's end.
pub open spec fn push_tokens_spec(st: ChatView, ts: Seq<TokenView>) -> ChatView {
    end_line(place_all(st, ts))
}

/// A line of marked-up text laid out in the given starting style.
pub open spec fn push_line_spec(st: ChatView, line: Seq<char>, style: Style) -> ChatView {
    push_tokens_spec(st, markup(grapheme_split(line), 0, style))
}

/// The scrollback widget.
pub struct ChatBuf {
    buf: Buffer,
    starting_x: u16,
    starting_y: u16,
}

impl Clone for ChatBuf {
    fn clone(&self) -> (r: ChatBuf)
        ensures
            r.spec_view() == self.spec_view(),
            r.wf() == self.wf(),
    {
        ChatBuf { buf: self.buf.clone(), starting_x: self.starting_x, starting_y: self.starting_y }
    }
}

impl ChatBuf {
    pub closed spec fn spec_view(&self) -> ChatView {
        ChatView { buf: self.buf@, x: self.starting_x as int, y: self.starting_y as int }
    }

    /// The buffer is well formed and the cursor is at most one row below it.
    pub open spec fn wf(&self) -> bool {
        &&& self.spec_view().buf.wf()
        &&& 0 <= self.spec_view().x <= self.spec_view().buf.bound.width
        &&& 0 <= self.spec_view().y <= self.spec_view().buf.bound.height
    }

    pub fn from_buffer(buf: Buffer) -> (r: ChatBuf)
        requires
            buf.wf(),
        ensures
            r.wf(),
            r.spec_view() == (ChatView { buf: buf@, x: 0, y: 0 }),
    {
        ChatBuf { buf: buf, starting_x: 0, starting_y: 0 }
    }

    /// The buffer that holds the laid-out lines.
    pub fn buffer(&self) -> (r: &Buffer)
        ensures
            r@ == self.spec_view().buf,
    {
        &self.buf
    }

    /// Blanks the buffer and moves the cursor to the top left corner.
    pub fn reset(&mut self)
        requires
            old(self).wf(),
        ensures
            final(self).wf(),
            final(self).spec_view() == (ChatView { buf: old(self).spec_view().buf.cleared(), x: 0, y: 0 }),
    {
        self.buf.reset();
        self.starting_x = 0;
        self.starting_y = 0;
    }

    /// Lays out one line given as tokens.
    pub fn push_tokens(&mut self, ts: &Vec<Token>)
        requires
            old(self).wf(),
        ensures
            final(self).wf(),
            final(self).spec_view() == push_tokens_spec(old(self).spec_view(), ts@.map_values(|t: Token| t@)),
    {
        let ghost tv = ts@.map_values(|t: Token| t@);
        let ghost start = self.spec_view();
        let w = self.buf.width() as usize;
        let h = self.buf.height() as usize;
        if w == 0 || h == 0 {
            assert(place_all(start, tv) == start) by {
                lemma_place_all_degenerate(start, tv);
            }
            return;
        }
        let bx = self.buf.bound().x;
        let by = self.buf.bound().y;
        let mut x: usize = self.starting_x as usize;
        let mut y: usize = self.starting_y as usize;
        let mut k: usize = 0;
        while k < ts.len()
            invariant
                k <= ts@.len(),
                tv == ts@.map_values(|t: Token| t@),
                self.buf.wf(),
                self.buf@.bound == start.buf.bound,
                w == start.buf.bound.width,
                h == start.buf.bound.height,
                bx == start.buf.bound.x,
                by == start.buf.bound.y,
                w > 0 && h > 0,
                x <= w,
                y <= h,
                (ChatView { buf: self.buf@, x: x as int, y: y as int }) == place_all(start, tv.take(k as int)),
            decreases ts@.len() - k,
        {
            let ghost before = ChatView { buf: self.buf@, x: x as int, y: y as int };
            assert(tv.take(k as int + 1).drop_last() =~= tv.take(k as int));
            assert(tv.take(k as int + 1).last() == ts@[k as int]@);
            match &ts[k] {
                Token::Newline => {
                    if y >= h {
                        self.buf.drop_top_line();
                        y = h - 1;
                    }
                    x = 0;
                    y = y + 1;
                },
                Token::Glyph(g, style) => {
                    if x >= w {
                        x = 0;
                        y = y + 1;
                    }
                    if y >= h {
                        self.buf.drop_top_line();
                        y = h - 1;
                    }
                    proof {
                        crate::bound::lemma_fits_inside(start.buf.bound, x as int, y as int);
                    }
                    self.buf.set_styled((bx as usize + x) as u16, (by as usize + y) as u16, g.as_str(), *style);
                    let gw = str_width(g.as_str());
                    x = if gw >= w - x { w } else { x + gw };
                },
            }
            k += 1;
        }
        assert(tv.take(k as int) =~= tv);
        if y >= h {
            self.buf.drop_top_line();
            y = h - 1;
        }
        self.starting_x = 0;
        self.starting_y = (y + 1) as u16;
    }

    /// Lays out one line of marked-up text, starting in `style` (the default
    /// style where none is given).
    pub fn push_line(&mut self, line: &str, style: Option<Style>)
        requires
            old(self).wf(),
        ensures
            final(self).wf(),
            final(self).spec_view() == push_line_spec(
                old(self).spec_view(),
                line@,
                match style { Some(s) => s, None => Style::spec_default() },
            ),
    {
        let gs = graphemes(line);
        let st = match style {
            Some(s) => s,
            None => Style::default(),
        };
        let ts = parse_markup(&gs, st);
        self.push_tokens(&ts);
    }

    /// Lays out the rendering of a chat event in its style.
    pub fn push_event(&mut self, event: &Event)
        requires
            old(self).wf(),
        ensures
            final(self).wf(),
            final(self).spec_view() == push_line_spec(
                old(self).spec_view(),
                event.text(),
                match event.spec_style() { Some(s) => s, None => Style::spec_default() },
            ),
    {
        let line = event.to_string();
        let style = event.style();
        self.push_line(line.as_str(), style);
    }
}

/// Events laid out one after the other.
pub open spec fn push_events(st: ChatView, events: Seq<Event>) -> ChatView
    decreases events.len(),
{
    if events.len() == 0 {
        st
    } else {
        let prev = push_events(st, events.drop_last());
        let e = events.last();
        push_line_spec(prev, e.text(), match e.spec_style() { Some(s) => s, None => Style::spec_default() })
    }
}

impl ChatBuf {
    /// Blanks the scrollback and lays out every event of `model` again, oldest first.
    pub fn redraw_from_model(&mut self, model: &crate::model::ChatBuf)
        requires
            old(self).wf(),
        ensures
            final(self).wf(),
            final(self).spec_view() == push_events(
                ChatView { buf: old(self).spec_view().buf.cleared(), x: 0, y: 0 },
                model.events@,
            ),
    {
        self.reset();
        let ghost start = self.spec_view();
        let mut k: usize = 0;
        while k < model.events.len()
            invariant
                k <= model.events@.len(),
                self.wf(),
                self.spec_view() == push_events(start, model.events@.take(k as int)),
            decreases model.events@.len() - k,
        {
            assert(model.events@.take(k as int + 1).drop_last() =~= model.events@.take(k as int));
            self.push_event(&model.events[k]);
            k += 1;
        }
        assert(model.events@.take(k as int) =~= model.events@);
    }
}

/// A buffer with no cells lays out nothing.
pub proof fn lemma_place_all_degenerate(st: ChatView, ts: Seq<TokenView>)
    requires
        st.buf.bound.width == 0 || st.buf.bound.height == 0,
    ensures
        place_all(st, ts) == st,
    decreases ts.len(),
{
    if ts.len() > 0 {
        lemma_place_all_degenerate(st, ts.drop_last());
    }
}

impl Widget for ChatBuf {
    open spec fn canvas(&self) -> BufferView {
        self.spec_view().buf
    }

    open spec fn drawable(&self) -> bool {
        self.wf()
    }

    fn draw(&self, buffer: &mut Buffer) {
        buffer.merge(&self.buf);
    }
}

} // verus!

verus! {

/// Every token is a glyph one column wide.
pub open spec fn narrow_glyphs(ts: Seq<TokenView>) -> bool {
    forall|k: int| 0 <= k < ts.len() ==> (#[trigger] ts[k] is Glyph) && display_width(ts[k]->Glyph_0) == 1
}

/// The cell that a glyph token fills.
pub open spec fn glyph_cell(t: TokenView) -> CellView {
    CellView { grapheme: t->Glyph_0, style: t->Glyph_1 }
}

proof fn lemma_fill_row(st: ChatView, ts: Seq<TokenView>, k: int)
    requires
        st.buf.wf(),
        st.buf.bound.width > 0,
        st.x == 0,
        0 <= st.y < st.buf.bound.height,
        narrow_glyphs(ts),
        0 <= k <= ts.len(),
        k <= st.buf.bound.width,
    ensures
        place_all(st, ts.take(k)).x == k,
        place_all(st, ts.take(k)).y == st.y,
        place_all(st, ts.take(k)).buf.bound == st.buf.bound,
        place_all(st, ts.take(k)).buf.wf(),
        forall|j: int| 0 <= j < k ==> #[trigger] place_all(st, ts.take(k)).buf.at(
            st.buf.bound.x + j,
            st.buf.bound.y + st.y,
        ) == glyph_cell(ts[j]),
    decreases k,
{
    if k > 0 {
        lemma_fill_row(st, ts, k - 1);
        assert(ts.take(k).drop_last() =~= ts.take(k - 1));
        let prev = place_all(st, ts.take(k - 1));
        let b = st.buf.bound;
        let w = b.width as int;
        assert(ts[k - 1] is Glyph);
        assert(ts.take(k).last() == ts[k - 1]);
        let cur = place_all(st, ts.take(k));
        assert(cur == place_token(prev, ts[k - 1]));
        assert(settle(prev) == prev);
        assert(cur.buf == prev.buf.with_cell(b.x + k - 1, b.y + st.y, glyph_cell(ts[k - 1])));
        crate::buffer::lemma_index_in_range(b, b.x + k - 1, b.y + st.y);
        assert forall|j: int| 0 <= j < k implies #[trigger] place_all(st, ts.take(k)).buf.at(b.x + j, b.y + st.y)
            == glyph_cell(ts[j]) by {
            if j < k - 1 {
                crate::buffer::lemma_index_in_range(b, b.x + j, b.y + st.y);
                assert(crate::buffer::index_at(b, b.x + j, b.y + st.y) == st.y * w + j);
                assert(crate::buffer::index_at(b, b.x + k - 1, b.y + st.y) == st.y * w + k - 1);
                assert(prev.buf.at(b.x + j, b.y + st.y) == glyph_cell(ts[j]));
            }
        }
    }
}

/// Wrapping: a line of exactly `width` narrow glyphs fills the cursor's row and
/// starts no new one; one glyph more goes alone to the start of the next row.
pub proof fn lemma_wrap(st: ChatView, ts: Seq<TokenView>)
    requires
        st.buf.wf(),
        st.buf.bound.width > 0,
        st.x == 0,
        0 <= st.y < st.buf.bound.height,
        narrow_glyphs(ts),
        ts.len() == st.buf.bound.width || (ts.len() == st.buf.bound.width + 1 && st.y + 1 < st.buf.bound.height),
    ensures
        forall|j: int| 0 <= j < st.buf.bound.width ==> #[trigger] place_all(st, ts).buf.at(
            st.buf.bound.x + j,
            st.buf.bound.y + st.y,
        ) == glyph_cell(ts[j]),
        ts.len() == st.buf.bound.width ==> place_all(st, ts).y == st.y,
        ts.len() == st.buf.bound.width + 1 ==> {
            &&& place_all(st, ts).y == st.y + 1
            &&& place_all(st, ts).x == 1
            &&& place_all(st, ts).buf.at(st.buf.bound.x as int, st.buf.bound.y + st.y + 1) == glyph_cell(ts[ts.len() - 1])
        },
{
    let b = st.buf.bound;
    let w = b.width as int;
    lemma_fill_row(st, ts, w);
    if ts.len() == w {
        assert(ts.take(w) =~= ts);
    } else {
        assert(ts.drop_last() =~= ts.take(w));
        assert(ts[w] is Glyph);
        let prev = place_all(st, ts.take(w));
        let cur = place_all(st, ts);
        assert(cur == place_token(prev, ts[w]));
        let moved = ChatView { x: 0, y: st.y + 1, ..prev };
        assert(settle(moved) == moved);
        assert(cur.buf == prev.buf.with_cell(b.x as int, b.y + st.y + 1, glyph_cell(ts[w])));
        crate::buffer::lemma_index_in_range(b, b.x as int, b.y + st.y + 1);
        assert(crate::buffer::index_at(b, b.x as int, b.y + st.y + 1) == (st.y + 1) * w);
        assert((st.y + 1) * w == st.y * w + w) by (nonlinear_arith);
        assert forall|j: int| 0 <= j < w implies #[trigger] place_all(st, ts).buf.at(b.x + j, b.y + st.y)
            == glyph_cell(ts[j]) by {
            crate::buffer::lemma_index_in_range(b, b.x + j, b.y + st.y);
            assert(crate::buffer::index_at(b, b.x + j, b.y + st.y) == st.y * w + j);
            assert(prev.buf.at(b.x + j, b.y + st.y) == glyph_cell(ts[j]));
        }
    }
}

/// Scrolling: with every row written, the next line evicts the oldest row;
/// the other rows move up by one and the line takes the last row.
pub proof fn lemma_scroll(st: ChatView, g: Seq<char>, style: Style)
    requires
        st.buf.wf(),
        st.buf.bound.width > 0,
        st.x == 0,
        st.y == st.buf.bound.height,
        st.buf.bound.height > 0,
    ensures
        ({
            let r = push_tokens_spec(st, seq![TokenView::Glyph(g, style)]);
            let w = st.buf.bound.width as int;
            let h = st.buf.bound.height as int;
            &&& r.buf == st.buf.dropped_top().with_cell(
                st.buf.bound.x as int,
                st.buf.bound.y + h - 1,
                CellView { grapheme: g, style },
            )
            &&& r.y == h
            &&& r.buf.cells.len() == st.buf.cells.len()
            &&& forall|k: int| 0 <= k < (h - 1) * w ==> #[trigger] r.buf.cells[k] == st.buf.cells[k + w]
        }),
{
    let ts = seq![TokenView::Glyph(g, style)];
    assert(ts.drop_last() =~= Seq::<TokenView>::empty());
    let b = st.buf.bound;
    let w = b.width as int;
    let h = b.height as int;
    crate::buffer::lemma_index_in_range(b, b.x as int, b.y + h - 1);
    assert((h - 1) * w == h * w - w) by (nonlinear_arith);
    assert(place_all(st, ts.drop_last()) == st);
    assert(ts.last() == ts[0]);
    assert(place_all(st, ts) == place_token(st, ts[0]));
    let s1 = settle(st);
    assert(s1.buf == st.buf.dropped_top());
    assert(s1.y == h - 1);
    let placed = place_all(st, ts);
    assert(placed.buf == s1.buf.with_cell(b.x as int, b.y + h - 1, CellView { grapheme: g, style }));
    assert(placed.y == h - 1);
    assert(crate::buffer::index_at(b, b.x as int, b.y + h - 1) == (h - 1) * w);
    assert(st.buf.cells.len() == h * w) by (nonlinear_arith)
        requires
            st.buf.cells.len() == b.spec_area(),
            h == b.height,
            w == b.width,
    ;
}

} // verus!
