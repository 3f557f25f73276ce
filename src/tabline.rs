//! The tab strip: one pill per buffer, the current one highlighted, and the
//! one before it drawn so that the two read as one continuous shape.

use vstd::prelude::*;
use crate::bound::Bound;
use crate::buffer::{Buffer, BufferView, CellView};
use crate::error::Error;
use crate::style::{Color, Modifier, Style};
use crate::text::{display_width, grapheme_split, str_width};
use crate::widget::Widget;

verus! {

/// Columns a tab takes besides its name: a space on each side and the separator.
pub const EXTRA_SIZE: usize = 3;

/// Tab offsets stop growing here: every column past it lies outside the plane.
pub const OFFSET_CAP: usize = 65535;

/// A tab: its name, whether it is the current one, whether it precedes the
/// current one, and its column.
pub struct TabView {
    pub content: Seq<char>,
    pub highlighted: bool,
    pub before_highlighted: bool,
    pub x: int,
}

pub open spec fn tab_style(t: TabView) -> Style {
    if t.highlighted {
        Style { fg: Color::Black, bg: Color::Magenta, modifier: Modifier::Reset }
    } else {
        Style { fg: Color::LightWhite, bg: Color::Black, modifier: Modifier::Reset }
    }
}

pub open spec fn sep_style(t: TabView) -> Style {
    if t.highlighted {
        Style { fg: Color::Magenta, bg: Color::Black, modifier: Modifier::Reset }
    } else if t.before_highlighted {
        Style { fg: Color::Black, bg: Color::Magenta, modifier: Modifier::Reset }
    } else {
        Style { fg: Color::LightWhite, bg: Color::Black, modifier: Modifier::Reset }
    }
}

/// The solid separator for the current tab and the one before it, the thin one elsewhere.
pub open spec fn sep_text(t: TabView) -> Seq<char> {
    if t.highlighted || t.before_highlighted { seq!['\u{e0b0}'] } else { seq!['\u{e0b1}'] }
}

/// The tab drawn on the first row of `b`: a space, its name and a space in
/// the tab's style, then the separator; cells outside `b` are left out.
pub open spec fn draw_tab(b: BufferView, t: TabView) -> BufferView {
    let y = b.bound.y as int;
    let dw = display_width(t.content) as int;
    let st = tab_style(t);
    b.put_clipped(t.x, y, CellView { grapheme: seq![' '], style: st })
        .with_graphemes(t.x + 1, y, grapheme_split(t.content), Some(st))
        .put_clipped(t.x + 1 + dw, y, CellView { grapheme: seq![' '], style: st })
        .put_clipped(t.x + 2 + dw, y, CellView { grapheme: sep_text(t), style: sep_style(t) })
}

/// The tabs at the listed indices drawn in order.
pub open spec fn draw_list(b: BufferView, tabs: Seq<TabView>, idx: Seq<int>) -> BufferView
    decreases idx.len(),
{
    if idx.len() == 0 {
        b
    } else {
        draw_tab(draw_list(b, tabs, idx.drop_last()), tabs[idx.last()])
    }
}

/// The column after a tab at column `x` with name `content`, capped.
pub open spec fn next_x(x: int, content: Seq<char>) -> int {
    if x + display_width(content) + 3 >= OFFSET_CAP { OFFSET_CAP as int } else { x + display_width(content) + 3 }
}

/// The column of the `k`-th of tabs named `names`: the widths of the tabs
/// before it, summed.
pub open spec fn offset(names: Seq<Seq<char>>, k: int) -> int
    decreases k,
{
    if k <= 0 { 0 } else { next_x(offset(names, k - 1), names[k - 1]) }
}

pub open spec fn names_of(tabs: Seq<TabView>) -> Seq<Seq<char>> {
    tabs.map_values(|t: TabView| t.content)
}

/// The indices `0 .. n`.
pub open spec fn upto(n: int) -> Seq<int> {
    Seq::new(n as nat, |k: int| k)
}

/// The tabs with flags recomputed from the current index and columns from
/// the widths of the tabs before each.
pub open spec fn relaid(tabs: Seq<TabView>, curr: int) -> Seq<TabView> {
    Seq::new(tabs.len(), |k: int| TabView {
        content: tabs[k].content,
        highlighted: k == curr,
        before_highlighted: k + 1 == curr,
        x: offset(names_of(tabs), k),
    })
}

/// A full redraw: the buffer blanked, then every tab drawn with recomputed
/// flags and columns.
pub open spec fn redrawn(v: TabLineView) -> TabLineView {
    let tabs = relaid(v.tabs, v.curr);
    TabLineView {
        buf: draw_list(v.buf.cleared(), tabs, upto(tabs.len() as int)),
        tabs,
        curr: v.curr,
        cursor: offset(names_of(v.tabs), v.tabs.len() as int),
    }
}

/// The tabs whose flags change when the current tab moves from `orig` to `i`.
pub open spec fn select_idx(orig: int, i: int) -> Seq<int> {
    let a: Seq<int> = if orig > 0 { seq![orig - 1] } else { seq![] };
    let b: Seq<int> = if i > 0 { seq![i - 1] } else { seq![] };
    a + seq![orig] + b + seq![i]
}

/// The flags after the current tab moves from `orig` to `i`.
pub open spec fn select_tabs(tabs: Seq<TabView>, orig: int, i: int) -> Seq<TabView> {
    let t1 = tabs.update(orig, TabView { highlighted: false, before_highlighted: false, ..tabs[orig] });
    let t2 = if orig > 0 {
        t1.update(orig - 1, TabView { highlighted: false, before_highlighted: false, ..t1[orig - 1] })
    } else {
        t1
    };
    let t3 = t2.update(i, TabView { highlighted: true, before_highlighted: false, ..t2[i] });
    if i > 0 {
        t3.update(i - 1, TabView { highlighted: false, before_highlighted: true, ..t3[i - 1] })
    } else {
        t3
    }
}

/// Making tab `i` current: the flags of the old current tab, of the new one
/// and of the tabs before each change, and only those tabs are drawn again.
pub open spec fn selected(v: TabLineView, i: int) -> TabLineView {
    let tabs = select_tabs(v.tabs, v.curr, i);
    TabLineView { buf: draw_list(v.buf, tabs, select_idx(v.curr, i)), tabs, curr: i, cursor: v.cursor }
}

/// Only the tab at `curr` and the one before it may carry a flag.
pub open spec fn plain_elsewhere(tabs: Seq<TabView>, curr: int) -> bool {
    forall|k: int| 0 <= k < tabs.len() && k != curr && k + 1 != curr
        ==> !(#[trigger] tabs[k]).highlighted && !tabs[k].before_highlighted
}

/// Exactly the current tab is highlighted, and exactly the one before it is
/// marked as preceding it.
pub open spec fn flags_ok(tabs: Seq<TabView>, curr: int) -> bool {
    tabs.len() > 0 ==> {
        &&& 0 <= curr < tabs.len()
        &&& forall|k: int| 0 <= k < tabs.len() ==> (#[trigger] tabs[k]).highlighted == (k == curr)
            && tabs[k].before_highlighted == (k + 1 == curr)
    }
}

/// The first of `names` equal to `name`, at index `k` or later.
pub open spec fn find_from(names: Seq<Seq<char>>, name: Seq<char>, k: int) -> Option<int>
    decreases names.len() - k,
{
    if k < 0 || k >= names.len() {
        None
    } else if names[k] == name {
        Some(k)
    } else {
        find_from(names, name, k + 1)
    }
}

/// The first tab named `name`.
pub open spec fn find_tab(tabs: Seq<TabView>, name: Seq<char>) -> Option<int> {
    find_from(names_of(tabs), name, 0)
}

/// The found index holds the name, and no earlier one does; none is found
/// exactly when no later name is equal.
pub proof fn lemma_find_from(names: Seq<Seq<char>>, name: Seq<char>, k: int)
    requires
        0 <= k,
    ensures
        find_from(names, name, k) matches Some(i) ==> k <= i < names.len() && names[i] == name
            && forall|j: int| k <= j < i ==> names[j] != name,
        find_from(names, name, k) is None ==> forall|j: int| k <= j < names.len() ==> names[j] != name,
    decreases names.len() - k,
{
    if k < names.len() && names[k] != name {
        lemma_find_from(names, name, k + 1);
    }
}

pub proof fn lemma_draw_list_push(b: BufferView, tabs: Seq<TabView>, idx: Seq<int>, k: int)
    ensures
        draw_list(b, tabs, idx.push(k)) == draw_tab(draw_list(b, tabs, idx), tabs[k]),
{
    assert(idx.push(k).drop_last() =~= idx);
}

/// Moving the current tab leaves every tab's name and column and yields
/// correct flags, where only the old current tab and its predecessor had any.
pub proof fn lemma_select_flags(tabs: Seq<TabView>, orig: int, i: int)
    requires
        0 <= orig < tabs.len(),
        0 <= i < tabs.len(),
        plain_elsewhere(tabs, orig),
    ensures
        select_tabs(tabs, orig, i).len() == tabs.len(),
        flags_ok(select_tabs(tabs, orig, i), i),
        forall|k: int| 0 <= k < tabs.len() ==> (#[trigger] select_tabs(tabs, orig, i)[k]).x == tabs[k].x
            && select_tabs(tabs, orig, i)[k].content == tabs[k].content,
{
    let t = select_tabs(tabs, orig, i);
    assert forall|k: int| 0 <= k < t.len() implies (#[trigger] t[k]).highlighted == (k == i)
        && t[k].before_highlighted == (k + 1 == i) by {
        if k != orig && k + 1 != orig {
            assert(!tabs[k].highlighted && !tabs[k].before_highlighted);
        }
    }
}

/// One tab of the strip.
pub struct Tab {
    content: String,
    highlighted: bool,
    before_highlighted: bool,
    x: usize,
}

impl Tab {
    pub closed spec fn spec_view(&self) -> TabView {
        TabView {
            content: self.content@,
            highlighted: self.highlighted,
            before_highlighted: self.before_highlighted,
            x: self.x as int,
        }
    }

    /// A plain tab named `content` at column `x`.
    pub fn new(x: usize, content: &str) -> (r: Tab)
        ensures
            r.spec_view() == (TabView { content: content@, highlighted: false, before_highlighted: false, x: x as int }),
    {
        Tab { content: content.to_owned(), highlighted: false, before_highlighted: false, x: x }
    }

    fn with_flags(&self, highlighted: bool, before_highlighted: bool) -> (r: Tab)
        ensures
            r.spec_view() == (TabView { highlighted, before_highlighted, ..self.spec_view() }),
    {
        Tab { content: self.content.clone(), highlighted: highlighted, before_highlighted: before_highlighted, x: self.x }
    }

    pub fn style(&self) -> (r: Style)
        ensures
            r == tab_style(self.spec_view()),
    {
        if self.highlighted {
            Style { fg: Color::Black, bg: Color::Magenta, modifier: Modifier::Reset }
        } else {
            Style { fg: Color::LightWhite, bg: Color::Black, modifier: Modifier::Reset }
        }
    }

    pub fn sep_style(&self) -> (r: Style)
        ensures
            r == sep_style(self.spec_view()),
    {
        if self.highlighted {
            Style { fg: Color::Magenta, bg: Color::Black, modifier: Modifier::Reset }
        } else if self.before_highlighted {
            Style { fg: Color::Black, bg: Color::Magenta, modifier: Modifier::Reset }
        } else {
            Style { fg: Color::LightWhite, bg: Color::Black, modifier: Modifier::Reset }
        }
    }

    pub fn sep(&self) -> (r: &'static str)
        ensures
            r@ == sep_text(self.spec_view()),
    {
        if self.highlighted || self.before_highlighted {
            proof {
                reveal_strlit("\u{e0b0}");
            }
            assert("\u{e0b0}"@ =~= seq!['\u{e0b0}']);
            "\u{e0b0}"
        } else {
            proof {
                reveal_strlit("\u{e0b1}");
            }
            assert("\u{e0b1}"@ =~= seq!['\u{e0b1}']);
            "\u{e0b1}"
        }
    }

    /// The column after this tab.
    fn next_x(&self) -> (r: usize)
        requires
            self.x <= OFFSET_CAP,
        ensures
            r == next_x(self.x as int, self.content@),
            r <= OFFSET_CAP,
    {
        let w = str_width(self.content.as_str());
        if w >= OFFSET_CAP - self.x {
            OFFSET_CAP
        } else if self.x + w + 3 >= OFFSET_CAP {
            OFFSET_CAP
        } else {
            self.x + w + 3
        }
    }

    /// Draws the tab on the first row of `buf`.
    pub fn redraw(&self, buf: &mut Buffer)
        requires
            old(buf).wf(),
            self.spec_view().x <= OFFSET_CAP,
        ensures
            final(buf).wf(),
            final(buf)@.bound == old(buf)@.bound,
            final(buf)@ == draw_tab(old(buf)@, self.spec_view()),
    {
        let ghost t = self.spec_view();
        let style = self.style();
        let y = buf.bound().y;
        proof {
            reveal_strlit(" ");
        }
        assert(" "@ =~= seq![' ']);
        buf.put_clipped(self.x, y, " ", style);
        buf.put_str_clipped(self.x + 1, y, self.content.as_str(), style);
        let w = str_width(self.content.as_str());
        if w <= OFFSET_CAP {
            buf.put_clipped(self.x + 1 + w, y, " ", style);
            buf.put_clipped(self.x + 2 + w, y, self.sep(), self.sep_style());
        } else {
            assert(!buf@.bound.covers(t.x + 1 + w, y as int));
            assert(!buf@.bound.covers(t.x + 2 + w, y as int));
        }
    }
}

/// The strip's state: its buffer, its tabs in order, the current index, and
/// the column where the next tab goes.
pub struct TabLineView {
    pub buf: BufferView,
    pub tabs: Seq<TabView>,
    pub curr: int,
    pub cursor: int,
}

impl TabLineView {
    /// One row in the plane; exactly the current tab highlighted and only the
    /// one before it marked; columns within the plane.
    pub open spec fn wf(self) -> bool {
        &&& self.buf.wf()
        &&& self.buf.bound.height == 1
        &&& flags_ok(self.tabs, self.curr)
        &&& self.tabs.len() == 0 ==> self.curr == 0
        &&& 0 <= self.cursor <= OFFSET_CAP
        &&& forall|k: int| 0 <= k < self.tabs.len() ==> 0 <= (#[trigger] self.tabs[k]).x <= OFFSET_CAP
    }
}

/// Removing tab `idx`: a tab before the current one moves the current index
/// back by one; when the last tab was current, the new last one is. The strip
/// is then drawn again in full.
pub open spec fn removed(v: TabLineView, idx: int) -> TabLineView {
    let tabs = v.tabs.remove(idx);
    let c1 = if idx < v.curr { v.curr - 1 } else { v.curr };
    let c2 = if c1 >= tabs.len() && tabs.len() > 0 { tabs.len() - 1 } else { c1 };
    redrawn(TabLineView { tabs, curr: c2, ..v })
}

/// A tab named `name` appended at the strip's cursor, not current; where it
/// is the only tab, it becomes current.
pub open spec fn appended(v: TabLineView, name: Seq<char>, current: bool) -> TabLineView {
    let t = TabView { content: name, highlighted: false, before_highlighted: false, x: v.cursor };
    let pushed = TabLineView {
        buf: draw_tab(v.buf, t),
        tabs: v.tabs.push(t),
        curr: v.curr,
        cursor: next_x(v.cursor, name),
    };
    if current || v.tabs.len() == 0 { selected(pushed, v.tabs.len() as int) } else { pushed }
}

/// The tab strip widget.
pub struct TabLine {
    buf: Buffer,
    tabs: Vec<Tab>,
    curr: usize,
    cursor: usize,
}

impl TabLine {
    pub closed spec fn spec_view(&self) -> TabLineView {
        TabLineView {
            buf: self.buf@,
            tabs: self.tabs@.map_values(|t: Tab| t.spec_view()),
            curr: self.curr as int,
            cursor: self.cursor as int,
        }
    }

    pub open spec fn wf(&self) -> bool {
        self.spec_view().wf()
    }

    /// The names of the tabs, in order.
    pub open spec fn names(&self) -> Seq<Seq<char>> {
        self.spec_view().tabs.map_values(|t: TabView| t.content)
    }

    /// An empty strip on row `y`, from column `x`, `width` cells wide.
    pub fn new(x: u16, y: u16, width: u16) -> (r: TabLine)
        requires
            (Bound { x, y, width, height: 1 }).fits(),
        ensures
            r.wf(),
            r.spec_view() == (TabLineView {
                buf: BufferView { bound: Bound { x, y, width, height: 1 }, cells: crate::buffer::blanks(width as nat) },
                tabs: seq![],
                curr: 0,
                cursor: 0,
            }),
    {
        let r = TabLine { buf: Buffer::empty(Bound::new(x, y, width, 1)), tabs: Vec::new(), curr: 0, cursor: 0 };
        proof {
            assert(r.spec_view().tabs =~= Seq::<TabView>::empty());
        }
        r
    }

    /// An empty strip on the row just below `buf`, as wide as it.
    pub fn from_buffer(buf: &Buffer) -> (r: TabLine)
        requires
            buf.wf(),
            buf@.bound.y + buf@.bound.height + 1 <= crate::bound::PLANE_MAX,
        ensures
            r.wf(),
            r.spec_view() == (TabLineView {
                buf: BufferView {
                    bound: Bound {
                        x: buf@.bound.x,
                        y: (buf@.bound.y + buf@.bound.height) as u16,
                        width: buf@.bound.width,
                        height: 1,
                    },
                    cells: crate::buffer::blanks(buf@.bound.width as nat),
                },
                tabs: seq![],
                curr: 0,
                cursor: 0,
            }),
    {
        let b = buf.bound();
        TabLine::new(b.x, b.y + b.height, b.width)
    }

    /// The strip's buffer.
    pub fn buffer(&self) -> (r: &Buffer)
        ensures
            r@ == self.spec_view().buf,
    {
        &self.buf
    }

    /// The index of the current tab.
    pub fn current(&self) -> (r: usize)
        ensures
            r == self.spec_view().curr,
    {
        self.curr
    }

    /// The number of tabs.
    pub fn len(&self) -> (r: usize)
        ensures
            r == self.spec_view().tabs.len(),
    {
        self.tabs.len()
    }

    /// Whether tab `k` is highlighted and whether it precedes the highlighted one.
    pub fn flags(&self, k: usize) -> (r: (bool, bool))
        requires
            k < self.spec_view().tabs.len(),
        ensures
            r == (self.spec_view().tabs[k as int].highlighted, self.spec_view().tabs[k as int].before_highlighted),
    {
        (self.tabs[k].highlighted, self.tabs[k].before_highlighted)
    }

    fn set_flags(&mut self, k: usize, highlighted: bool, before_highlighted: bool)
        requires
            k < old(self).spec_view().tabs.len(),
        ensures
            final(self).spec_view() == (TabLineView {
                tabs: old(self).spec_view().tabs.update(
                    k as int,
                    TabView { highlighted, before_highlighted, ..old(self).spec_view().tabs[k as int] },
                ),
                ..old(self).spec_view()
            }),
    {
        let t = self.tabs[k].with_flags(highlighted, before_highlighted);
        let ghost v0 = self.spec_view();
        self.tabs.set(k, t);
        proof {
            assert(self.spec_view().tabs =~= v0.tabs.update(
                k as int,
                TabView { highlighted, before_highlighted, ..v0.tabs[k as int] },
            ));
        }
    }

    /// Makes tab `i` current, drawing again only the tabs whose flags change.
    fn select(&mut self, i: usize)
        requires
            old(self).wf() || (old(self).spec_view().tabs.len() == 1 && old(self).spec_view().curr == 0
                && old(self).spec_view().buf.wf() && old(self).spec_view().buf.bound.height == 1
                && 0 <= old(self).spec_view().cursor <= OFFSET_CAP
                && 0 <= old(self).spec_view().tabs[0].x <= OFFSET_CAP),
            plain_elsewhere(old(self).spec_view().tabs, old(self).spec_view().curr),
            old(self).spec_view().curr < old(self).spec_view().tabs.len(),
            i < old(self).spec_view().tabs.len(),
        ensures
            final(self).wf(),
            final(self).spec_view().buf.bound == old(self).spec_view().buf.bound,
            final(self).spec_view() == selected(old(self).spec_view(), i as int),
    {
        let ghost v0 = self.spec_view();
        let orig = self.curr;
        self.set_select_flags(orig, i);
        let ghost tabs = select_tabs(v0.tabs, orig as int, i as int);
        proof {
            lemma_select_flags(v0.tabs, orig as int, i as int);
        }
        let ghost mut idx: Seq<int> = seq![];
        assert(draw_list(v0.buf, tabs, idx) == v0.buf);
        if orig > 0 {
            proof {
                lemma_draw_list_push(v0.buf, tabs, idx, orig - 1);
            }
            self.draw_at(orig - 1);
            proof {
                idx = idx.push(orig - 1);
            }
        }
        proof {
            lemma_draw_list_push(v0.buf, tabs, idx, orig as int);
        }
        self.draw_at(orig);
        proof {
            idx = idx.push(orig as int);
        }
        if i > 0 {
            proof {
                lemma_draw_list_push(v0.buf, tabs, idx, i - 1);
            }
            self.draw_at(i - 1);
            proof {
                idx = idx.push(i - 1);
            }
        }
        proof {
            lemma_draw_list_push(v0.buf, tabs, idx, i as int);
        }
        self.draw_at(i);
        proof {
            idx = idx.push(i as int);
            assert(idx =~= select_idx(orig as int, i as int));
        }
    }

    fn set_select_flags(&mut self, orig: usize, i: usize)
        requires
            orig < old(self).spec_view().tabs.len(),
            i < old(self).spec_view().tabs.len(),
        ensures
            final(self).spec_view() == (TabLineView {
                tabs: select_tabs(old(self).spec_view().tabs, orig as int, i as int),
                curr: i as int,
                ..old(self).spec_view()
            }),
    {
        self.set_flags(orig, false, false);
        if orig > 0 {
            self.set_flags(orig - 1, false, false);
        }
        self.set_flags(i, true, false);
        if i > 0 {
            self.set_flags(i - 1, false, true);
        }
        self.curr = i;
    }

    /// Appends a tab named `content` after the last one. It becomes the
    /// current tab where `current` is set, and where it is the only tab.
    pub fn add_tab(&mut self, content: &str, current: bool)
        requires
            old(self).wf(),
        ensures
            final(self).wf(),
            final(self).spec_view().buf.bound == old(self).spec_view().buf.bound,
            final(self).spec_view() == appended(old(self).spec_view(), content@, current),
    {
        let ghost v0 = self.spec_view();
        let tab = Tab::new(self.cursor, content);
        let nx = tab.next_x();
        self.tabs.push(tab);
        let n = self.tabs.len();
        self.draw_at(n - 1);
        self.cursor = nx;
        proof {
            let t = TabView { content: content@, highlighted: false, before_highlighted: false, x: v0.cursor };
            assert(self.spec_view().tabs =~= v0.tabs.push(t));
        }
        if current || n == 1 {
            self.select(n - 1);
        }
    }

    /// Finds the first tab named `name`.
    fn find(&self, name: &str) -> (r: Option<usize>)
        ensures
            r matches Some(i) ==> find_tab(self.spec_view().tabs, name@) == Some(i as int),
            r is None ==> find_tab(self.spec_view().tabs, name@) is None,
    {
        let ghost tabs = self.spec_view().tabs;
        let target = name.to_owned();
        let mut k: usize = 0;
        while k < self.tabs.len()
            invariant
                k <= tabs.len(),
                tabs == self.spec_view().tabs,
                target@ == name@,
                find_tab(tabs, name@) == find_from(names_of(tabs), name@, k as int),
            decreases tabs.len() - k,
        {
            assert(tabs[k as int].content == self.tabs@[k as int].content@);
            if self.tabs[k].content == target {
                return Some(k);
            }
            k += 1;
        }
        None
    }

    /// Makes the first tab named `content` the current one; fails when no tab
    /// has that name, and then nothing changes.
    pub fn switch_to(&mut self, content: &str) -> (r: Result<(), Error>)
        requires
            old(self).wf(),
        ensures
            final(self).wf(),
            final(self).spec_view().buf.bound == old(self).spec_view().buf.bound,
            r is Err <==> find_tab(old(self).spec_view().tabs, content@) is None,
            r matches Err(e) ==> e matches Error::TabNotFound { tab } && tab@ == content@,
            r is Err ==> final(self).spec_view() == old(self).spec_view(),
            r is Ok ==> final(self).spec_view() == selected(old(self).spec_view(), find_tab(old(self).spec_view().tabs, content@)->0),
    {
        match self.find(content) {
            Some(i) => {
                proof {
                    lemma_find_from(names_of(self.spec_view().tabs), content@, 0);
                }
                self.select(i);
                Ok(())
            },
            None => Err(Error::TabNotFound { tab: content.to_owned() }),
        }
    }

    /// Removes the first tab named `content`; fails when no tab has that
    /// name, and then nothing changes. A tab before the current one moves the
    /// current index back by one; when the last tab was current, the new last
    /// one is. The strip is then drawn again in full.
    pub fn remove_tab(&mut self, content: &str) -> (r: Result<(), Error>)
        requires
            old(self).wf(),
        ensures
            final(self).wf(),
            final(self).spec_view().buf.bound == old(self).spec_view().buf.bound,
            r is Err <==> find_tab(old(self).spec_view().tabs, content@) is None,
            r matches Err(e) ==> e matches Error::TabNotFound { tab } && tab@ == content@,
            r is Err ==> final(self).spec_view() == old(self).spec_view(),
            r is Ok ==> final(self).spec_view() == removed(
                old(self).spec_view(),
                find_tab(old(self).spec_view().tabs, content@)->0,
            ),
    {
        match self.find(content) {
            Some(idx) => {
                proof {
                    lemma_find_from(names_of(self.spec_view().tabs), content@, 0);
                }
                let ghost v0 = self.spec_view();
                if idx < self.curr {
                    self.curr = self.curr - 1;
                }
                self.tabs.remove(idx);
                let n = self.tabs.len();
                if self.curr >= n && n > 0 {
                    self.curr = n - 1;
                }
                proof {
                    assert(self.spec_view().tabs =~= v0.tabs.remove(idx as int));
                }
                self.redraw();
                Ok(())
            },
            None => Err(Error::TabNotFound { tab: content.to_owned() }),
        }
    }

    /// Blanks the strip and draws every tab again, with flags recomputed from
    /// the current index and columns from the widths of the tabs before it.
    pub fn redraw(&mut self)
        requires
            old(self).spec_view().buf.wf(),
            old(self).spec_view().buf.bound.height == 1,
            old(self).spec_view().tabs.len() > 0 ==> old(self).spec_view().curr < old(self).spec_view().tabs.len(),
            old(self).spec_view().tabs.len() == 0 ==> old(self).spec_view().curr == 0,
        ensures
            final(self).wf(),
            final(self).spec_view().buf.bound == old(self).spec_view().buf.bound,
            final(self).spec_view() == redrawn(old(self).spec_view()),
    {
        let ghost v0 = self.spec_view();
        let ghost names = names_of(v0.tabs);
        let ghost target = relaid(v0.tabs, v0.curr);
        self.buf.reset();
        self.cursor = 0;
        let n = self.tabs.len();
        let curr = self.curr;
        let mut k: usize = 0;
        while k < n
            invariant
                k <= n,
                n == v0.tabs.len(),
                curr == v0.curr,
                self.curr == v0.curr,
                self.spec_view().tabs.len() == n,
                self.spec_view().buf.wf(),
                self.spec_view().buf.bound == v0.buf.bound,
                self.cursor as int == offset(names, k as int),
                self.cursor <= OFFSET_CAP,
                names == names_of(v0.tabs),
                target == relaid(v0.tabs, v0.curr),
                forall|j: int| 0 <= j < k ==> #[trigger] self.spec_view().tabs[j] == target[j],
                forall|j: int| k <= j < n ==> #[trigger] self.spec_view().tabs[j] == v0.tabs[j],
                self.spec_view().buf == draw_list(v0.buf.cleared(), target, upto(k as int)),
            decreases n - k,
        {
            let ghost before = self.spec_view();
            let t = Tab {
                content: self.tabs[k].content.clone(),
                highlighted: k == curr,
                before_highlighted: k + 1 == curr,
                x: self.cursor,
            };
            assert(before.tabs[k as int] == v0.tabs[k as int]);
            assert(t.spec_view() == target[k as int]);
            let nx = t.next_x();
            self.tabs.set(k, t);
            proof {
                assert(self.spec_view().tabs =~= before.tabs.update(k as int, target[k as int]));
            }
            self.draw_at(k);
            self.cursor = nx;
            proof {
                assert(upto(k as int + 1).drop_last() =~= upto(k as int));
                assert(upto(k as int + 1).last() == k);
            }
            k += 1;
        }
        proof {
            assert(self.spec_view().tabs =~= target);
        }
    }

    fn draw_at(&mut self, k: usize)
        requires
            old(self).spec_view().buf.wf(),
            k < old(self).spec_view().tabs.len(),
            old(self).spec_view().tabs[k as int].x <= OFFSET_CAP,
        ensures
            final(self).spec_view() == (TabLineView {
                buf: draw_tab(old(self).spec_view().buf, old(self).spec_view().tabs[k as int]),
                ..old(self).spec_view()
            }),
            final(self).spec_view().buf.wf(),
            final(self).spec_view().buf.bound == old(self).spec_view().buf.bound,
    {
        self.tabs[k].redraw(&mut self.buf);
    }
}

impl Widget for TabLine {
    open spec fn canvas(&self) -> BufferView {
        self.spec_view().buf
    }

    open spec fn drawable(&self) -> bool {
        self.wf()
    }

    fn draw(&self, buffer: &mut Buffer) {
        buffer.merge(&self.buf);
    }
}

/// After any sequence of operations, exactly one tab is highlighted if there
/// are tabs, and only the tab right before it is marked as preceding it.
pub proof fn lemma_one_highlighted(t: &TabLine)
    requires
        t.wf(),
    ensures
        ({
            let tabs = t.spec_view().tabs;
            let c = t.spec_view().curr;
            &&& tabs.len() > 0 ==> 0 <= c < tabs.len() && tabs[c].highlighted
            &&& forall|k: int| 0 <= k < tabs.len() && k != c ==> !(#[trigger] tabs[k]).highlighted
            &&& forall|k: int| 0 <= k < tabs.len() ==> ((#[trigger] tabs[k]).before_highlighted <==> k + 1 == c)
        }),
{
}

} // verus!
