//! The input line: a one-row editor with a cursor and a history of lines.

use vstd::prelude::*;
use crate::bound::Bound;
use crate::buffer::{Buffer, BufferView, CellView};
use crate::escape::{goto, goto_text, string_of_chars};
use crate::text::grapheme_split;
use crate::widget::Widget;

verus! {

/// The editor's state: its buffer, the lines of its history (the last one is
/// the newest), the line being edited, and the cursor's offset in it.
pub struct InputView {
    pub buf: BufferView,
    pub lines: Seq<Seq<char>>,
    pub curr: int,
    pub cursor: int,
}

impl InputView {
    pub open spec fn latest(self) -> int {
        self.lines.len() - 1
    }

    pub open spec fn line(self) -> Seq<char> {
        self.lines[self.curr]
    }

    /// Editing a line of the history first copies it to the newest slot and
    /// moves there: the history itself is never edited.
    pub open spec fn forked(self) -> InputView {
        if self.curr < self.latest() {
            InputView {
                lines: self.lines.update(self.latest(), self.lines[self.curr]),
                curr: self.latest(),
                ..self
            }
        } else {
            self
        }
    }

    /// The buffer blanked, then `line` written from its left edge.
    pub open spec fn redrawn(self, line: Seq<char>) -> BufferView {
        self.buf.cleared().with_graphemes(
            self.buf.bound.x as int,
            self.buf.bound.y as int,
            grapheme_split(line),
            None,
        )
    }
}

/// The one-row input editor.
pub struct Input {
    buf: Buffer,
    string: Vec<Vec<char>>,
    curr: usize,
    cursor: u16,
}

impl Input {
    pub closed spec fn spec_view(&self) -> InputView {
        InputView {
            buf: self.buf@,
            lines: self.string@.map_values(|l: Vec<char>| l@),
            curr: self.curr as int,
            cursor: self.cursor as int,
        }
    }

    pub open spec fn wf(&self) -> bool {
        let v = self.spec_view();
        &&& v.buf.wf()
        &&& v.buf.bound.height == 1
        &&& v.lines.len() >= 1
        &&& 0 <= v.curr < v.lines.len()
        &&& 0 <= v.cursor <= v.line().len()
        &&& forall|i: int| 0 <= i < v.lines.len() ==> #[trigger] v.lines[i].len() <= u16::MAX
    }

    /// An empty editor on the row `y`, from column `x`, `width` cells wide.
    pub fn new(x: u16, y: u16, width: u16) -> (r: Input)
        requires
            (Bound { x, y, width, height: 1 }).fits(),
        ensures
            r.wf(),
            r.spec_view() == (InputView {
                buf: BufferView { bound: Bound { x, y, width, height: 1 }, cells: crate::buffer::blanks(width as nat) },
                lines: seq![seq![]],
                curr: 0,
                cursor: 0,
            }),
    {
        let buf = Buffer::empty(Bound::new(x, y, width, 1));
        let mut string: Vec<Vec<char>> = Vec::new();
        string.push(Vec::new());
        let r = Input { buf: buf, string: string, curr: 0, cursor: 0 };
        proof {
            assert(r.spec_view().lines =~= seq![seq![]]);
            assert(r.spec_view().buf.cells =~= crate::buffer::blanks(width as nat));
        }
        r
    }

    /// An empty editor on the second row below `buf`, as wide as it.
    pub fn from_buffer(buf: &Buffer) -> (r: Input)
        requires
            buf.wf(),
            buf@.bound.y + buf@.bound.height + 2 <= crate::bound::PLANE_MAX,
        ensures
            r.wf(),
            r.spec_view() == (InputView {
                buf: BufferView {
                    bound: Bound {
                        x: buf@.bound.x,
                        y: (buf@.bound.y + buf@.bound.height + 1) as u16,
                        width: buf@.bound.width,
                        height: 1,
                    },
                    cells: crate::buffer::blanks(buf@.bound.width as nat),
                },
                lines: seq![seq![]],
                curr: 0,
                cursor: 0,
            }),
    {
        let b = buf.bound();
        Input::new(b.x, b.y + b.height + 1, b.width)
    }

    /// The line being edited.
    pub fn get_content(&self) -> (r: String)
        requires
            self.wf(),
        ensures
            r@ == self.spec_view().line(),
    {
        string_of_chars(&self.string[self.curr])
    }

    /// The cursor's offset in the line.
    pub fn cursor(&self) -> (r: u16)
        ensures
            r == self.spec_view().cursor,
    {
        self.cursor
    }

    /// The buffer that shows the line.
    pub fn buffer(&self) -> (r: &Buffer)
        ensures
            r@ == self.spec_view().buf,
    {
        &self.buf
    }

    /// Commits the line: a new empty line is appended and becomes the one edited.
    pub fn reset(&mut self)
        requires
            old(self).wf(),
        ensures
            final(self).wf(),
            final(self).spec_view().buf.bound == old(self).spec_view().buf.bound,
            final(self).spec_view() == (InputView {
                buf: old(self).spec_view().buf.cleared(),
                lines: old(self).spec_view().lines.push(seq![]),
                curr: old(self).spec_view().lines.len() as int,
                cursor: 0,
            }),
    {
        let ghost lines0 = self.spec_view().lines;
        self.string.push(Vec::new());
        self.buf.reset();
        self.cursor = 0;
        self.curr = self.latest();
        proof {
            assert(self.spec_view().lines =~= lines0.push(seq![]));
        }
    }

    fn latest(&self) -> (r: usize)
        requires
            self.string@.len() >= 1,
        ensures
            r == self.string@.len() - 1,
    {
        self.string.len() - 1
    }

    fn copy_line(line: &Vec<char>) -> (r: Vec<char>)
        ensures
            r@ == line@,
    {
        let mut r: Vec<char> = Vec::new();
        let mut i: usize = 0;
        while i < line.len()
            invariant
                i <= line@.len(),
                r@ == line@.take(i as int),
            decreases line@.len() - i,
        {
            r.push(line[i]);
            i += 1;
            assert(r@ =~= line@.take(i as int));
        }
        assert(line@.take(i as int) =~= line@);
        r
    }

    /// Before an edit: a line of the history is copied to the newest slot,
    /// which becomes the one edited.
    fn before_edit(&mut self)
        requires
            old(self).wf(),
        ensures
            final(self).wf(),
            final(self).spec_view().buf.bound == old(self).spec_view().buf.bound,
            final(self).spec_view() == old(self).spec_view().forked(),
    {
        let latest = self.latest();
        if self.curr < latest {
            let ghost v0 = self.spec_view();
            let copy = Input::copy_line(&self.string[self.curr]);
            self.string.set(latest, copy);
            self.curr = latest;
            proof {
                assert(self.spec_view().lines =~= v0.lines.update(v0.latest(), v0.lines[v0.curr]));
            }
        }
    }

    fn bound_cursor(&mut self)
        requires
            old(self).spec_view().buf.wf(),
            old(self).spec_view().buf.bound.height == 1,
            old(self).spec_view().lines.len() >= 1,
            0 <= old(self).spec_view().curr < old(self).spec_view().lines.len(),
            forall|i: int| 0 <= i < old(self).spec_view().lines.len() ==> #[trigger] old(self).spec_view().lines[i].len() <= u16::MAX,
        ensures
            final(self).wf(),
            final(self).spec_view().buf.bound == old(self).spec_view().buf.bound,
            final(self).spec_view() == (InputView {
                cursor: if old(self).spec_view().cursor > old(self).spec_view().line().len() {
                    old(self).spec_view().line().len() as int
                } else {
                    old(self).spec_view().cursor
                },
                ..old(self).spec_view()
            }),
    {
        let len = self.string[self.curr].len();
        if (self.cursor as usize) > len {
            self.cursor = len as u16;
        }
    }

    fn suffix(line: &Vec<char>, from: usize) -> (r: Vec<char>)
        requires
            from <= line@.len(),
        ensures
            r@ == line@.skip(from as int),
    {
        let mut r: Vec<char> = Vec::new();
        let mut i: usize = from;
        while i < line.len()
            invariant
                from <= i <= line@.len(),
                r@ == line@.subrange(from as int, i as int),
            decreases line@.len() - i,
        {
            r.push(line[i]);
            i += 1;
            assert(r@ =~= line@.subrange(from as int, i as int));
        }
        assert(line@.subrange(from as int, i as int) =~= line@.skip(from as int));
        r
    }

    /// Blanks the buffer and writes the line being edited from its left edge.
    fn redraw(&mut self)
        requires
            old(self).wf(),
        ensures
            final(self).wf(),
            final(self).spec_view().buf.bound == old(self).spec_view().buf.bound,
            final(self).spec_view() == (InputView {
                buf: old(self).spec_view().redrawn(old(self).spec_view().line()),
                ..old(self).spec_view()
            }),
    {
        self.buf.reset();
        let x = self.buf.bound().x;
        let y = self.buf.bound().y;
        let s = string_of_chars(&self.string[self.curr]);
        self.buf.set_str(x, y, s.as_str());
    }

    /// Inserts `c` at the cursor and moves the cursor past it. At the end of
    /// the line only the new character's cell is written; inside it, the rest
    /// of the line is written again from the cursor.
    pub fn add_char(&mut self, c: char)
        requires
            old(self).wf(),
            old(self).spec_view().line().len() < u16::MAX,
        ensures
            final(self).wf(),
            final(self).spec_view().buf.bound == old(self).spec_view().buf.bound,
            final(self).spec_view() == after_add_char(old(self).spec_view(), c),
    {
        self.before_edit();
        let ghost f = self.spec_view();
        let cursor = self.cursor as usize;
        let x = self.buf.bound().x as usize + cursor;
        let y = self.buf.bound().y;
        let curr = self.curr;
        let right = self.buf.bound().right_border() as usize;
        if cursor == self.string[curr].len() {
            let mut line = Input::copy_line(&self.string[curr]);
            line.push(c);
            assert(line@ =~= f.line().insert(f.cursor, c));
            self.string.set(curr, line);
            if x < right {
                let mut one: Vec<char> = Vec::new();
                one.push(c);
                let s = string_of_chars(&one);
                self.buf.set(x as u16, y, s.as_str());
            }
        } else {
            let mut line = Input::copy_line(&self.string[curr]);
            line.insert(cursor, c);
            let rest = Input::suffix(&line, cursor);
            self.string.set(curr, line);
            let s = string_of_chars(&rest);
            if x < right {
                self.buf.set_str(x as u16, y, s.as_str());
            } else {
                proof {
                    crate::buffer::lemma_past_right(self.buf@, x as int, y as int, grapheme_split(s@), None);
                }
            }
        }
        self.cursor = self.cursor + 1;
        proof {
            assert(self.spec_view().lines =~= f.lines.update(f.curr, f.line().insert(f.cursor, c)));
        }
    }

    /// Removes the character before the cursor and moves the cursor back; at
    /// the start of the line nothing changes. At the end of the line only the
    /// freed cell is blanked; inside it, the whole line is written again.
    pub fn backspace(&mut self)
        requires
            old(self).wf(),
        ensures
            final(self).wf(),
            final(self).spec_view().buf.bound == old(self).spec_view().buf.bound,
            final(self).spec_view() == after_backspace(old(self).spec_view()),
    {
        if self.cursor == 0 {
            return;
        }
        self.before_edit();
        let ghost f = self.spec_view();
        self.cursor = self.cursor - 1;
        let cursor = self.cursor as usize;
        let curr = self.curr;
        let mut line = Input::copy_line(&self.string[curr]);
        line.remove(cursor);
        let len = line.len();
        self.string.set(curr, line);
        proof {
            assert(self.spec_view().lines =~= f.lines.update(f.curr, f.line().remove(f.cursor - 1)));
        }
        if cursor == len {
            let x = self.buf.bound().x as usize + cursor;
            let y = self.buf.bound().y;
            if x < self.buf.bound().right_border() as usize {
                proof {
                    reveal_strlit(" ");
                }
                assert(" "@ =~= seq![' ']);
                self.buf.set(x as u16, y, " ");
            }
        } else {
            self.redraw();
        }
    }

    /// Moves the cursor one character left, if it is not at the start.
    pub fn move_left(&mut self)
        requires
            old(self).wf(),
        ensures
            final(self).wf(),
            final(self).spec_view().buf.bound == old(self).spec_view().buf.bound,
            final(self).spec_view() == after_left(old(self).spec_view()),
    {
        if self.cursor > 0 {
            self.cursor = self.cursor - 1;
        }
    }

    /// Moves the cursor one character right, if it is not at the end.
    pub fn move_right(&mut self)
        requires
            old(self).wf(),
        ensures
            final(self).wf(),
            final(self).spec_view().buf.bound == old(self).spec_view().buf.bound,
            final(self).spec_view() == after_right(old(self).spec_view()),
    {
        if (self.cursor as usize) < self.string[self.curr].len() {
            self.cursor = self.cursor + 1;
        }
    }

    /// Shows the previous line of the history, if there is one; the cursor
    /// stays within the line.
    pub fn move_up(&mut self)
        requires
            old(self).wf(),
        ensures
            final(self).wf(),
            final(self).spec_view().buf.bound == old(self).spec_view().buf.bound,
            final(self).spec_view() == after_up(old(self).spec_view()),
    {
        if self.curr > 0 {
            self.curr = self.curr - 1;
            self.redraw_recalled();
        }
    }

    /// Shows the next line of the history, if there is one; the cursor stays
    /// within the line.
    pub fn move_down(&mut self)
        requires
            old(self).wf(),
        ensures
            final(self).wf(),
            final(self).spec_view().buf.bound == old(self).spec_view().buf.bound,
            final(self).spec_view() == after_down(old(self).spec_view()),
    {
        if self.curr < self.latest() {
            self.curr = self.curr + 1;
            self.redraw_recalled();
        }
    }

    fn redraw_recalled(&mut self)
        requires
            old(self).spec_view().buf.wf(),
            old(self).spec_view().buf.bound.height == 1,
            old(self).spec_view().lines.len() >= 1,
            0 <= old(self).spec_view().curr < old(self).spec_view().lines.len(),
            old(self).spec_view().cursor <= u16::MAX,
            forall|i: int| 0 <= i < old(self).spec_view().lines.len() ==> #[trigger] old(self).spec_view().lines[i].len() <= u16::MAX,
        ensures
            final(self).wf(),
            final(self).spec_view().buf.bound == old(self).spec_view().buf.bound,
            final(self).spec_view() == recalled(old(self).spec_view(), old(self).spec_view().curr),
    {
        self.buf.reset();
        let x = self.buf.bound().x;
        let y = self.buf.bound().y;
        let s = string_of_chars(&self.string[self.curr]);
        self.buf.set_str(x, y, s.as_str());
        self.bound_cursor();
    }

    /// The escape sequence that puts the terminal cursor at the editor's cursor.
    pub fn draw_cursor(&self) -> (r: String)
        requires
            self.wf(),
        ensures
            r@ == cursor_text(self.spec_view()),
    {
        let col = self.buf.bound().x as u32 + self.cursor as u32;
        let col = if col < 65535 { col } else { 65534 };
        goto((col + 1) as u16, self.buf.bound().y + 1)
    }
}

/// The escape sequence that moves the terminal cursor to the editor's cursor:
/// its column (kept inside the plane) on the editor's row, one-based as the
/// terminal counts.
pub open spec fn cursor_text(v: InputView) -> Seq<char> {
    let col = if v.buf.bound.x + v.cursor < crate::bound::PLANE_MAX {
        v.buf.bound.x + v.cursor
    } else {
        crate::bound::PLANE_MAX - 1
    };
    goto_text((col + 1) as nat, (v.buf.bound.y + 1) as nat)
}

/// The editor after `c` is typed at the cursor.
pub open spec fn after_add_char(v: InputView, c: char) -> InputView {
    let f = v.forked();
    let line = f.line().insert(f.cursor, c);
    let col = f.buf.bound.x + f.cursor;
    let row = f.buf.bound.y as int;
    InputView {
        buf: if f.cursor == f.line().len() {
            if f.buf.bound.covers(col, row) {
                f.buf.with_cell(col, row, CellView { grapheme: seq![c], style: f.buf.at(col, row).style })
            } else {
                f.buf
            }
        } else {
            f.buf.with_graphemes(col, row, grapheme_split(line.skip(f.cursor)), None)
        },
        lines: f.lines.update(f.curr, line),
        curr: f.curr,
        cursor: f.cursor + 1,
    }
}

/// The editor after backspace.
pub open spec fn after_backspace(v: InputView) -> InputView {
    if v.cursor == 0 {
        v
    } else {
        let f = v.forked();
        let cur = f.cursor - 1;
        let line = f.line().remove(cur);
        let col = f.buf.bound.x + cur;
        let row = f.buf.bound.y as int;
        let g = InputView { lines: f.lines.update(f.curr, line), cursor: cur, ..f };
        InputView {
            buf: if cur == line.len() {
                if f.buf.bound.covers(col, row) {
                    f.buf.with_cell(col, row, CellView { grapheme: seq![' '], style: f.buf.at(col, row).style })
                } else {
                    f.buf
                }
            } else {
                g.redrawn(line)
            },
            ..g
        }
    }
}

pub open spec fn after_left(v: InputView) -> InputView {
    InputView { cursor: if v.cursor > 0 { v.cursor - 1 } else { 0 }, ..v }
}

pub open spec fn after_right(v: InputView) -> InputView {
    InputView { cursor: if v.cursor < v.line().len() { v.cursor + 1 } else { v.cursor }, ..v }
}

pub open spec fn after_up(v: InputView) -> InputView {
    if v.curr > 0 { recalled(v, v.curr - 1) } else { v }
}

pub open spec fn after_down(v: InputView) -> InputView {
    if v.curr < v.latest() { recalled(v, v.curr + 1) } else { v }
}

/// Line `i` of the history shown in a blanked buffer, with the cursor kept
/// within it.
pub open spec fn recalled(v: InputView, i: int) -> InputView {
    let w = InputView { curr: i, ..v };
    InputView {
        buf: w.redrawn(w.lines[i]),
        cursor: if v.cursor > v.lines[i].len() { v.lines[i].len() as int } else { v.cursor },
        ..w
    }
}

impl Widget for Input {
    open spec fn canvas(&self) -> BufferView {
        self.spec_view().buf
    }

    open spec fn drawable(&self) -> bool {
        self.wf()
    }

    fn draw(&self, buffer: &mut Buffer) {
        buffer.merge(&self.buf);
    }
}

} // verus!
