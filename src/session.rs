//! The session state: the terminal, the chat buffers by name, the current
//! selection, the input line and the tab strip, kept consistent together.

use vstd::prelude::*;
use crate::bound::Bound;
use crate::buffer::{Buffer, BufferView};
use crate::chatbuf::{push_line_spec, ChatBuf, ChatView};
use crate::error::Error;
use crate::event::Event;
use crate::input::{Input, InputView};
use crate::style::Style;
use crate::tabline::{
    appended, find_from, lemma_find_from, names_of, removed, selected, TabLine, TabLineView,
};
use crate::terminal::{diff_ops, frame_text, Terminal};
use vstd::string::StringExecFns;

verus! {

/// The name of the buffer that always exists and takes what has nowhere else to go.
pub open spec fn default_name() -> Seq<char> {
    seq!['*', 'd', 'e', 'f', 'a', 'u', 'l', 't', '*']
}

/// A channel name starts with one of the sigils `#`, `&`, `+` or `!`.
pub open spec fn is_channel(name: Seq<char>) -> bool {
    name.len() > 0 && (name[0] == '#' || name[0] == '&' || name[0] == '+' || name[0] == '!')
}

/// No name occurs twice.
pub open spec fn unique(names: Seq<Seq<char>>) -> bool {
    forall|i: int, j: int| 0 <= i < j < names.len() ==> names[i] != names[j]
}

/// The index of the buffer named `name`.
pub open spec fn index_of(names: Seq<Seq<char>>, name: Seq<char>) -> Option<int> {
    find_from(names, name, 0)
}

/// The buffer that an event for `name` goes to: the one of that name where it
/// is a channel name and such a buffer exists, else the default buffer.
pub open spec fn route(names: Seq<Seq<char>>, name: Seq<char>) -> Seq<char> {
    if is_channel(name) && index_of(names, name) is Some { name } else { default_name() }
}

/// The rendering of `event` laid out at the end of a scrollback.
pub open spec fn with_event(c: ChatView, event: Event) -> ChatView {
    push_line_spec(
        c,
        event.text(),
        match event.spec_style() { Some(s) => s, None => Style::spec_default() },
    )
}

/// A blank scrollback over `b` with its cursor at the top left corner.
pub open spec fn blank_chat(b: Bound) -> ChatView {
    ChatView { buf: BufferView { bound: b, cells: crate::buffer::blanks(b.spec_area()) }, x: 0, y: 0 }
}

/// A blank row of `width` cells at column 0 of row `y`.
pub open spec fn blank_row(y: int, width: u16) -> BufferView {
    BufferView {
        bound: Bound { x: 0, y: y as u16, width, height: 1 },
        cells: crate::buffer::blanks(width as nat),
    }
}

/// A fresh session on a `width` by `height` terminal: the chat area over all
/// rows but the last two, the tab strip on the row below it with the default
/// tab alone and current, the empty input line on the last row, both frames
/// blank.
pub open spec fn initial_view(width: u16, height: u16) -> UIView {
    let chat = Bound { x: 0, y: 0, width, height: (height - 2) as u16 };
    let frame = BufferView {
        bound: Bound { x: 0, y: 0, width, height },
        cells: crate::buffer::blanks((width * height) as nat),
    };
    let strip = TabLineView { buf: blank_row(height - 2, width), tabs: seq![], curr: 0, cursor: 0 };
    UIView {
        names: seq![default_name()],
        bufs: seq![blank_chat(chat)],
        current: default_name(),
        input: InputView { buf: blank_row(height - 1, width), lines: seq![seq![]], curr: 0, cursor: 0 },
        tabs: appended(strip, default_name(), true),
        active: frame,
        flushed: frame,
        chat_bound: chat,
    }
}

/// A new blank buffer named `name` with a tab after the others, not
/// current; where the name is taken, that buffer is blanked and keeps its tab.
pub open spec fn after_new_chat_buf(v: UIView, name: Seq<char>) -> UIView {
    match index_of(v.names, name) {
        Some(i) => UIView { bufs: v.bufs.update(i, ChatView { buf: v.bufs[i].buf.cleared(), x: 0, y: 0 }), ..v },
        None => UIView {
            names: v.names.push(name),
            bufs: v.bufs.push(blank_chat(v.chat_bound)),
            tabs: appended(v.tabs, name, false),
            ..v
        },
    }
}

/// `name` current, in the selection and in the tab strip together.
pub open spec fn after_switch(v: UIView, name: Seq<char>) -> UIView {
    UIView { current: name, tabs: selected(v.tabs, index_of(v.names, name)->0), ..v }
}

/// The buffer `name` and its tab removed, the default buffer made current
/// first where `name` was current. The default buffer is never removed.
pub open spec fn after_remove(v: UIView, name: Seq<char>) -> UIView {
    if name == default_name() {
        v
    } else {
        let was_current = v.current == name;
        let strip = if was_current { selected(v.tabs, index_of(v.names, default_name())->0) } else { v.tabs };
        let i = index_of(v.names, name)->0;
        UIView {
            names: v.names.remove(i),
            bufs: v.bufs.remove(i),
            current: if was_current { default_name() } else { v.current },
            tabs: removed(strip, i),
            ..v
        }
    }
}

/// The session as a whole.
pub struct UIView {
    pub names: Seq<Seq<char>>,
    pub bufs: Seq<ChatView>,
    pub current: Seq<char>,
    pub input: InputView,
    pub tabs: TabLineView,
    pub active: BufferView,
    pub flushed: BufferView,
    pub chat_bound: Bound,
}

/// The session state.
pub struct UI {
    term: Terminal,
    current_buf: String,
    names: Vec<String>,
    chat_bufs: Vec<ChatBuf>,
    input: Input,
    tabline: TabLine,
    chat_bound: Bound,
}

pub proof fn lemma_index_of(names: Seq<Seq<char>>, name: Seq<char>)
    ensures
        index_of(names, name) matches Some(i) ==> 0 <= i < names.len() && names[i] == name,
        index_of(names, name) is None ==> forall|j: int| 0 <= j < names.len() ==> names[j] != name,
{
    lemma_find_from(names, name, 0);
}

/// In a list without repeats, the index of a name is where it stands.
pub proof fn lemma_index_unique(names: Seq<Seq<char>>, i: int)
    requires
        unique(names),
        0 <= i < names.len(),
    ensures
        index_of(names, names[i]) == Some(i),
{
    lemma_find_from(names, names[i], 0);
    if let Some(j) = index_of(names, names[i]) {
        if j < i {
            assert(names[j] != names[i]);
        }
        if j > i {
            assert(names[j] == names[i]);
        }
    }
}

/// Removing a name keeps the others free of repeats.
pub proof fn lemma_unique_remove(names: Seq<Seq<char>>, i: int)
    requires
        unique(names),
        0 <= i < names.len(),
    ensures
        unique(names.remove(i)),
{
    let r = names.remove(i);
    assert forall|a: int, b: int| 0 <= a < b < r.len() implies r[a] != r[b] by {
        let a0 = if a < i { a } else { a + 1 };
        let b0 = if b < i { b } else { b + 1 };
        assert(r[a] == names[a0]);
        assert(r[b] == names[b0]);
    }
}

impl UI {
    pub closed spec fn spec_view(&self) -> UIView {
        UIView {
            names: self.names@.map_values(|s: String| s@),
            bufs: self.chat_bufs@.map_values(|b: ChatBuf| b.spec_view()),
            current: self.current_buf@,
            input: self.input.spec_view(),
            tabs: self.tabline.spec_view(),
            active: self.term.active(),
            flushed: self.term.flushed(),
            chat_bound: self.chat_bound,
        }
    }

    /// Each part is well formed.
    pub closed spec fn parts_wf(&self) -> bool {
        &&& self.term.wf()
        &&& self.input.wf()
        &&& self.tabline.wf()
        &&& forall|k: int| 0 <= k < self.chat_bufs@.len() ==> (#[trigger] self.chat_bufs@[k]).wf()
    }

    /// Buffers and tabs carry the same names in the same order, without
    /// repeats; the default buffer exists; the current name is a buffer's and
    /// is the current tab's.
    pub open spec fn wf(&self) -> bool {
        let v = self.spec_view();
        &&& self.parts_wf()
        &&& v.names.len() == v.bufs.len()
        &&& unique(v.names)
        &&& index_of(v.names, default_name()) is Some
        &&& index_of(v.names, v.current) is Some
        &&& v.tabs.wf()
        &&& v.tabs.buf.bound == (Bound {
            x: v.chat_bound.x,
            y: (v.chat_bound.y + v.chat_bound.height) as u16,
            width: v.chat_bound.width,
            height: 1,
        })
        &&& v.input.buf.bound == (Bound {
            x: v.chat_bound.x,
            y: (v.chat_bound.y + v.chat_bound.height + 1) as u16,
            width: v.chat_bound.width,
            height: 1,
        })
        &&& names_of(v.tabs.tabs) == v.names
        &&& v.tabs.tabs[v.tabs.curr].content == v.current
        &&& v.chat_bound.fits()
        &&& v.chat_bound.y + v.chat_bound.height + 2 <= crate::bound::PLANE_MAX
    }

    proof fn lemma_parts(&self)
        requires
            self.wf(),
        ensures
            self.term.wf(),
            self.input.wf(),
            self.tabline.wf(),
            forall|k: int| 0 <= k < self.chat_bufs@.len() ==> (#[trigger] self.chat_bufs@[k]).wf(),
            self.spec_view().tabs.tabs.len() == self.spec_view().names.len(),
            self.spec_view().tabs.tabs.len() > 0,
    {
        lemma_index_of(self.spec_view().names, default_name());
    }

    /// A session for a terminal of `width` by `height` cells: the chat area
    /// takes all but the last two rows, the tab strip the row below it, and
    /// the input line the last row. The default buffer exists, has a tab,
    /// and is current.
    pub fn new(width: u16, height: u16) -> (r: UI)
        requires
            height >= 2,
        ensures
            r.wf(),
            r.spec_view() == initial_view(width, height),
    {
        let term = Terminal::new(width, height);
        let chat_bound = Bound::new(0, 0, width, height - 2);
        let buffer = Buffer::empty(chat_bound);
        let input = Input::from_buffer(&buffer);
        let mut tabline = TabLine::from_buffer(&buffer);
        let default = default_string();
        tabline.add_tab(default.as_str(), true);
        proof {
            let t = crate::tabline::TabView { content: default@, highlighted: false, before_highlighted: false, x: 0 };
            crate::tabline::lemma_select_flags(seq![t], 0, 0);
            assert(names_of(tabline.spec_view().tabs) =~= seq![default_name()]);
        }
        let chat = ChatBuf::from_buffer(buffer);
        let mut names: Vec<String> = Vec::new();
        names.push(default.clone());
        let mut chat_bufs: Vec<ChatBuf> = Vec::new();
        chat_bufs.push(chat);
        let r = UI {
            term: term,
            current_buf: default,
            names: names,
            chat_bufs: chat_bufs,
            input: input,
            tabline: tabline,
            chat_bound: chat_bound,
        };
        proof {
            assert(r.spec_view().names =~= seq![default_name()]);
            assert(r.spec_view().bufs =~= seq![ChatView {
                buf: BufferView { bound: chat_bound, cells: crate::buffer::blanks(chat_bound.spec_area()) },
                x: 0,
                y: 0,
            }]);
            lemma_index_unique(r.spec_view().names, 0);
        }
        r
    }

    /// The terminal.
    pub fn terminal(&self) -> (r: &Terminal)
        ensures
            r.active() == self.spec_view().active,
            r.flushed() == self.spec_view().flushed,
    {
        &self.term
    }

    /// The name of the current buffer.
    pub fn current_buf(&self) -> (r: &String)
        ensures
            r@ == self.spec_view().current,
    {
        &self.current_buf
    }

    /// The input line.
    pub fn input(&self) -> (r: &Input)
        ensures
            r.spec_view() == self.spec_view().input,
            self.wf() ==> r.wf(),
    {
        proof {
            if self.wf() {
                self.lemma_parts();
            }
        }
        &self.input
    }

    /// The tab strip.
    pub fn tabline(&self) -> (r: &TabLine)
        ensures
            r.spec_view() == self.spec_view().tabs,
            self.wf() ==> r.wf(),
    {
        &self.tabline
    }

    /// The buffer named `name`, if there is one.
    pub fn chat_buf(&self, name: &str) -> (r: Option<&ChatBuf>)
        requires
            self.wf(),
        ensures
            r is Some <==> index_of(self.spec_view().names, name@) is Some,
            r matches Some(b) ==> b.spec_view() == self.spec_view().bufs[index_of(self.spec_view().names, name@)->0],
    {
        match self.find_buf(name) {
            Some(i) => Some(&self.chat_bufs[i]),
            None => None,
        }
    }

    fn find_buf(&self, name: &str) -> (r: Option<usize>)
        requires
            self.names@.len() == self.chat_bufs@.len(),
        ensures
            r matches Some(i) ==> index_of(self.spec_view().names, name@) == Some(i as int) && i < self.chat_bufs@.len(),
            r is None ==> index_of(self.spec_view().names, name@) is None,
    {
        let ghost names = self.spec_view().names;
        let target = name.to_owned();
        let mut k: usize = 0;
        while k < self.names.len()
            invariant
                k <= names.len(),
                names == self.spec_view().names,
                self.names@.len() == self.chat_bufs@.len(),
                target@ == name@,
                index_of(names, name@) == find_from(names, name@, k as int),
            decreases names.len() - k,
        {
            assert(names[k as int] == self.names@[k as int]@);
            if self.names[k] == target {
                return Some(k);
            }
            k += 1;
        }
        None
    }

    /// Whether a buffer named `buf_name` exists.
    pub fn has_chat_buf(&self, buf_name: &str) -> (r: Result<bool, Error>)
        requires
            self.wf(),
        ensures
            r == Ok::<bool, Error>(index_of(self.spec_view().names, buf_name@) is Some),
    {
        Ok(self.find_buf(buf_name).is_some())
    }
}

impl UI {
    fn update_buf(&mut self, i: usize, event: &Event)
        requires
            old(self).wf(),
            i < old(self).spec_view().bufs.len(),
        ensures
            final(self).wf(),
            final(self).spec_view() == (UIView {
                bufs: old(self).spec_view().bufs.update(i as int, with_event(old(self).spec_view().bufs[i as int], *event)),
                ..old(self).spec_view()
            }),
    {
        proof {
            self.lemma_parts();
        }
        let ghost v0 = self.spec_view();
        let ghost bs0 = self.chat_bufs@;
        let mut b = self.chat_bufs.remove(i);
        b.push_event(event);
        self.chat_bufs.insert(i, b);
        proof {
            assert(self.chat_bufs@ =~= bs0.update(i as int, b));
            assert(self.spec_view().bufs =~= v0.bufs.update(i as int, with_event(v0.bufs[i as int], *event)));
            assert forall|k: int| 0 <= k < self.chat_bufs@.len() implies (#[trigger] self.chat_bufs@[k]).wf() by {
                if k != i {
                    assert(self.chat_bufs@[k] == bs0[k]);
                }
            }
        }
    }

    /// Lays out `event` in the buffer it is routed to: the buffer named
    /// `buf_name` where that is a channel name with a buffer, else the
    /// default buffer. No other buffer changes.
    pub fn add_event_to_chat_buf(&mut self, buf_name: &str, event: Event) -> (r: Result<(), Error>)
        requires
            old(self).wf(),
        ensures
            final(self).wf(),
            r is Ok,
            ({
                let v = old(self).spec_view();
                let t = index_of(v.names, route(v.names, buf_name@))->0;
                final(self).spec_view() == (UIView { bufs: v.bufs.update(t, with_event(v.bufs[t], event)), ..v })
            }),
    {
        proof {
            lemma_index_of(self.spec_view().names, buf_name@);
            lemma_index_of(self.spec_view().names, default_name());
        }
        let found = if is_channel_name(buf_name) { self.find_buf(buf_name) } else { None };
        let target = match found {
            Some(i) => i,
            None => {
                let d = default_string();
                match self.find_buf(d.as_str()) {
                    Some(i) => i,
                    None => {
                        return Err(Error::ChannelNotFound { chan: d });
                    },
                }
            },
        };
        self.update_buf(target, &event);
        Ok(())
    }

    /// Lays out `event` in the buffer that the current name routes to.
    pub fn add_event_to_current_chat_buf(&mut self, event: Event) -> (r: Result<(), Error>)
        requires
            old(self).wf(),
        ensures
            final(self).wf(),
            r is Ok,
            ({
                let v = old(self).spec_view();
                let t = index_of(v.names, route(v.names, v.current))->0;
                final(self).spec_view() == (UIView { bufs: v.bufs.update(t, with_event(v.bufs[t], event)), ..v })
            }),
    {
        let current = self.current_buf.clone();
        self.add_event_to_chat_buf(current.as_str(), event)
    }

    /// Makes `buf_name` the current buffer and its tab the current tab;
    /// fails when there is no such buffer, and then nothing changes.
    pub fn switch_to(&mut self, buf_name: &str) -> (r: Result<(), Error>)
        requires
            old(self).wf(),
        ensures
            final(self).wf(),
            r is Err <==> index_of(old(self).spec_view().names, buf_name@) is None,
            r matches Err(e) ==> e matches Error::TabNotFound { tab } && tab@ == buf_name@,
            r is Err ==> final(self).spec_view() == old(self).spec_view(),
            r is Ok ==> final(self).spec_view() == after_switch(old(self).spec_view(), buf_name@),
    {
        proof {
            self.lemma_parts();
            lemma_index_of(self.spec_view().names, buf_name@);
        }
        let ghost v0 = self.spec_view();
        match self.tabline.switch_to(buf_name) {
            Ok(()) => {
                self.current_buf = buf_name.to_owned();
                proof {
                    let i = index_of(v0.names, buf_name@)->0;
                    crate::tabline::lemma_select_flags(v0.tabs.tabs, v0.tabs.curr, i);
                    assert(names_of(self.spec_view().tabs.tabs) =~= v0.names);
                    lemma_index_unique(v0.names, i);
                }
                Ok(())
            },
            Err(e) => Err(e),
        }
    }

    /// Adds a blank buffer named `buf_name` with a tab after the others, not
    /// current. Where the name is taken, that buffer is blanked instead and
    /// keeps its tab.
    pub fn new_chat_buf(&mut self, buf_name: &str) -> (r: Result<(), Error>)
        requires
            old(self).wf(),
        ensures
            final(self).wf(),
            r is Ok,
            final(self).spec_view() == after_new_chat_buf(old(self).spec_view(), buf_name@),
    {
        proof {
            self.lemma_parts();
            lemma_index_of(self.spec_view().names, buf_name@);
        }
        let ghost v0 = self.spec_view();
        let ghost bs0 = self.chat_bufs@;
        match self.find_buf(buf_name) {
            Some(i) => {
                let mut b = self.chat_bufs.remove(i);
                b.reset();
                self.chat_bufs.insert(i, b);
                proof {
                    assert(self.chat_bufs@ =~= bs0.update(i as int, b));
                    assert(self.spec_view().bufs =~= v0.bufs.update(
                        i as int,
                        ChatView { buf: v0.bufs[i as int].buf.cleared(), x: 0, y: 0 },
                    ));
                    assert forall|k: int| 0 <= k < self.chat_bufs@.len() implies (#[trigger] self.chat_bufs@[k]).wf() by {
                        if k != i {
                            assert(self.chat_bufs@[k] == bs0[k]);
                        }
                    }
                }
            },
            None => {
                let ghost tv0 = self.tabline.spec_view();
                let b = ChatBuf::from_buffer(Buffer::empty(self.chat_bound));
                self.chat_bufs.push(b);
                self.names.push(buf_name.to_owned());
                self.tabline.add_tab(buf_name, false);
                proof {
                    let names = self.spec_view().names;
                    assert(names =~= v0.names.push(buf_name@));
                    assert(self.spec_view().bufs =~= v0.bufs.push(ChatView {
                        buf: BufferView { bound: v0.chat_bound, cells: crate::buffer::blanks(v0.chat_bound.spec_area()) },
                        x: 0,
                        y: 0,
                    }));
                    assert(names_of(self.spec_view().tabs.tabs) =~= names);
                    assert forall|a: int, b: int| 0 <= a < b < names.len() implies names[a] != names[b] by {
                        if b == names.len() - 1 {
                            assert(v0.names[a] != buf_name@);
                        }
                    }
                    assert forall|k: int| 0 <= k < self.chat_bufs@.len() implies (#[trigger] self.chat_bufs@[k]).wf() by {
                        if k < bs0.len() {
                            assert(self.chat_bufs@[k] == bs0[k]);
                        }
                    }
                    lemma_index_of(v0.names, default_name());
                    lemma_index_of(v0.names, v0.current);
                    lemma_index_unique(names, index_of(v0.names, default_name())->0);
                    lemma_index_unique(names, index_of(v0.names, v0.current)->0);
                }
            },
        }
        Ok(())
    }
}

impl UI {
    /// Removes the buffer named `buf_name` and its tab; where it is current,
    /// the default buffer becomes current first. The default buffer is never
    /// removed: for its name nothing changes. Fails when there is no such
    /// buffer, and then nothing changes.
    pub fn remove_chat_buf(&mut self, buf_name: &str) -> (r: Result<(), Error>)
        requires
            old(self).wf(),
        ensures
            final(self).wf(),
            r is Err <==> index_of(old(self).spec_view().names, buf_name@) is None,
            r matches Err(e) ==> e matches Error::TabNotFound { tab } && tab@ == buf_name@,
            r is Err ==> final(self).spec_view() == old(self).spec_view(),
            r is Ok ==> final(self).spec_view() == after_remove(old(self).spec_view(), buf_name@),
    {
        proof {
            self.lemma_parts();
            lemma_index_of(self.spec_view().names, buf_name@);
            lemma_index_of(self.spec_view().names, default_name());
            lemma_index_of(self.spec_view().names, self.spec_view().current);
        }
        let ghost v0 = self.spec_view();
        let d = default_string();
        let i = match self.find_buf(buf_name) {
            Some(i) => i,
            None => {
                return Err(Error::TabNotFound { tab: buf_name.to_owned() });
            },
        };
        if d == buf_name.to_owned() {
            return Ok(());
        }
        if self.current_buf == buf_name.to_owned() {
            self.fall_back();
        }
        proof {
            lemma_index_unique(v0.names, i as int);
            lemma_index_of(v0.names, self.spec_view().current);
        }
        self.remove_at(i, buf_name)
    }

    /// Makes the default buffer current.
    fn fall_back(&mut self)
        requires
            old(self).wf(),
        ensures
            final(self).wf(),
            final(self).spec_view() == (UIView {
                current: default_name(),
                tabs: selected(old(self).spec_view().tabs, index_of(old(self).spec_view().names, default_name())->0),
                ..old(self).spec_view()
            }),
    {
        proof {
            self.lemma_parts();
            lemma_index_of(self.spec_view().names, default_name());
        }
        let ghost v0 = self.spec_view();
        let d = default_string();
        let _ = self.tabline.switch_to(d.as_str());
        proof {
            let di = index_of(v0.names, default_name())->0;
            crate::tabline::lemma_select_flags(v0.tabs.tabs, v0.tabs.curr, di);
            assert(names_of(self.tabline.spec_view().tabs) =~= v0.names);
            lemma_index_unique(v0.names, di);
        }
        self.current_buf = d;
    }

    /// Removes buffer `i`, which is neither the current nor the default one, and its tab.
    #[verifier::rlimit(40)]
    fn remove_at(&mut self, i: usize, buf_name: &str) -> (r: Result<(), Error>)
        requires
            old(self).wf(),
            i < old(self).spec_view().names.len(),
            old(self).spec_view().names[i as int] == buf_name@,
            buf_name@ != old(self).spec_view().current,
            buf_name@ != default_name(),
        ensures
            final(self).wf(),
            r is Ok,
            final(self).spec_view() == (UIView {
                names: old(self).spec_view().names.remove(i as int),
                bufs: old(self).spec_view().bufs.remove(i as int),
                tabs: removed(old(self).spec_view().tabs, i as int),
                ..old(self).spec_view()
            }),
    {
        proof {
            self.lemma_parts();
            lemma_index_unique(self.spec_view().names, i as int);
            lemma_index_of(self.spec_view().names, self.spec_view().current);
            lemma_index_of(self.spec_view().names, default_name());
        }
        let ghost v1 = self.spec_view();
        let ghost bs1 = self.chat_bufs@;
        self.chat_bufs.remove(i);
        self.names.remove(i);
        let res = self.tabline.remove_tab(buf_name);
        proof {
            let names = self.spec_view().names;
            assert(names =~= v1.names.remove(i as int));
            assert(self.spec_view().bufs =~= v1.bufs.remove(i as int));
            let t1 = v1.tabs.tabs;
            let c = v1.tabs.curr;
            let removed = t1.remove(i as int);
            assert(names_of(removed) =~= names);
            assert(names_of(self.spec_view().tabs.tabs) =~= names);
            let c1 = if (i as int) < c { c - 1 } else { c };
            assert(removed[c1] == t1[c]);
            lemma_unique_remove(v1.names, i as int);
            assert forall|k: int| 0 <= k < self.chat_bufs@.len() implies (#[trigger] self.chat_bufs@[k]).wf() by {
                let k0 = if k < i { k } else { k + 1 };
                assert(self.chat_bufs@[k] == bs1[k0]);
            }
            lemma_index_unique(names, c1);
            let dk = index_of(v1.names, default_name())->0;
            let dk1 = if dk < i { dk } else { dk - 1 };
            assert(names[dk1] == default_name());
            lemma_index_unique(names, dk1);
        }
        match res {
            Ok(()) => Ok(()),
            Err(e) => Err(e),
        }
    }

    /// Draws the current buffer, then the tab strip, then the input line
    /// into the terminal's active frame (later ones win where they overlap),
    /// flushes it, and places the terminal cursor at the input cursor. The
    /// result is the text to write to the terminal.
    pub fn draw_all(&mut self) -> (r: Result<String, Error>)
        requires
            old(self).wf(),
        ensures
            final(self).wf(),
            ({
                let v = old(self).spec_view();
                let frame = v.active.merged(v.bufs[index_of(v.names, v.current)->0].buf).merged(v.tabs.buf).merged(
                    v.input.buf,
                );
                &&& r matches Ok(s) && s@ == frame_text(diff_ops(frame, v.flushed))
                    + crate::input::cursor_text(v.input)
                &&& final(self).spec_view() == (UIView { active: v.flushed.cleared(), flushed: frame, ..v })
            }),
    {
        proof {
            self.lemma_parts();
            lemma_index_of(self.spec_view().names, self.spec_view().current);
        }
        let i = match self.find_buf(self.current_buf.as_str()) {
            Some(i) => i,
            None => {
                return Err(Error::ChannelNotFound { chan: self.current_buf.clone() });
            },
        };
        self.term.render(&self.chat_bufs[i]);
        self.term.render(&self.tabline);
        self.term.render(&self.input);
        let mut out = self.term.draw();
        let cursor = self.input.draw_cursor();
        out.append(cursor.as_str());
        Ok(out)
    }
}

impl UI {
    /// The input line, for editing; the session stays well formed as long as
    /// the input line does.
    pub fn input_mut(&mut self) -> (r: &mut Input)
        ensures
            r.spec_view() == old(self).spec_view().input,
            old(self).wf() ==> r.wf(),
            final(self).spec_view() == (UIView { input: final(r).spec_view(), ..old(self).spec_view() }),
            old(self).wf() && final(r).wf() && final(r).spec_view().buf.bound == r.spec_view().buf.bound
                ==> final(self).wf(),
    {
        &mut self.input
    }
}

/// The default buffer's name.
pub fn default_string() -> (r: String)
    ensures
        r@ == default_name(),
{
    proof {
        reveal_strlit("*default*");
    }
    let r = "*default*".to_owned();
    assert(r@ =~= default_name());
    r
}

/// Whether `name` is a channel name.
pub fn is_channel_name(name: &str) -> (r: bool)
    ensures
        r == is_channel(name@),
{
    if name.unicode_len() == 0 {
        return false;
    }
    let c = name.get_char(0);
    c == '#' || c == '&' || c == '+' || c == '!'
}

} // verus!
