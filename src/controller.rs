//! The decisions behind the chat and keyboard event sources: which buffer a
//! chat message goes to, and what a key press does to the session.

use vstd::prelude::*;
use vstd::utf8::encode_utf8;
use crate::chatbuf::push_line_spec;
use crate::error::Error;
use crate::escape::{push_str, string_of_chars};
use crate::event::{colored_name, name_color_code, Event};
use crate::input::{after_add_char, after_backspace, after_down, after_left, after_right, after_up, InputView};
use crate::session::{
    after_new_chat_buf, after_remove, after_switch, index_of, is_channel, is_channel_name, route, with_event, UIView,
    UI,
};
use crate::style::Style;

verus! {

/// A chat message as the protocol layer hands it over.
pub enum Message {
    PrivMsg { source: Option<String>, target: String, text: String },
    Notice { source: Option<String>, target: String, text: String },
    Join { source: Option<String>, chan: String },
    Part { source: Option<String>, chan: String },
    /// The list of names in a channel, each without its access-level prefix.
    Names { chan: String, nicks: Vec<String> },
    Other,
}

/// The session after `e` is delivered for `name`: only for a name that is no
/// channel, or a channel with a buffer; then into the buffer it routes to.
pub open spec fn deliver(v: UIView, name: Seq<char>, e: Event) -> UIView {
    if !is_channel(name) || index_of(v.names, name) is Some {
        let t = index_of(v.names, route(v.names, name))->0;
        UIView { bufs: v.bufs.update(t, with_event(v.bufs[t], e)), ..v }
    } else {
        v
    }
}

/// Every non-empty nick delivered in order as having joined `chan`.
pub open spec fn deliver_names(v: UIView, chan: String, nicks: Seq<String>) -> UIView
    decreases nicks.len(),
{
    if nicks.len() == 0 {
        v
    } else {
        let w = deliver_names(v, chan, nicks.drop_last());
        let n = nicks.last();
        if n@.len() == 0 {
            w
        } else {
            deliver(w, chan@, Event::JoinPart(Some(n), chan, true))
        }
    }
}

/// The session after a chat message arrives.
pub open spec fn handle_message_spec(v: UIView, m: Message) -> UIView {
    match m {
        Message::PrivMsg { source, target, text } => deliver(v, target@, Event::PrivMessage(source, target, text)),
        Message::Notice { source, target, text } => deliver(v, target@, Event::Notice(source, target, text)),
        Message::Join { source, chan } => deliver(v, chan@, Event::JoinPart(source, chan, true)),
        Message::Part { source, chan } => deliver(v, chan@, Event::JoinPart(source, chan, false)),
        Message::Names { chan, nicks } => deliver_names(v, chan, nicks@),
        Message::Other => v,
    }
}

fn deliver_event(ui: &mut UI, name: &str, e: Event) -> (r: Result<(), Error>)
    requires
        old(ui).wf(),
    ensures
        final(ui).wf(),
        r is Ok,
        final(ui).spec_view() == deliver(old(ui).spec_view(), name@, e),
{
    let known = ui.has_chat_buf(name);
    let has = match known {
        Ok(b) => b,
        Err(e) => {
            return Err(e);
        },
    };
    if !is_channel_name(name) || has {
        ui.add_event_to_chat_buf(name, e)
    } else {
        Ok(())
    }
}

/// Delivers a chat message to the buffer it belongs to: a message for a
/// channel without a buffer is dropped; one for another name goes to the
/// default buffer.
pub fn handle_message(ui: &mut UI, message: Message) -> (r: Result<(), Error>)
    requires
        old(ui).wf(),
    ensures
        final(ui).wf(),
        r is Ok,
        final(ui).spec_view() == handle_message_spec(old(ui).spec_view(), message),
{
    match message {
        Message::PrivMsg { source, target, text } => {
            let t = target.clone();
            deliver_event(ui, t.as_str(), Event::PrivMessage(source, target, text))
        },
        Message::Notice { source, target, text } => {
            let t = target.clone();
            deliver_event(ui, t.as_str(), Event::Notice(source, target, text))
        },
        Message::Join { source, chan } => {
            let c = chan.clone();
            deliver_event(ui, c.as_str(), Event::JoinPart(source, chan, true))
        },
        Message::Part { source, chan } => {
            let c = chan.clone();
            deliver_event(ui, c.as_str(), Event::JoinPart(source, chan, false))
        },
        Message::Names { chan, nicks } => {
            let ghost v0 = ui.spec_view();
            let mut k: usize = 0;
            while k < nicks.len()
                invariant
                    k <= nicks@.len(),
                    ui.wf(),
                    ui.spec_view() == deliver_names(v0, chan, nicks@.take(k as int)),
                decreases nicks@.len() - k,
            {
                assert(nicks@.take(k as int + 1).drop_last() =~= nicks@.take(k as int));
                let n = nicks[k].clone();
                if n.as_str().unicode_len() > 0 {
                    let _ = deliver_event(ui, chan.as_str(), Event::JoinPart(Some(n), chan.clone(), true));
                }
                k += 1;
            }
            assert(nicks@.take(k as int) =~= nicks@);
            Ok(())
        },
        Message::Other => Ok(()),
    }
}

/// A key press.
pub enum Key {
    Char(char),
    Ctrl(char),
    Backspace,
    Left,
    Right,
    Up,
    Down,
    Other,
}

/// What the chat connection has to do after a key press.
pub enum Action {
    Nothing,
    Quit,
    Join(String),
    Part(String),
    /// Send `text` to `target`.
    Send { target: String, text: String },
}

/// An entered line: a command (a line that starts with `/`), or text to send.
pub enum Command {
    Switch(String),
    Join(String),
    Part(String),
    Quit,
    /// An unknown command, or one that lacks its argument.
    Ignored,
    Say,
}

/// The end of the word that starts at `i`: the next space, or the end.
pub open spec fn word_end(s: Seq<char>, i: int) -> int
    decreases s.len() - i,
{
    if i < 0 || i >= s.len() {
        s.len() as int
    } else if s[i] == ' ' {
        i
    } else {
        word_end(s, i + 1)
    }
}

/// The second space-separated word, if the line has a space.
pub open spec fn argument(s: Seq<char>) -> Option<Seq<char>> {
    let e = word_end(s, 0);
    if e < s.len() { Some(s.subrange(e + 1, word_end(s, e + 1))) } else { None }
}

pub enum CommandView {
    Switch(Seq<char>),
    Join(Seq<char>),
    Part(Seq<char>),
    Quit,
    Ignored,
    Say,
}

/// What an entered line asks for. The first word, without its `/`, names the
/// command; `switch`, `join` and `part` take the second word as argument.
pub open spec fn command_spec(s: Seq<char>) -> CommandView {
    if s.len() == 0 || s[0] != '/' {
        CommandView::Say
    } else {
        let word = s.subrange(1, word_end(s, 0));
        if word == seq!['q', 'u', 'i', 't'] {
            CommandView::Quit
        } else {
            match argument(s) {
                Some(a) => if word == seq!['s', 'w', 'i', 't', 'c', 'h'] {
                    CommandView::Switch(a)
                } else if word == seq!['j', 'o', 'i', 'n'] {
                    CommandView::Join(a)
                } else if word == seq!['p', 'a', 'r', 't'] {
                    CommandView::Part(a)
                } else {
                    CommandView::Ignored
                },
                None => CommandView::Ignored,
            }
        }
    }
}

impl Command {
    pub open spec fn view(&self) -> CommandView {
        match self {
            Command::Switch(a) => CommandView::Switch(a@),
            Command::Join(a) => CommandView::Join(a@),
            Command::Part(a) => CommandView::Part(a@),
            Command::Quit => CommandView::Quit,
            Command::Ignored => CommandView::Ignored,
            Command::Say => CommandView::Say,
        }
    }
}

fn find_word_end(cs: &Vec<char>, i: usize) -> (r: usize)
    requires
        i <= cs@.len(),
    ensures
        r == word_end(cs@, i as int),
        i <= r <= cs@.len(),
{
    let mut j = i;
    while j < cs.len() && cs[j] != ' '
        invariant
            i <= j <= cs@.len(),
            word_end(cs@, i as int) == word_end(cs@, j as int),
        decreases cs@.len() - j,
    {
        j += 1;
    }
    j
}

fn word_is(cs: &Vec<char>, from: usize, to: usize, word: &str) -> (r: bool)
    requires
        from <= to <= cs@.len(),
    ensures
        r == (cs@.subrange(from as int, to as int) == word@),
{
    let n = word.unicode_len();
    if to - from != n {
        return false;
    }
    let mut k: usize = 0;
    while k < n
        invariant
            k <= n,
            n == word@.len(),
            to - from == n,
            from <= to <= cs@.len(),
            forall|j: int| 0 <= j < k ==> cs@[from + j] == word@[j],
        decreases n - k,
    {
        if cs[from + k] != word.get_char(k) {
            assert(cs@.subrange(from as int, to as int)[k as int] != word@[k as int]);
            return false;
        }
        k += 1;
    }
    assert(cs@.subrange(from as int, to as int) =~= word@);
    true
}

fn sub_string(cs: &Vec<char>, from: usize, to: usize) -> (r: String)
    requires
        from <= to <= cs@.len(),
    ensures
        r@ == cs@.subrange(from as int, to as int),
{
    let mut v: Vec<char> = Vec::new();
    let mut k: usize = from;
    while k < to
        invariant
            from <= k <= to,
            to <= cs@.len(),
            v@ == cs@.subrange(from as int, k as int),
        decreases to - k,
    {
        v.push(cs[k]);
        k += 1;
        assert(v@ =~= cs@.subrange(from as int, k as int));
    }
    string_of_chars(&v)
}

/// What an entered line asks for.
pub fn parse_command(line: &str) -> (r: Command)
    ensures
        r.view() == command_spec(line@),
{
    let mut cs: Vec<char> = Vec::new();
    push_str(&mut cs, line);
    assert(cs@ =~= line@);
    if cs.len() == 0 || cs[0] != '/' {
        return Command::Say;
    }
    let e = find_word_end(&cs, 1);
    assert(word_end(cs@, 0) == word_end(cs@, 1));
    proof {
        reveal_strlit("quit");
        reveal_strlit("switch");
        reveal_strlit("join");
        reveal_strlit("part");
    }
    assert("quit"@ =~= seq!['q', 'u', 'i', 't']);
    assert("switch"@ =~= seq!['s', 'w', 'i', 't', 'c', 'h']);
    assert("join"@ =~= seq!['j', 'o', 'i', 'n']);
    assert("part"@ =~= seq!['p', 'a', 'r', 't']);
    if word_is(&cs, 1, e, "quit") {
        return Command::Quit;
    }
    if e >= cs.len() {
        return Command::Ignored;
    }
    let e2 = find_word_end(&cs, e + 1);
    let arg = sub_string(&cs, e + 1, e2);
    if word_is(&cs, 1, e, "switch") {
        Command::Switch(arg)
    } else if word_is(&cs, 1, e, "join") {
        Command::Join(arg)
    } else if word_is(&cs, 1, e, "part") {
        Command::Part(arg)
    } else {
        Command::Ignored
    }
}

/// The input line after its line is committed.
pub open spec fn input_reset(v: InputView) -> InputView {
    InputView { buf: v.buf.cleared(), lines: v.lines.push(seq![]), curr: v.lines.len() as int, cursor: 0 }
}

fn commit_input(ui: &mut UI)
    requires
        old(ui).wf(),
    ensures
        final(ui).wf(),
        final(ui).spec_view() == (UIView { input: input_reset(old(ui).spec_view().input), ..old(ui).spec_view() }),
{
    let input = ui.input_mut();
    input.reset();
}

/// The line shown for what the user says: their name in its colour, then the text.
pub open spec fn say_text(nick: Seq<char>, line: Seq<char>) -> Seq<char> {
    seq!['<'] + colored_name(nick, name_color_code(encode_utf8(nick))) + seq!['>', ' '] + line
}

/// What enter does, from session `v` to session `f` with result `r`.
pub open spec fn enter_post(v: UIView, f: UIView, r: Result<Action, Error>, nick: Seq<char>) -> bool {
    let line = v.input.line();
    match command_spec(line) {
        CommandView::Quit => r matches Ok(Action::Quit) && f == v,
        CommandView::Ignored => r matches Ok(Action::Nothing) && f == (UIView { input: input_reset(v.input), ..v }),
        CommandView::Say => {
            let t = index_of(v.names, route(v.names, v.current))->0;
            &&& r matches Ok(Action::Send { target, text }) && target@ == v.current && text@ == line
            &&& f == (UIView {
                input: input_reset(v.input),
                bufs: v.bufs.update(t, push_line_spec(v.bufs[t], say_text(nick, line), Style::spec_default())),
                ..v
            })
        },
        CommandView::Switch(a) => (r is Err <==> index_of(v.names, a) is None)
            && (r is Err ==> f == v)
            && (r is Ok ==> (r matches Ok(Action::Nothing)
                && f == (UIView { input: input_reset(v.input), ..after_switch(v, a) }))),
        CommandView::Join(a) => r matches Ok(Action::Join(n)) && n@ == a
            && f == (UIView { input: input_reset(v.input), ..after_switch(after_new_chat_buf(v, a), a) }),
        CommandView::Part(a) => (r is Err <==> index_of(v.names, a) is None)
            && (r is Err ==> f == v)
            && (r is Ok ==> (r matches Ok(Action::Part(n)) && n@ == a
                && f == (UIView { input: input_reset(v.input), ..after_remove(v, a) }))),
    }
}

/// Enter: the line is a command or text to send. A command runs on the
/// session; text is shown in the current buffer as the user's message and
/// handed on for sending. The line is then committed, except after `/quit`
/// or a failed command.
fn enter(ui: &mut UI, nick: &str) -> (r: Result<Action, Error>)
    requires
        old(ui).wf(),
    ensures
        final(ui).wf(),
        enter_post(old(ui).spec_view(), final(ui).spec_view(), r, nick@),
{
    let content = ui.input().get_content();
    let action = match parse_command(content.as_str()) {
        Command::Quit => {
            return Ok(Action::Quit);
        },
        Command::Switch(a) => {
            match ui.switch_to(a.as_str()) {
                Ok(()) => Action::Nothing,
                Err(e) => {
                    return Err(e);
                },
            }
        },
        Command::Join(a) => {
            let ghost n0 = ui.spec_view().names;
            proof {
                crate::session::lemma_index_of(n0, a@);
            }
            let _ = ui.new_chat_buf(a.as_str());
            let ghost n1 = ui.spec_view().names;
            proof {
                crate::session::lemma_index_of(n1, a@);
                match index_of(n0, a@) {
                    Some(i) => {
                        assert(n1[i] == a@);
                    },
                    None => {
                        assert(n1[n1.len() - 1] == a@);
                    },
                }
            }
            let _ = ui.switch_to(a.as_str());
            Action::Join(a)
        },
        Command::Part(a) => {
            match ui.remove_chat_buf(a.as_str()) {
                Ok(()) => Action::Part(a),
                Err(e) => {
                    return Err(e);
                },
            }
        },
        Command::Ignored => Action::Nothing,
        Command::Say => {
            let chan = ui.current_buf().clone();
            let event = Event::message(Some(nick), chan.as_str(), content.as_str());
            let _ = ui.add_event_to_current_chat_buf(event);
            Action::Send { target: chan, text: content }
        },
    };
    commit_input(ui);
    Ok(action)
}

/// Applies a key press to the session: control-c and control-d quit, enter
/// runs the line, other characters and the editing keys edit the input line.
pub fn handle_event(ui: &mut UI, key: Key, nick: &str) -> (r: Result<Action, Error>)
    requires
        old(ui).wf(),
    ensures
        final(ui).wf(),
        ({
            let v = old(ui).spec_view();
            let f = final(ui).spec_view();
            match key {
                Key::Ctrl(c) => f == v && if c == 'c' || c == 'd' {
                    r matches Ok(Action::Quit)
                } else {
                    r matches Ok(Action::Nothing)
                },
                Key::Char(c) => if c == '\n' {
                    enter_post(v, f, r, nick@)
                } else {
                    r matches Ok(Action::Nothing) && f == (UIView {
                        input: if v.input.line().len() < u16::MAX { after_add_char(v.input, c) } else { v.input },
                        ..v
                    })
                },
                Key::Backspace => r matches Ok(Action::Nothing) && f == (UIView { input: after_backspace(v.input), ..v }),
                Key::Left => r matches Ok(Action::Nothing) && f == (UIView { input: after_left(v.input), ..v }),
                Key::Right => r matches Ok(Action::Nothing) && f == (UIView { input: after_right(v.input), ..v }),
                Key::Up => r matches Ok(Action::Nothing) && f == (UIView { input: after_up(v.input), ..v }),
                Key::Down => r matches Ok(Action::Nothing) && f == (UIView { input: after_down(v.input), ..v }),
                Key::Other => r matches Ok(Action::Nothing) && f == v,
            }
        }),
{
    match key {
        Key::Ctrl(c) => {
            if c == 'c' || c == 'd' {
                Ok(Action::Quit)
            } else {
                Ok(Action::Nothing)
            }
        },
        Key::Char(c) => {
            if c == '\n' {
                enter(ui, nick)
            } else {
                let input = ui.input_mut();
                let full = input.get_content().unicode_len() >= 65535;
                if !full {
                    input.add_char(c);
                }
                Ok(Action::Nothing)
            }
        },
        Key::Backspace => {
            ui.input_mut().backspace();
            Ok(Action::Nothing)
        },
        Key::Left => {
            ui.input_mut().move_left();
            Ok(Action::Nothing)
        },
        Key::Right => {
            ui.input_mut().move_right();
            Ok(Action::Nothing)
        },
        Key::Up => {
            ui.input_mut().move_up();
            Ok(Action::Nothing)
        },
        Key::Down => {
            ui.input_mut().move_down();
            Ok(Action::Nothing)
        },
        Key::Other => Ok(Action::Nothing),
    }
}

} // verus!
