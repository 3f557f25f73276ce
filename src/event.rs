//! Chat events and their rendering as marked-up text.

use vstd::prelude::*;
use vstd::string::StringSliceAdditionalSpecFns;
use vstd::utf8::encode_utf8;
use crate::escape::{dec, push_decimal, push_str, string_of_chars};
use crate::style::{Color, Modifier, Style};

verus! {

/// An event of the chat protocol that a buffer shows.
pub enum Event {
    /// sender, target, message
    PrivMessage(Option<String>, String, String),
    /// sender, target, message
    Notice(Option<String>, String, String),
    /// sender, target, joined
    JoinPart(Option<String>, String, bool),
}

/// A wrapping 16-bit sum of each byte times its position.
pub open spec fn name_hash(bs: Seq<u8>) -> nat
    decreases bs.len(),
{
    if bs.len() == 0 {
        0
    } else {
        ((name_hash(bs.drop_last()) + ((bs.len() - 1) as int % 65536) * (bs.last() as int)) % 65536) as nat
    }
}

/// The markup index of the colour a name is shown in.
pub open spec fn name_color_code(name: Seq<u8>) -> nat {
    name_hash(name) % 12 + 2
}

/// The colour a name is shown in: one of twelve, chosen from its bytes.
pub fn colorize(name: &str) -> (r: Color)
    ensures
        r.spec_code() == name_color_code(name.spec_bytes()),
{
    let bs = name.as_bytes();
    let mut acc: u32 = 0;
    let mut i: usize = 0;
    while i < bs.len()
        invariant
            i <= bs@.len(),
            bs@ == name.spec_bytes(),
            acc == name_hash(bs@.take(i as int)),
            acc < 65536,
        decreases bs@.len() - i,
    {
        let m = (i % 65536) as u32;
        let b = bs[i] as u32;
        assert(m * b <= 65535 * 255) by (nonlinear_arith)
            requires
                m <= 65535,
                b <= 255,
        ;
        let term = (m * b) % 65536;
        assert(bs@.take(i as int + 1).drop_last() =~= bs@.take(i as int));
        acc = (acc + term) % 65536;
        i += 1;
    }
    assert(bs@.take(i as int) =~= bs@);
    let v = (acc % 12) as u8 + 2;
    match Color::from_u8(v) {
        Some(c) => c,
        None => {
            assert(false);
            Color::Reset
        },
    }
}

/// The markup for a name in its colour, followed by a reset of the colours.
pub open spec fn colored_name(name: Seq<char>, code: nat) -> Seq<char> {
    seq!['\x03'] + dec(code) + name + seq!['\x03']
}

pub open spec fn opt_text(s: Option<String>) -> Seq<char> {
    match s {
        Some(s) => s@,
        None => seq![],
    }
}

/// The byte encoding of the sender, or of the empty name.
pub open spec fn opt_bytes(s: Option<String>) -> Seq<u8> {
    match s {
        Some(s) => encode_utf8(s@),
        None => seq![],
    }
}

impl Event {
    pub fn message(sender: Option<&str>, target: &str, message: &str) -> (r: Event)
        ensures
            r matches Event::PrivMessage(s, t, m) && t@ == target@ && m@ == message@
                && opt_text(s) == opt_str(sender) && opt_bytes(s) == opt_str_bytes(sender)
                && (s is Some <==> sender is Some),
    {
        Event::PrivMessage(own(sender), target.to_owned(), message.to_owned())
    }

    pub fn notice(sender: Option<&str>, target: &str, message: &str) -> (r: Event)
        ensures
            r matches Event::Notice(s, t, m) && t@ == target@ && m@ == message@
                && opt_text(s) == opt_str(sender) && opt_bytes(s) == opt_str_bytes(sender)
                && (s is Some <==> sender is Some),
    {
        Event::Notice(own(sender), target.to_owned(), message.to_owned())
    }

    pub fn joined(sender: Option<&str>, target: &str) -> (r: Event)
        ensures
            r matches Event::JoinPart(s, t, j) && t@ == target@ && j
                && opt_text(s) == opt_str(sender) && opt_bytes(s) == opt_str_bytes(sender)
                && (s is Some <==> sender is Some),
    {
        Event::JoinPart(own(sender), target.to_owned(), true)
    }

    pub fn parted(sender: Option<&str>, target: &str) -> (r: Event)
        ensures
            r matches Event::JoinPart(s, t, j) && t@ == target@ && !j
                && opt_text(s) == opt_str(sender) && opt_bytes(s) == opt_str_bytes(sender)
                && (s is Some <==> sender is Some),
    {
        Event::JoinPart(own(sender), target.to_owned(), false)
    }

    /// The style a notice starts in; other events start in the default style.
    pub open spec fn spec_style(&self) -> Option<Style> {
        match self {
            Event::Notice(_, _, _) => Some(Style { fg: Color::LightWhite, bg: Color::Yellow, modifier: Modifier::Reset }),
            _ => None,
        }
    }

    pub fn style(&self) -> (r: Option<Style>)
        ensures
            r == self.spec_style(),
    {
        match self {
            Event::Notice(_, _, _) => Some(Style { fg: Color::LightWhite, bg: Color::Yellow, modifier: Modifier::Reset }),
            _ => None,
        }
    }

    /// The marked-up line that shows the event.
    pub open spec fn text(&self) -> Seq<char> {
        match self {
            Event::PrivMessage(sender, _, message) => seq!['<']
                + colored_name(opt_text(*sender), name_color_code(opt_bytes(*sender)))
                + seq!['>', ' '] + message@,
            Event::Notice(Some(sender), _, message) => seq!['<', '\x03']
                + dec(name_color_code(encode_utf8(sender@))) + seq!['\x02'] + sender@
                + seq!['\x02', '\x03', '0', ',', '7', '>', ' '] + message@,
            Event::Notice(None, _, message) => message@,
            Event::JoinPart(Some(sender), _, true) => seq!['\x03', '3', '+']
                + colored_name(sender@, name_color_code(encode_utf8(sender@))),
            Event::JoinPart(Some(sender), _, false) => seq!['\x03', '5', '-']
                + colored_name(sender@, name_color_code(encode_utf8(sender@))),
            Event::JoinPart(None, _, _) => seq![],
        }
    }

    /// The marked-up line that shows the event.
    pub fn to_string(&self) -> (r: String)
        ensures
            r@ == self.text(),
    {
        let mut out: Vec<char> = Vec::new();
        match self {
            Event::PrivMessage(sender, _, message) => {
                out.push('<');
                push_colored_name(&mut out, opt_as_str(sender));
                out.push('>');
                out.push(' ');
                push_str(&mut out, message.as_str());
            },
            Event::Notice(Some(sender), _, message) => {
                out.push('<');
                out.push('\x03');
                push_decimal(&mut out, colorize(sender.as_str()).code() as u32);
                out.push('\x02');
                push_str(&mut out, sender.as_str());
                out.push('\x02');
                out.push('\x03');
                push_decimal(&mut out, Color::LightWhite.code() as u32);
                out.push(',');
                push_decimal(&mut out, Color::Yellow.code() as u32);
                out.push('>');
                out.push(' ');
                push_str(&mut out, message.as_str());
                proof {
                    reveal_with_fuel(dec, 2);
                }
            },
            Event::Notice(None, _, message) => {
                push_str(&mut out, message.as_str());
            },
            Event::JoinPart(Some(sender), _, joined) => {
                out.push('\x03');
                if *joined {
                    push_decimal(&mut out, Color::Green.code() as u32);
                    out.push('+');
                } else {
                    push_decimal(&mut out, Color::Red.code() as u32);
                    out.push('-');
                }
                push_colored_name(&mut out, sender.as_str());
                proof {
                    reveal_with_fuel(dec, 2);
                }
            },
            Event::JoinPart(None, _, _) => {},
        }
        proof {
            assert(out@ =~= self.text());
        }
        string_of_chars(&out)
    }
}

pub open spec fn opt_str(s: Option<&str>) -> Seq<char> {
    match s {
        Some(s) => s@,
        None => seq![],
    }
}

pub open spec fn opt_str_bytes(s: Option<&str>) -> Seq<u8> {
    match s {
        Some(s) => s.spec_bytes(),
        None => seq![],
    }
}

fn own(s: Option<&str>) -> (r: Option<String>)
    ensures
        opt_text(r) == opt_str(s),
        opt_bytes(r) == opt_str_bytes(s),
        r is Some <==> s is Some,
{
    match s {
        Some(s) => {
            Some(s.to_owned())
        },
        None => None,
    }
}

fn opt_as_str(s: &Option<String>) -> (r: &str)
    ensures
        r@ == opt_text(*s),
        r.spec_bytes() == opt_bytes(*s),
{
    match s {
        Some(s) => s.as_str(),
        None => {
            proof {
                reveal_strlit("");
            }
            assert(""@ =~= Seq::<char>::empty());
            ""
        },
    }
}

fn push_colored_name(out: &mut Vec<char>, name: &str)
    ensures
        final(out)@ == old(out)@ + colored_name(name@, name_color_code(name.spec_bytes())),
{
    out.push('\x03');
    push_decimal(out, colorize(name).code() as u32);
    push_str(out, name);
    out.push('\x03');
    proof {
        assert(final(out)@ =~= old(out)@ + colored_name(name@, name_color_code(name.spec_bytes())));
    }
}

} // verus!
