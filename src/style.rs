//! Colours, text modifiers and styles, with their escape-sequence projections.

use vstd::prelude::*;
use crate::escape::{
    ansi_bg, ansi_bg_text, ansi_fg, ansi_fg_text, csi, dec, push_decimal, reset_bg, reset_bg_text,
    reset_fg, reset_fg_text, sgr_blink, sgr_bold, sgr_crossed_out, sgr_faint, sgr_framed, sgr_invert,
    sgr_italic, sgr_no_blink, sgr_no_bold, sgr_no_crossed_out, sgr_no_faint, sgr_no_invert,
    sgr_no_italic, sgr_no_underline, sgr_reset, sgr_underline, string_of_chars,
};

verus! {

/// One of the sixteen terminal colours, or the terminal's default colour.
#[derive(Debug, Clone, Copy, PartialEq, Eq, Structural)]
pub enum Color {
    Black,
    Blue,
    Cyan,
    Green,
    LightBlack,
    LightBlue,
    LightCyan,
    LightGreen,
    LightMagenta,
    LightRed,
    LightWhite,
    LightYellow,
    Magenta,
    Red,
    Reset,
    White,
    Yellow,
}

impl Color {
    /// The colour's index in the inline markup (`Reset` has 255).
    pub open spec fn spec_code(self) -> nat {
        match self {
            Color::LightWhite => 0,
            Color::Black => 1,
            Color::Blue => 2,
            Color::Green => 3,
            Color::LightRed => 4,
            Color::Red => 5,
            Color::Magenta => 6,
            Color::Yellow => 7,
            Color::LightYellow => 8,
            Color::LightGreen => 9,
            Color::Cyan => 10,
            Color::LightCyan => 11,
            Color::LightBlue => 12,
            Color::LightMagenta => 13,
            Color::LightBlack => 14,
            Color::White => 15,
            Color::Reset => 255,
        }
    }

    /// The colour's index in the terminal's palette (not used for `Reset`).
    pub open spec fn ansi_index(self) -> nat {
        match self {
            Color::Black => 0,
            Color::Red => 1,
            Color::Green => 2,
            Color::Yellow => 3,
            Color::Blue => 4,
            Color::Magenta => 5,
            Color::Cyan => 6,
            Color::White => 7,
            Color::LightBlack => 8,
            Color::LightRed => 9,
            Color::LightGreen => 10,
            Color::LightYellow => 11,
            Color::LightBlue => 12,
            Color::LightMagenta => 13,
            Color::LightCyan => 14,
            Color::LightWhite => 15,
            Color::Reset => 0,
        }
    }

    pub open spec fn fg_text(self) -> Seq<char> {
        if self == Color::Reset { reset_fg_text() } else { ansi_fg_text(self.ansi_index()) }
    }

    pub open spec fn bg_text(self) -> Seq<char> {
        if self == Color::Reset { reset_bg_text() } else { ansi_bg_text(self.ansi_index()) }
    }

    /// The markup that selects this colour as foreground.
    pub open spec fn irc_text(self) -> Seq<char> {
        if self == Color::Reset { seq!['\x03'] } else { seq!['\x03'] + dec(self.spec_code()) }
    }

    pub fn code(self) -> (r: u8)
        ensures
            r == self.spec_code(),
    {
        match self {
            Color::LightWhite => 0,
            Color::Black => 1,
            Color::Blue => 2,
            Color::Green => 3,
            Color::LightRed => 4,
            Color::Red => 5,
            Color::Magenta => 6,
            Color::Yellow => 7,
            Color::LightYellow => 8,
            Color::LightGreen => 9,
            Color::Cyan => 10,
            Color::LightCyan => 11,
            Color::LightBlue => 12,
            Color::LightMagenta => 13,
            Color::LightBlack => 14,
            Color::White => 15,
            Color::Reset => 255,
        }
    }

    fn ansi(self) -> (r: u8)
        ensures
            r == self.ansi_index(),
    {
        match self {
            Color::Black => 0,
            Color::Red => 1,
            Color::Green => 2,
            Color::Yellow => 3,
            Color::Blue => 4,
            Color::Magenta => 5,
            Color::Cyan => 6,
            Color::White => 7,
            Color::LightBlack => 8,
            Color::LightRed => 9,
            Color::LightGreen => 10,
            Color::LightYellow => 11,
            Color::LightBlue => 12,
            Color::LightMagenta => 13,
            Color::LightCyan => 14,
            Color::LightWhite => 15,
            Color::Reset => 0,
        }
    }

    /// The colour with markup index `val`, if there is one.
    pub fn from_u8(val: u8) -> (r: Option<Color>)
        ensures
            r matches Some(c) ==> c.spec_code() == val,
            r is None <==> forall|c: Color| #[trigger] c.spec_code() != val,
            val <= 15 || val == 255 ==> r is Some,
    {
        let r = match val {
            0 => Some(Color::LightWhite),
            1 => Some(Color::Black),
            2 => Some(Color::Blue),
            3 => Some(Color::Green),
            4 => Some(Color::LightRed),
            5 => Some(Color::Red),
            6 => Some(Color::Magenta),
            7 => Some(Color::Yellow),
            8 => Some(Color::LightYellow),
            9 => Some(Color::LightGreen),
            10 => Some(Color::Cyan),
            11 => Some(Color::LightCyan),
            12 => Some(Color::LightBlue),
            13 => Some(Color::LightMagenta),
            14 => Some(Color::LightBlack),
            15 => Some(Color::White),
            255 => Some(Color::Reset),
            _ => None,
        };
        proof {
            match r {
                Some(c) => {
                    assert(c.spec_code() == val);
                },
                None => {
                    assert forall|c: Color| #[trigger] c.spec_code() != val by {
                        assert(c.spec_code() <= 15 || c.spec_code() == 255);
                    }
                },
            }
        }
        r
    }

    /// The escape sequence that selects this colour as foreground.
    pub fn to_fg_string(self) -> (r: String)
        ensures
            r@ == self.fg_text(),
    {
        if self == Color::Reset { reset_fg() } else { ansi_fg(self.ansi()) }
    }

    /// The escape sequence that selects this colour as background.
    pub fn to_bg_string(self) -> (r: String)
        ensures
            r@ == self.bg_text(),
    {
        if self == Color::Reset { reset_bg() } else { ansi_bg(self.ansi()) }
    }

    /// The inline markup that selects this colour as foreground.
    pub fn to_irc_color(self) -> (r: String)
        ensures
            r@ == self.irc_text(),
    {
        let mut cs: Vec<char> = Vec::new();
        cs.push('\x03');
        if self != Color::Reset {
            push_decimal(&mut cs, self.code() as u32);
        }
        proof {
            assert(cs@ =~= self.irc_text());
        }
        string_of_chars(&cs)
    }
}

/// A text attribute, or the undoing of one.
#[derive(Debug, Clone, Copy, PartialEq, Eq, Structural)]
pub enum Modifier {
    Blink,
    Bold,
    CrossedOut,
    Faint,
    Framed,
    Invert,
    Italic,
    NoBlink,
    NoBold,
    NoCrossedOut,
    NoFaint,
    NoInvert,
    NoItalic,
    NoUnderline,
    Reset,
    Underline,
}

impl Modifier {
    /// The modifier that undoes this one; `Framed` and `Reset` have none.
    pub open spec fn spec_inverted(self) -> Option<Modifier> {
        match self {
            Modifier::Blink => Some(Modifier::NoBlink),
            Modifier::Bold => Some(Modifier::NoBold),
            Modifier::CrossedOut => Some(Modifier::NoCrossedOut),
            Modifier::Faint => Some(Modifier::NoFaint),
            Modifier::Invert => Some(Modifier::NoInvert),
            Modifier::Italic => Some(Modifier::NoItalic),
            Modifier::NoBlink => Some(Modifier::Blink),
            Modifier::NoBold => Some(Modifier::Bold),
            Modifier::NoCrossedOut => Some(Modifier::CrossedOut),
            Modifier::NoFaint => Some(Modifier::Faint),
            Modifier::NoInvert => Some(Modifier::Invert),
            Modifier::NoItalic => Some(Modifier::Italic),
            Modifier::NoUnderline => Some(Modifier::Underline),
            Modifier::Underline => Some(Modifier::NoUnderline),
            Modifier::Framed | Modifier::Reset => None,
        }
    }

    /// The SGR parameter of the modifier (`Reset` has the empty parameter).
    pub open spec fn sgr_param(self) -> Seq<char> {
        match self {
            Modifier::Reset => seq![],
            Modifier::Bold => seq!['1'],
            Modifier::Faint => seq!['2'],
            Modifier::Italic => seq!['3'],
            Modifier::Underline => seq!['4'],
            Modifier::Blink => seq!['5'],
            Modifier::Invert => seq!['7'],
            Modifier::CrossedOut => seq!['9'],
            Modifier::NoBold => seq!['2', '1'],
            Modifier::NoFaint => seq!['2', '2'],
            Modifier::NoItalic => seq!['2', '3'],
            Modifier::NoUnderline => seq!['2', '4'],
            Modifier::NoBlink => seq!['2', '5'],
            Modifier::NoInvert => seq!['2', '7'],
            Modifier::NoCrossedOut => seq!['2', '9'],
            Modifier::Framed => seq!['5', '1'],
        }
    }

    /// The escape sequence of the modifier, as termion's `style` module writes it.
    pub open spec fn text(self) -> Seq<char> {
        csi() + self.sgr_param() + seq!['m']
    }

    pub fn inverted(&self) -> (r: Option<Modifier>)
        ensures
            r == self.spec_inverted(),
    {
        match *self {
            Modifier::Blink => Some(Modifier::NoBlink),
            Modifier::Bold => Some(Modifier::NoBold),
            Modifier::CrossedOut => Some(Modifier::NoCrossedOut),
            Modifier::Faint => Some(Modifier::NoFaint),
            Modifier::Invert => Some(Modifier::NoInvert),
            Modifier::Italic => Some(Modifier::NoItalic),
            Modifier::NoBlink => Some(Modifier::Blink),
            Modifier::NoBold => Some(Modifier::Bold),
            Modifier::NoCrossedOut => Some(Modifier::CrossedOut),
            Modifier::NoFaint => Some(Modifier::Faint),
            Modifier::NoInvert => Some(Modifier::Invert),
            Modifier::NoItalic => Some(Modifier::Italic),
            Modifier::NoUnderline => Some(Modifier::Underline),
            Modifier::Underline => Some(Modifier::NoUnderline),
            Modifier::Framed | Modifier::Reset => None,
        }
    }

    /// The escape sequence of the modifier.
    pub fn to_string(self) -> (r: String)
        ensures
            r@ == self.text(),
    {
        let r = match self {
            Modifier::Reset => sgr_reset(),
            Modifier::Bold => sgr_bold(),
            Modifier::Faint => sgr_faint(),
            Modifier::Italic => sgr_italic(),
            Modifier::Underline => sgr_underline(),
            Modifier::Blink => sgr_blink(),
            Modifier::Invert => sgr_invert(),
            Modifier::CrossedOut => sgr_crossed_out(),
            Modifier::NoBold => sgr_no_bold(),
            Modifier::NoFaint => sgr_no_faint(),
            Modifier::NoItalic => sgr_no_italic(),
            Modifier::NoUnderline => sgr_no_underline(),
            Modifier::NoBlink => sgr_no_blink(),
            Modifier::NoInvert => sgr_no_invert(),
            Modifier::NoCrossedOut => sgr_no_crossed_out(),
            Modifier::Framed => sgr_framed(),
        };
        proof {
            assert(r@ =~= self.text());
        }
        r
    }
}

/// Foreground colour, background colour and modifier of a cell.
#[derive(Debug, Clone, Copy, PartialEq, Eq, Structural)]
pub struct Style {
    pub fg: Color,
    pub bg: Color,
    pub modifier: Modifier,
}

impl Style {
    /// The terminal's default style.
    pub open spec fn spec_default() -> Style {
        Style { fg: Color::Reset, bg: Color::Reset, modifier: Modifier::Reset }
    }

    /// Applying `m` to a style whose modifier is already `m` undoes it: it
    /// becomes `m`'s inverse, or `Reset` where `m` has none.
    pub open spec fn spec_toggle(self, m: Modifier) -> Style {
        if self.modifier == m {
            match m.spec_inverted() {
                Some(inv) => Style { modifier: inv, ..self },
                None => Style { modifier: Modifier::Reset, ..self },
            }
        } else {
            Style { modifier: m, ..self }
        }
    }

    pub fn fg(self, color: Color) -> (r: Style)
        ensures
            r == (Style { fg: color, ..self }),
    {
        Style { fg: color, ..self }
    }

    pub fn bg(self, color: Color) -> (r: Style)
        ensures
            r == (Style { bg: color, ..self }),
    {
        Style { bg: color, ..self }
    }

    pub fn modifier(self, modifier: Modifier) -> (r: Style)
        ensures
            r == (Style { modifier: modifier, ..self }),
    {
        Style { modifier: modifier, ..self }
    }

    pub fn modifier_with_toggle(self, modifier: Modifier) -> (r: Style)
        ensures
            r == self.spec_toggle(modifier),
    {
        if self.modifier == modifier {
            match modifier.inverted() {
                Some(inverted) => Style { modifier: inverted, ..self },
                None => Style { modifier: Modifier::Reset, ..self },
            }
        } else {
            Style { modifier: modifier, ..self }
        }
    }

    pub fn reset(&mut self)
        ensures
            *final(self) == Style::spec_default(),
    {
        self.fg = Color::Reset;
        self.bg = Color::Reset;
        self.modifier = Modifier::Reset;
    }
}

impl Default for Style {
    fn default() -> (r: Style)
        ensures
            r == Style::spec_default(),
    {
        Style { fg: Color::Reset, bg: Color::Reset, modifier: Modifier::Reset }
    }
}

impl From<Color> for Style {
    fn from(color: Color) -> (r: Style)
        ensures
            r == (Style { fg: color, ..Style::spec_default() }),
    {
        Style { fg: color, bg: Color::Reset, modifier: Modifier::Reset }
    }
}

impl vstd::std_specs::convert::FromSpecImpl<Color> for Style {
    open spec fn obeys_from_spec() -> bool {
        true
    }

    open spec fn from_spec(color: Color) -> Style {
        Style { fg: color, ..Style::spec_default() }
    }
}

impl From<Modifier> for Style {
    fn from(modifier: Modifier) -> (r: Style)
        ensures
            r == (Style { modifier: modifier, ..Style::spec_default() }),
    {
        Style { fg: Color::Reset, bg: Color::Reset, modifier: modifier }
    }
}

impl vstd::std_specs::convert::FromSpecImpl<Modifier> for Style {
    open spec fn obeys_from_spec() -> bool {
        true
    }

    open spec fn from_spec(modifier: Modifier) -> Style {
        Style { modifier: modifier, ..Style::spec_default() }
    }
}

} // verus!
