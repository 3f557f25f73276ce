//! The inline markup of chat text: control characters that select colours
//! and toggle modifiers, interleaved with the text they style.

use vstd::prelude::*;
use crate::style::{Color, Modifier, Style};

verus! {

/// A piece of laid-out text: a grapheme in a style, or a line break.
pub enum Token {
    Glyph(String, Style),
    Newline,
}

pub enum TokenView {
    Glyph(Seq<char>, Style),
    Newline,
}

impl View for Token {
    type V = TokenView;

    open spec fn view(&self) -> TokenView {
        match self {
            Token::Glyph(g, s) => TokenView::Glyph(g@, *s),
            Token::Newline => TokenView::Newline,
        }
    }
}

/// The grapheme is the single character `c`.
pub open spec fn is_char(g: Seq<char>, c: char) -> bool {
    g.len() == 1 && g[0] == c
}

/// The grapheme is a single decimal digit.
pub open spec fn is_digit(g: Seq<char>) -> bool {
    g.len() == 1 && '0' <= g[0] <= '9'
}

pub open spec fn digit_value(g: Seq<char>) -> nat {
    (g[0] as u32 - '0' as u32) as nat
}

/// The colour with markup index `n`.
pub open spec fn color_of(n: nat) -> Option<Color> {
    if exists|c: Color| c.spec_code() == n {
        Some(choose|c: Color| c.spec_code() == n)
    } else {
        None
    }
}

/// A colour index at position `j`: two digits where both are there, else one;
/// with the number of graphemes it takes.
pub open spec fn color_at(gs: Seq<Seq<char>>, j: int) -> Option<(Color, int)> {
    if 0 <= j < gs.len() && is_digit(gs[j]) {
        if j + 1 < gs.len() && is_digit(gs[j + 1]) {
            match color_of(10 * digit_value(gs[j]) + digit_value(gs[j + 1])) {
                Some(c) => Some((c, 2)),
                None => None,
            }
        } else {
            match color_of(digit_value(gs[j])) {
                Some(c) => Some((c, 1)),
                None => None,
            }
        }
    } else {
        None
    }
}

/// The modifier that a control character toggles.
pub open spec fn toggle_of(g: Seq<char>) -> Option<Modifier> {
    if is_char(g, '\x02') {
        Some(Modifier::Bold)
    } else if is_char(g, '\x1d') {
        Some(Modifier::Italic)
    } else if is_char(g, '\x1f') {
        Some(Modifier::Underline)
    } else if is_char(g, '\x16') {
        Some(Modifier::Invert)
    } else {
        None
    }
}

/// Where the markup at position `i` ends, and the style after it, for a
/// colour introducer at `i`: a foreground index, then optionally a comma and
/// a background index; with no index both colours are reset.
pub open spec fn color_markup(gs: Seq<Seq<char>>, i: int, st: Style) -> (int, Style) {
    match color_at(gs, i + 1) {
        Some((fg, l)) => {
            let j = i + 1 + l;
            let bg = if j < gs.len() && is_char(gs[j], ',') { color_at(gs, j + 1) } else { None };
            match bg {
                Some((b, l2)) => (j + 1 + l2, Style { fg, bg: b, ..st }),
                None => (j, Style { fg, ..st }),
            }
        },
        None => (i + 1, Style { fg: Color::Reset, bg: Color::Reset, ..st }),
    }
}

/// The tokens of graphemes `gs` from position `i` on, starting in style `st`.
/// Markup is consumed; every other grapheme becomes a glyph in the style
/// accumulated so far, and a line feed a line break.
pub open spec fn markup(gs: Seq<Seq<char>>, i: int, st: Style) -> Seq<TokenView>
    decreases gs.len() - i,
{
    if i < 0 || i >= gs.len() {
        seq![]
    } else {
        let g = gs[i];
        if is_char(g, '\x03') {
            let (j, s) = color_markup(gs, i, st);
            if j > i { markup(gs, j, s) } else { seq![] }
        } else if toggle_of(g) is Some {
            markup(gs, i + 1, st.spec_toggle(toggle_of(g)->0))
        } else if is_char(g, '\x0f') {
            markup(gs, i + 1, Style::spec_default())
        } else if is_char(g, '\n') {
            seq![TokenView::Newline] + markup(gs, i + 1, st)
        } else {
            seq![TokenView::Glyph(g, st)] + markup(gs, i + 1, st)
        }
    }
}

/// Is the grapheme one of the markup's control characters.
pub open spec fn is_control(g: Seq<char>) -> bool {
    is_char(g, '\x03') || toggle_of(g) is Some || is_char(g, '\x0f')
}

fn char_is(g: &String, c: char) -> (r: bool)
    ensures
        r == is_char(g@, c),
{
    let s = g.as_str();
    s.unicode_len() == 1 && s.get_char(0) == c
}

fn digit_of(g: &String) -> (r: Option<u8>)
    ensures
        r is Some <==> is_digit(g@),
        r matches Some(d) ==> d == digit_value(g@) && d < 10,
{
    let s = g.as_str();
    if s.unicode_len() == 1 {
        let c = s.get_char(0);
        if '0' <= c && c <= '9' {
            return Some((c as u32 - '0' as u32) as u8);
        }
    }
    None
}

proof fn lemma_color_of(n: nat, r: Option<Color>)
    requires
        r matches Some(c) ==> c.spec_code() == n,
        r is None <==> forall|c: Color| #[trigger] c.spec_code() != n,
    ensures
        r == color_of(n),
{
    if let Some(c) = r {
        assert(c.spec_code() == n);
        let d = choose|d: Color| d.spec_code() == n;
        assert(d.spec_code() == c.spec_code());
        assert(d == c);
    }
}

/// The colour index at position `j` of `gs`, with the graphemes it takes.
fn next_color(gs: &Vec<String>, j: usize) -> (r: Option<(Color, usize)>)
    ensures
        r matches Some((c, l)) ==> color_at(gs@.map_values(|g: String| g@), j as int) == Some((c, l as int)),
        r is None ==> color_at(gs@.map_values(|g: String| g@), j as int) is None,
        r matches Some((c, l)) ==> 1 <= l <= 2,
{
    let ghost gv = gs@.map_values(|g: String| g@);
    if j >= gs.len() {
        return None;
    }
    assert(gv[j as int] == gs@[j as int]@);
    match digit_of(&gs[j]) {
        None => None,
        Some(d1) => {
            let second = if j + 1 < gs.len() { digit_of(&gs[j + 1]) } else { None };
            proof {
                if j + 1 < gs@.len() {
                    assert(gv[j + 1] == gs@[j + 1]@);
                }
            }
            match second {
                Some(d2) => {
                    let c = Color::from_u8(10 * d1 + d2);
                    proof {
                        lemma_color_of((10 * d1 + d2) as nat, c);
                    }
                    match c {
                        Some(c) => Some((c, 2)),
                        None => None,
                    }
                },
                None => {
                    let c = Color::from_u8(d1);
                    proof {
                        lemma_color_of(d1 as nat, c);
                    }
                    match c {
                        Some(c) => Some((c, 1)),
                        None => None,
                    }
                },
            }
        },
    }
}

/// Splits graphemes into styled glyphs and line breaks, consuming the markup.
pub fn parse_markup(gs: &Vec<String>, style: Style) -> (r: Vec<Token>)
    ensures
        r@.map_values(|t: Token| t@) == markup(gs@.map_values(|g: String| g@), 0, style),
{
    let ghost gv = gs@.map_values(|g: String| g@);
    let mut out: Vec<Token> = Vec::new();
    let mut st = style;
    let mut i: usize = 0;
    while i < gs.len()
        invariant
            i <= gs@.len(),
            gv == gs@.map_values(|g: String| g@),
            out@.map_values(|t: Token| t@) + markup(gv, i as int, st) == markup(gv, 0, style),
        decreases gs@.len() - i,
    {
        let ghost before = out@.map_values(|t: Token| t@);
        let g = &gs[i];
        assert(gv[i as int] == g@);
        if char_is(g, '\x03') {
            let (j, s) = match next_color(gs, i + 1) {
                Some((fg, l)) => {
                    let j = i + 1 + l;
                    let comma = j < gs.len() && char_is(&gs[j], ',');
                    proof {
                        if j < gs@.len() {
                            assert(gv[j as int] == gs@[j as int]@);
                        }
                    }
                    let bg = if comma { next_color(gs, j + 1) } else { None };
                    match bg {
                        Some((b, l2)) => (j + 1 + l2, Style { fg: fg, bg: b, ..st }),
                        None => (j, Style { fg: fg, ..st }),
                    }
                },
                None => (i + 1, Style { fg: Color::Reset, bg: Color::Reset, ..st }),
            };
            assert((j as int, s) == color_markup(gv, i as int, st));
            i = if j <= gs.len() { j } else { gs.len() };
            st = s;
        } else {
            let toggle = if char_is(g, '\x02') {
                Some(Modifier::Bold)
            } else if char_is(g, '\x1d') {
                Some(Modifier::Italic)
            } else if char_is(g, '\x1f') {
                Some(Modifier::Underline)
            } else if char_is(g, '\x16') {
                Some(Modifier::Invert)
            } else {
                None
            };
            assert(toggle == toggle_of(g@));
            match toggle {
                Some(m) => {
                    st = st.modifier_with_toggle(m);
                },
                None => {
                    if char_is(g, '\x0f') {
                        st = Style::default();
                    } else if char_is(g, '\n') {
                        out.push(Token::Newline);
                        assert(out@.map_values(|t: Token| t@) =~= before + seq![TokenView::Newline]);
                    } else {
                        out.push(Token::Glyph(g.clone(), st));
                        assert(out@.map_values(|t: Token| t@) =~= before + seq![TokenView::Glyph(g@, st)]);
                    }
                },
            }
            i += 1;
        }
    }
    proof {
        assert(out@.map_values(|t: Token| t@) =~= markup(gv, 0, style));
    }
    out
}

/// The markup leaves no control character among the glyphs.
pub proof fn lemma_markup_no_control(gs: Seq<Seq<char>>, i: int, st: Style, k: int)
    requires
        0 <= k < markup(gs, i, st).len(),
        markup(gs, i, st)[k] is Glyph,
    ensures
        !is_control(markup(gs, i, st)[k]->Glyph_0),
    decreases gs.len() - i,
{
    if 0 <= i < gs.len() {
        let g = gs[i];
        if is_char(g, '\x03') {
            let (j, s) = color_markup(gs, i, st);
            if j > i {
                lemma_markup_no_control(gs, j, s, k);
            }
        } else if toggle_of(g) is Some {
            lemma_markup_no_control(gs, i + 1, st.spec_toggle(toggle_of(g)->0), k);
        } else if is_char(g, '\x0f') {
            lemma_markup_no_control(gs, i + 1, Style::spec_default(), k);
        } else if k > 0 {
            lemma_markup_no_control(gs, i + 1, st, k - 1);
        }
    }
}

} // verus!
