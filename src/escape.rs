//! Terminal escape sequences: decimal digits, SGR parameters, and the
//! sequences that termion produces for colours and cursor motion.

use vstd::prelude::*;

verus! {

/// The control sequence introducer, `ESC [`.
pub open spec fn csi() -> Seq<char> {
    seq!['\x1b', '[']
}

/// The character of a decimal digit.
pub open spec fn digit_char(d: nat) -> char {
    if d == 0 { '0' }
    else if d == 1 { '1' }
    else if d == 2 { '2' }
    else if d == 3 { '3' }
    else if d == 4 { '4' }
    else if d == 5 { '5' }
    else if d == 6 { '6' }
    else if d == 7 { '7' }
    else if d == 8 { '8' }
    else { '9' }
}

/// Decimal representation of a natural number, without leading zeros.
pub open spec fn dec(n: nat) -> Seq<char>
    decreases n,
{
    if n < 10 {
        seq![digit_char(n)]
    } else {
        dec(n / 10) + seq![digit_char(n % 10)]
    }
}

/// Foreground colour from the 256-colour palette.
pub open spec fn ansi_fg_text(n: nat) -> Seq<char> {
    csi() + seq!['3', '8', ';', '5', ';'] + dec(n) + seq!['m']
}

/// Background colour from the 256-colour palette.
pub open spec fn ansi_bg_text(n: nat) -> Seq<char> {
    csi() + seq!['4', '8', ';', '5', ';'] + dec(n) + seq!['m']
}

pub open spec fn reset_fg_text() -> Seq<char> {
    csi() + seq!['3', '9', 'm']
}

pub open spec fn reset_bg_text() -> Seq<char> {
    csi() + seq!['4', '9', 'm']
}

/// Cursor motion to the one-based column `col` and row `row`.
pub open spec fn goto_text(col: nat, row: nat) -> Seq<char> {
    csi() + dec(row) + seq![';'] + dec(col) + seq!['H']
}

pub fn digit(d: u32) -> (r: char)
    requires
        d < 10,
    ensures
        r == digit_char(d as nat),
{
    match d {
        0 => '0',
        1 => '1',
        2 => '2',
        3 => '3',
        4 => '4',
        5 => '5',
        6 => '6',
        7 => '7',
        8 => '8',
        _ => '9',
    }
}

/// Appends the decimal digits of `n`.
pub fn push_decimal(out: &mut Vec<char>, n: u32)
    ensures
        final(out)@ == old(out)@ + dec(n as nat),
    decreases n,
{
    if n >= 10 {
        push_decimal(out, n / 10);
    }
    out.push(digit(n % 10));
    proof {
        if n >= 10 {
            assert(final(out)@ =~= old(out)@ + dec(n as nat));
        } else {
            assert(final(out)@ =~= old(out)@ + dec(n as nat));
        }
    }
}

/// Appends the characters of `s`.
pub fn push_str(out: &mut Vec<char>, s: &str)
    ensures
        final(out)@ == old(out)@ + s@,
{
    let cs = s;
    let n = cs.unicode_len();
    let mut i: usize = 0;
    let ghost start = out@;
    while i < n
        invariant
            i <= n,
            n == s@.len(),
            cs@ == s@,
            out@ == start + s@.take(i as int),
        decreases n - i,
    {
        out.push(cs.get_char(i));
        i += 1;
        assert(out@ =~= start + s@.take(i as int));
    }
    assert(s@.take(n as int) =~= s@);
}

/// Relies on std's `String: FromIterator<&char>`: the string holds the characters in order.
#[verifier::external_body]
pub(crate) fn string_of_chars(cs: &Vec<char>) -> (r: String)
    ensures
        r@ == cs@,
{
    cs.iter().collect()
}

/// Relies on termion's `AnsiValue::fg_string`: `ESC [ 38;5;<n> m`.
#[verifier::external_body]
pub(crate) fn ansi_fg(n: u8) -> (r: String)
    ensures
        r@ == ansi_fg_text(n as nat),
{
    termion::color::AnsiValue(n).fg_string()
}

/// Relies on termion's `AnsiValue::bg_string`: `ESC [ 48;5;<n> m`.
#[verifier::external_body]
pub(crate) fn ansi_bg(n: u8) -> (r: String)
    ensures
        r@ == ansi_bg_text(n as nat),
{
    termion::color::AnsiValue(n).bg_string()
}

/// Relies on termion's `color::Reset::fg_str`: `ESC [ 39 m`.
#[verifier::external_body]
pub(crate) fn reset_fg() -> (r: String)
    ensures
        r@ == reset_fg_text(),
{
    termion::color::Reset.fg_str().to_string()
}

/// Relies on termion's `color::Reset::bg_str`: `ESC [ 49 m`.
#[verifier::external_body]
pub(crate) fn reset_bg() -> (r: String)
    ensures
        r@ == reset_bg_text(),
{
    termion::color::Reset.bg_str().to_string()
}

/// Relies on termion's `From<cursor::Goto> for String`: `ESC [ <row> ; <col> H`.
#[verifier::external_body]
pub(crate) fn goto(col: u16, row: u16) -> (r: String)
    ensures
        r@ == goto_text(col as nat, row as nat),
{
    String::from(termion::cursor::Goto(col, row))
}

/// Relies on termion's `style::Reset` (its `Display`): `ESC [ m`.
#[verifier::external_body]
pub(crate) fn sgr_reset() -> (r: String)
    ensures
        r@ == csi() + seq!['m'],
{
    termion::style::Reset.to_string()
}

/// Relies on termion's `style::Bold` (its `Display`): `ESC [ 1m`.
#[verifier::external_body]
pub(crate) fn sgr_bold() -> (r: String)
    ensures
        r@ == csi() + seq!['1', 'm'],
{
    termion::style::Bold.to_string()
}

/// Relies on termion's `style::Faint` (its `Display`): `ESC [ 2m`.
#[verifier::external_body]
pub(crate) fn sgr_faint() -> (r: String)
    ensures
        r@ == csi() + seq!['2', 'm'],
{
    termion::style::Faint.to_string()
}

/// Relies on termion's `style::Italic` (its `Display`): `ESC [ 3m`.
#[verifier::external_body]
pub(crate) fn sgr_italic() -> (r: String)
    ensures
        r@ == csi() + seq!['3', 'm'],
{
    termion::style::Italic.to_string()
}

/// Relies on termion's `style::Underline` (its `Display`): `ESC [ 4m`.
#[verifier::external_body]
pub(crate) fn sgr_underline() -> (r: String)
    ensures
        r@ == csi() + seq!['4', 'm'],
{
    termion::style::Underline.to_string()
}

/// Relies on termion's `style::Blink` (its `Display`): `ESC [ 5m`.
#[verifier::external_body]
pub(crate) fn sgr_blink() -> (r: String)
    ensures
        r@ == csi() + seq!['5', 'm'],
{
    termion::style::Blink.to_string()
}

/// Relies on termion's `style::Invert` (its `Display`): `ESC [ 7m`.
#[verifier::external_body]
pub(crate) fn sgr_invert() -> (r: String)
    ensures
        r@ == csi() + seq!['7', 'm'],
{
    termion::style::Invert.to_string()
}

/// Relies on termion's `style::CrossedOut` (its `Display`): `ESC [ 9m`.
#[verifier::external_body]
pub(crate) fn sgr_crossed_out() -> (r: String)
    ensures
        r@ == csi() + seq!['9', 'm'],
{
    termion::style::CrossedOut.to_string()
}

/// Relies on termion's `style::NoBold` (its `Display`): `ESC [ 21m`.
#[verifier::external_body]
pub(crate) fn sgr_no_bold() -> (r: String)
    ensures
        r@ == csi() + seq!['2', '1', 'm'],
{
    termion::style::NoBold.to_string()
}

/// Relies on termion's `style::NoFaint` (its `Display`): `ESC [ 22m`.
#[verifier::external_body]
pub(crate) fn sgr_no_faint() -> (r: String)
    ensures
        r@ == csi() + seq!['2', '2', 'm'],
{
    termion::style::NoFaint.to_string()
}

/// Relies on termion's `style::NoItalic` (its `Display`): `ESC [ 23m`.
#[verifier::external_body]
pub(crate) fn sgr_no_italic() -> (r: String)
    ensures
        r@ == csi() + seq!['2', '3', 'm'],
{
    termion::style::NoItalic.to_string()
}

/// Relies on termion's `style::NoUnderline` (its `Display`): `ESC [ 24m`.
#[verifier::external_body]
pub(crate) fn sgr_no_underline() -> (r: String)
    ensures
        r@ == csi() + seq!['2', '4', 'm'],
{
    termion::style::NoUnderline.to_string()
}

/// Relies on termion's `style::NoBlink` (its `Display`): `ESC [ 25m`.
#[verifier::external_body]
pub(crate) fn sgr_no_blink() -> (r: String)
    ensures
        r@ == csi() + seq!['2', '5', 'm'],
{
    termion::style::NoBlink.to_string()
}

/// Relies on termion's `style::NoInvert` (its `Display`): `ESC [ 27m`.
#[verifier::external_body]
pub(crate) fn sgr_no_invert() -> (r: String)
    ensures
        r@ == csi() + seq!['2', '7', 'm'],
{
    termion::style::NoInvert.to_string()
}

/// Relies on termion's `style::NoCrossedOut` (its `Display`): `ESC [ 29m`.
#[verifier::external_body]
pub(crate) fn sgr_no_crossed_out() -> (r: String)
    ensures
        r@ == csi() + seq!['2', '9', 'm'],
{
    termion::style::NoCrossedOut.to_string()
}

/// Relies on termion's `style::Framed` (its `Display`): `ESC [ 51m`.
#[verifier::external_body]
pub(crate) fn sgr_framed() -> (r: String)
    ensures
        r@ == csi() + seq!['5', '1', 'm'],
{
    termion::style::Framed.to_string()
}

} // verus!
