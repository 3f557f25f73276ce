//! Grapheme clusters and display widths, from the unicode-segmentation and
//! unicode-width crates.

use vstd::prelude::*;
use unicode_segmentation::UnicodeSegmentation;
use unicode_width::UnicodeWidthStr;

verus! {

/// The extended grapheme clusters of a text, in order.
pub uninterp spec fn grapheme_split(s: Seq<char>) -> Seq<Seq<char>>;

/// The number of terminal columns that a text occupies.
pub uninterp spec fn display_width(s: Seq<char>) -> nat;

/// Relies on unicode-segmentation's `UnicodeSegmentation::graphemes(s, true)`:
/// the extended grapheme clusters of `s`, in order.
#[verifier::external_body]
pub(crate) fn graphemes(s: &str) -> (r: Vec<String>)
    ensures
        r@.map_values(|g: String| g@) == grapheme_split(s@),
{
    s.graphemes(true).map(|g| g.to_string()).collect()
}

/// Relies on unicode-width's `UnicodeWidthStr::width`: the columns that `s` occupies.
#[verifier::external_body]
pub(crate) fn str_width(s: &str) -> (r: usize)
    ensures
        r == display_width(s@),
{
    UnicodeWidthStr::width(s)
}

} // verus!
