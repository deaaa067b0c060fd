//! Where a text may be broken into lines.
//!
//! The break opportunities are those of the `unicode_linebreak` crate, which
//! follows Unicode Standard Annex 14. Nothing in this file is proved.

use unicode_linebreak::{linebreaks, BreakOpportunity};
use vstd::prelude::*;

verus! {

/// The line break opportunities of `text`, in the order in which they are
/// found. Each is the offset of the character after the break, counted in
/// bytes of the text's UTF-8 form, and whether the line must break there.
pub uninterp spec fn line_breaks(text: Seq<char>) -> Seq<(usize, bool)>;

/// `unicode_linebreak::linebreaks`, collected: every break opportunity of
/// `text`, with `true` for a mandatory break.
#[verifier::external_body]
pub(crate) fn find_breaks(text: &str) -> (breaks: Vec<(usize, bool)>)
    ensures
        breaks@ == line_breaks(text@),
{
    linebreaks(text).map(
        |(offset, kind)|
            match kind {
                BreakOpportunity::Mandatory => (offset, true),
                BreakOpportunity::Allowed => (offset, false),
            },
    ).collect()
}

/// `String::push`: appends one character.
#[verifier::external_body]
pub(crate) fn push_char(s: &mut String, c: char)
    ensures
        final(s)@ == old(s)@.push(c),
{
    s.push(c)
}

} // verus!
