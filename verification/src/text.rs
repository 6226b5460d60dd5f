//! Text operations that are taken from the standard library and from the
//! `unicode-width` crate. Their contracts are assumed, not proved.

use unicode_width::UnicodeWidthStr;
use vstd::prelude::*;

verus! {

/// What `str::trim` returns for a string with the given characters: the
/// string without its leading and trailing Unicode whitespace.
pub uninterp spec fn trimmed(s: Seq<char>) -> Seq<char>;

/// What `str::to_uppercase` returns for a string with the given characters:
/// its Unicode upper-case form.
pub uninterp spec fn uppercased(s: Seq<char>) -> Seq<char>;

/// What `UnicodeWidthStr::width` returns for a string with the given
/// characters: the number of terminal columns it occupies.
pub uninterp spec fn display_width(s: Seq<char>) -> nat;

/// Calls `str::trim`. Assumed: the result depends on the characters of `s`
/// alone; it is called `trimmed(s@)`.
#[verifier::external_body]
pub(crate) fn trim(s: &str) -> (r: &str)
    ensures
        r@ == trimmed(s@),
{
    s.trim()
}

/// Calls `str::to_uppercase`. Assumed: the result depends on the characters
/// of `s` alone; it is called `uppercased(s@)`.
#[verifier::external_body]
pub(crate) fn to_uppercase(s: &str) -> (r: String)
    ensures
        r@ == uppercased(s@),
{
    s.to_uppercase()
}

/// Calls `String::push`. Assumed: `c` is appended to the end of `s` and
/// nothing else changes.
#[verifier::external_body]
pub(crate) fn push_char(s: &mut String, c: char)
    ensures
        final(s)@ == old(s)@.push(c),
{
    s.push(c)
}

/// Calls `UnicodeWidthStr::width` on a `str`. Assumed: the result depends on
/// the characters of `s` alone; it is called `display_width(s@)`.
#[verifier::external_body]
pub(crate) fn str_width(s: &str) -> (w: usize)
    ensures
        w == display_width(s@),
{
    UnicodeWidthStr::width(s)
}

} // verus!
