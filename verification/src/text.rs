//! The text buffer: a rope of characters with sub-linear range edits. The
//! buffer's contents are modelled as the character sequence `rope_chars`,
//! and every operation of the outside rope that the library relies on is
//! specified against that model.

use vstd::prelude::*;

verus! {

#[verifier::external_type_specification]
#[verifier::external_body]
pub struct ExRope(ropey::Rope);

/// The characters held by a rope, in order.
pub uninterp spec fn rope_chars(r: ropey::Rope) -> Seq<char>;

/// Relies on ropey::Rope::from_str: the new rope holds exactly the
/// characters of the given text.
#[verifier::external_body]
pub(crate) fn rope_from_str(text: &str) -> (r: ropey::Rope)
    ensures
        rope_chars(r) == text@,
{
    ropey::Rope::from_str(text)
}

/// Relies on ropey::Rope::clone: a clone holds the same characters.
#[verifier::external_body]
pub(crate) fn rope_clone(r: &ropey::Rope) -> (c: ropey::Rope)
    ensures
        rope_chars(c) == rope_chars(*r),
{
    r.clone()
}

/// Relies on ropey::Rope::len_chars: the number of characters in the rope.
#[verifier::external_body]
pub(crate) fn rope_len_chars(r: &ropey::Rope) -> (n: usize)
    ensures
        n == rope_chars(*r).len(),
{
    r.len_chars()
}

/// Relies on ropey::Rope::char: the character at a character index.
#[verifier::external_body]
pub(crate) fn rope_char_at(r: &ropey::Rope, idx: usize) -> (c: char)
    requires
        idx < rope_chars(*r).len(),
    ensures
        c == rope_chars(*r)[idx as int],
{
    r.char(idx)
}

/// Relies on ropey::Rope::remove: removes the half-open character range
/// `[start, end)`.
#[verifier::external_body]
pub(crate) fn rope_remove(r: &mut ropey::Rope, start: usize, end: usize)
    requires
        start <= end <= rope_chars(*old(r)).len(),
    ensures
        rope_chars(*final(r)) == rope_chars(*old(r)).take(start as int) + rope_chars(
            *old(r),
        ).skip(end as int),
{
    r.remove(start..end)
}

/// Relies on ropey::Rope::insert: inserts the text's characters at a
/// character index.
#[verifier::external_body]
pub(crate) fn rope_insert(r: &mut ropey::Rope, at: usize, text: &str)
    requires
        at <= rope_chars(*old(r)).len(),
    ensures
        rope_chars(*final(r)) == rope_chars(*old(r)).take(at as int) + text@ + rope_chars(
            *old(r),
        ).skip(at as int),
{
    r.insert(at, text)
}

/// Relies on ropey::Rope's Display impl: the full materialized text holds
/// exactly the rope's characters.
#[verifier::external_body]
pub(crate) fn rope_to_string(r: &ropey::Rope) -> (s: String)
    ensures
        s@ == rope_chars(*r),
{
    r.to_string()
}

/// Relies on ropey::Rope::chars: iterating yields the rope's characters in
/// order.
#[verifier::external_body]
pub(crate) fn rope_chars_vec(r: &ropey::Rope) -> (v: Vec<char>)
    ensures
        v@ == rope_chars(*r),
{
    r.chars().collect()
}

} // verus!
