//! Text: the boundary to string functions of the standard library that
//! have no specification and to the `textwrap` crate, and what is built on
//! them. Where a function is marked as trusted, Verus reads its contract
//! and not its body.

use vstd::prelude::*;

verus! {

/// The tokens that `str::split_whitespace` yields for a text, in order.
pub uninterp spec fn whitespace_tokens(text: Seq<char>) -> Seq<Seq<char>>;

/// The text that `str::trim` leaves of a text.
pub uninterp spec fn trimmed(text: Seq<char>) -> Seq<char>;

/// The lines that `textwrap::wrap` breaks a text into for a given width,
/// with the crate's default options.
pub uninterp spec fn wrapped_lines(text: Seq<char>, width: usize) -> Seq<Seq<char>>;

/// The characters of each of the given strings.
pub open spec fn line_views(lines: Seq<String>) -> Seq<Seq<char>> {
    Seq::new(lines.len(), |i: int| lines[i]@)
}

/// Calls `str::split_whitespace` and copies each token it yields.
///
/// Trusted: the tokens are those that the standard library finds, as
/// documented the parts of the text between runs of whitespace.
#[verifier::external_body]
pub(crate) fn split_whitespace(text: &str) -> (tokens: Vec<String>)
    ensures
        line_views(tokens@) == whitespace_tokens(text@),
{
    text.split_whitespace().map(|token| token.to_string()).collect()
}

/// Calls `str::trim`.
///
/// Trusted: the result is the text without its leading and trailing
/// whitespace, as the standard library finds it.
#[verifier::external_body]
pub(crate) fn trim(text: &str) -> (rest: &str)
    ensures
        rest@ == trimmed(text@),
{
    text.trim()
}

/// Calls `textwrap::wrap` with a plain width and copies each line.
///
/// Trusted: the lines are those that the crate computes for this text and
/// width. With a width given as a number the crate cannot fail: by its
/// documentation the cost computation cannot overflow for widths that fit
/// in 64 bits.
#[verifier::external_body]
pub(crate) fn wrap(text: &str, width: usize) -> (lines: Vec<String>)
    ensures
        line_views(lines@) == wrapped_lines(text@, width),
{
    textwrap::wrap(text, width).iter().map(|line| line.to_string()).collect()
}

/// Whether `prefix` is how `text` begins.
pub open spec fn begins_with(text: Seq<char>, prefix: Seq<char>) -> bool {
    prefix.len() <= text.len() && text.subrange(0, prefix.len() as int) == prefix
}

/// Decides whether a text begins with the given prefix.
pub fn starts_with(text: &str, prefix: &str) -> (found: bool)
    ensures
        found == begins_with(text@, prefix@),
{
    let length: usize = prefix.unicode_len();
    if length > text.unicode_len() {
        return false;
    }
    let mut index: usize = 0;
    while index < length
        invariant
            index <= length,
            length == prefix@.len(),
            length <= text@.len(),
            text@.subrange(0, index as int) == prefix@.subrange(0, index as int),
        decreases length - index,
    {
        if text.get_char(index) != prefix.get_char(index) {
            assert(text@.subrange(0, length as int)[index as int] != prefix@[index as int]);
            return false;
        }
        assert(text@.subrange(0, index + 1) =~= text@.subrange(0, index as int).push(
            text@[index as int],
        ));
        assert(prefix@.subrange(0, index + 1) =~= prefix@.subrange(0, index as int).push(
            prefix@[index as int],
        ));
        index = index + 1;
    }
    assert(prefix@.subrange(0, length as int) =~= prefix@);
    true
}

/// Calls `String::push`.
///
/// Trusted: as documented, the character is appended to the end.
#[verifier::external_body]
pub(crate) fn push_char(text: &mut String, character: char)
    ensures
        final(text)@ == old(text)@.push(character),
{
    text.push(character);
}

/// Calls `String::pop`.
///
/// Trusted: as documented, the last character is removed and returned, and
/// an empty string gives `None`.
#[verifier::external_body]
pub(crate) fn pop_char(text: &mut String) -> (character: Option<char>)
    ensures
        old(text)@.len() == 0 ==> character.is_none() && final(text)@ == old(text)@,
        old(text)@.len() > 0 ==> character == Some(old(text)@.last()) && final(text)@ == old(
            text,
        )@.drop_last(),
{
    text.pop()
}

} // verus!
