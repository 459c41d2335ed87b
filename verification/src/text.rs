//! Prefix tests and quoting of text, as the standard library computes them.

use vstd::prelude::*;

verus! {

/// Calls `str::strip_prefix` with a string pattern: where `text` starts with
/// `prefix`, what follows the prefix; otherwise nothing.
#[verifier::external_body]
pub(crate) fn strip_prefix<'a>(text: &'a str, prefix: &str) -> (r: Option<&'a str>)
    ensures
        match r {
            Some(rest) => prefix@.is_prefix_of(text@) && rest@ == text@.skip(prefix@.len() as int),
            None => !prefix@.is_prefix_of(text@),
        },
{
    text.strip_prefix(prefix)
}

/// Whether the characters of `prefix` are the first characters of `text`.
pub(crate) fn starts_with(text: &str, prefix: &str) -> (r: bool)
    ensures
        r == prefix@.is_prefix_of(text@),
{
    strip_prefix(text, prefix).is_some()
}

/// The text that `Debug` formatting gives for a string.
pub uninterp spec fn str_debug(text: Seq<char>) -> Seq<char>;

/// Formats a string with the `Debug` impl of `str`.
#[verifier::external_body]
pub(crate) fn debug_text(text: &str) -> (r: String)
    ensures
        r@ == str_debug(text@),
{
    format!("{:?}", text)
}

} // verus!
