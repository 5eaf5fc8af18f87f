//! Standard-library string operations that the routing code relies on,
//! stated over character sequences.

use vstd::prelude::*;

verus! {

/// `str::starts_with` for a string pattern: true exactly when `prefix` is a
/// literal prefix of `text`. Trusted, not proved: the standard library
/// compares the two slices byte by byte, which on well-formed strings is the
/// same as comparing them character by character.
#[verifier::external_body]
pub(crate) fn starts_with(text: &str, prefix: &str) -> (found: bool)
    ensures
        found == prefix@.is_prefix_of(text@),
{
    text.starts_with(prefix)
}

/// `str::strip_prefix` for a string pattern: the part of `text` behind
/// `prefix` when `text` starts with it, and `None` when it does not.
/// Trusted, not proved.
#[verifier::external_body]
pub(crate) fn strip_prefix<'a>(text: &'a str, prefix: &str) -> (rest: Option<&'a str>)
    ensures
        rest.is_some() == prefix@.is_prefix_of(text@),
        rest matches Some(tail) ==> tail@ == text@.skip(prefix@.len() as int),
{
    text.strip_prefix(prefix)
}

/// Whether two strings hold the same characters.
pub fn same_text(left: &str, right: &str) -> (same: bool)
    ensures
        same == (left@ == right@),
{
    match strip_prefix(left, right) {
        Some(tail) => {
            let same = tail.is_empty();
            proof {
                if same {
                    assert(left@ =~= right@);
                }
            }
            same
        },
        None => {
            proof {
                if left@ == right@ {
                    assert(right@.is_prefix_of(left@));
                }
            }
            false
        },
    }
}

} // verus!
