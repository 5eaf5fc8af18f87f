//! Construction of the address that a proxied request is forwarded to.

use vstd::prelude::*;
use vstd::string::*;
use crate::text::strip_prefix;

verus! {

/// The path handed to the upstream for an inbound `path` that matched
/// `prefix`: `/` when the two are equal, else `path` without the prefix.
/// A path that does not start with the prefix is passed on unchanged.
pub open spec fn spec_upstream_path(prefix: Seq<char>, path: Seq<char>) -> Seq<char> {
    if path == prefix {
        seq!['/']
    } else if prefix.is_prefix_of(path) {
        path.skip(prefix.len() as int)
    } else {
        path
    }
}

/// The upstream path followed by `?` and the query string, when there is one.
pub open spec fn spec_relative_target(
    prefix: Seq<char>,
    path: Seq<char>,
    query: Option<Seq<char>>,
) -> Seq<char> {
    match query {
        Some(q) => spec_upstream_path(prefix, path) + seq!['?'] + q,
        None => spec_upstream_path(prefix, path),
    }
}

/// The characters of an optional string.
pub open spec fn spec_query(query: Option<&str>) -> Option<Seq<char>> {
    match query {
        Some(q) => Some(q@),
        None => None,
    }
}

/// Computes the path that the upstream sees for an inbound `path`.
pub fn upstream_path(prefix: &str, path: &str) -> (relative: String)
    ensures
        relative@ == spec_upstream_path(prefix@, path@),
{
    match strip_prefix(path, prefix) {
        Some(tail) => {
            if tail.is_empty() {
                proof {
                    reveal_strlit("/");
                    assert(path@ =~= prefix@);
                    assert("/"@ =~= seq!['/']);
                }
                String::from_str("/")
            } else {
                proof {
                    assert(path@.len() != prefix@.len());
                }
                String::from_str(tail)
            }
        },
        None => {
            proof {
                if path@ == prefix@ {
                    assert(prefix@.is_prefix_of(path@));
                }
            }
            String::from_str(path)
        },
    }
}

/// Computes the upstream path with the query string appended unchanged.
pub fn relative_target(prefix: &str, path: &str, query: Option<&str>) -> (target: String)
    ensures
        target@ == spec_relative_target(prefix@, path@, spec_query(query)),
{
    let mut target = upstream_path(prefix, path);
    match query {
        Some(q) => {
            proof {
                reveal_strlit("?");
                assert("?"@ =~= seq!['?']);
            }
            target.append("?");
            target.append(q);
        },
        None => {},
    }
    target
}

/// Joins an upstream base address and a relative target into the address of
/// one attempt.
pub fn upstream_url(base: &str, target: &str) -> (url: String)
    ensures
        url@ == base@ + target@,
{
    let mut url = String::from_str(base);
    url.append(target);
    url
}

} // verus!
