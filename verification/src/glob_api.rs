//! Trusted boundary around the glob crate (and `str::trim`).
//!
//! Whether a pattern compiles, and whether a compiled pattern matches a path,
//! are decided by the glob crate; both outcomes are functions of the texts
//! alone, so they are given names here and every contract of the library
//! speaks of those names.

use vstd::prelude::*;

verus! {

/// Whether the glob crate accepts `pattern` as a syntactically valid glob
/// expression, i.e. whether `glob::Pattern::new` returns `Ok` on it.
pub uninterp spec fn glob_valid(pattern: Seq<char>) -> bool;

/// Whether the compiled form of the valid glob `pattern` matches `path`,
/// i.e. what `glob::Pattern::matches_path` returns on them.
pub uninterp spec fn glob_match(pattern: Seq<char>, path: Seq<char>) -> bool;

/// What `str::trim` leaves of `s`: `s` without its leading and trailing
/// whitespace.
pub uninterp spec fn trim_of(s: Seq<char>) -> Seq<char>;

/// Relies on glob::Pattern::new: a pattern text either compiles to a matcher
/// or is reported invalid, depending on the text alone.
#[verifier::external_body]
pub(crate) fn glob_compiles(pattern: &str) -> (r: bool)
    ensures
        r == glob_valid(pattern@),
{
    glob::Pattern::new(pattern).is_ok()
}

/// Relies on glob::Pattern::new and glob::Pattern::matches_path: a valid
/// pattern is compiled and matched against `path`; the result depends on the
/// two texts alone. The precondition keeps the `unwrap` from panicking.
#[verifier::external_body]
pub(crate) fn glob_matches(pattern: &str, path: &str) -> (r: bool)
    requires
        glob_valid(pattern@),
    ensures
        r == glob_match(pattern@, path@),
{
    glob::Pattern::new(pattern).unwrap().matches_path(std::path::Path::new(path))
}

/// Relies on str::trim: returns `s` without leading and trailing whitespace,
/// a function of the characters of `s` alone.
#[verifier::external_body]
pub(crate) fn trim(s: &str) -> (r: &str)
    ensures
        r@ == trim_of(s@),
{
    s.trim()
}

} // verus!
