//! Glob-pattern validity.
//!
//! Whether a pattern string is syntactically valid is decided by the glob
//! crate's parser. The parse is a pure function of the pattern string, so
//! its verdict is given a name that the configuration contracts use.

use vstd::prelude::*;

verus! {

/// The glob crate's parser accepts `s` as a well-formed pattern.
pub uninterp spec fn glob_pattern_valid(s: Seq<char>) -> bool;

/// Relies on glob::Pattern::new: a pure parse of the pattern string whose
/// verdict depends on the pattern's characters alone.
#[verifier::external_body]
pub(crate) fn pattern_is_valid(s: &str) -> (r: bool)
    ensures
        r == glob_pattern_valid(s@),
{
    glob::Pattern::new(s).is_ok()
}

} // verus!
