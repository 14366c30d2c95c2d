//! Matching a candidate against a glob

use super::utils::{ascii_lower_case, ascii_lower_seq};
use super::MatchingFn;
use crate::commands::utils::CommandError;
use vstd::prelude::*;

verus! {

/// Whether `fast_glob::glob_match` matches the glob `glob` against `path`
pub uninterp spec fn glob_matches(glob: Seq<u8>, path: Seq<u8>) -> bool;

/// Calls `fast_glob::glob_match`.
///
/// Trusted: the result is taken to be `glob_matches` of the two byte strings, that is, to
/// depend on nothing but them. What the glob syntax means is not stated here.
#[verifier::external_body]
pub(crate) fn glob_match(glob: &[u8], path: &[u8]) -> (matched: bool)
    ensures
        matched == glob_matches(glob@, path@),
{
    fast_glob::glob_match(glob, path)
}

/// `candidate` is matched by `glob`; unless `case_sensitive`, both with their upper-case
/// ASCII letters turned to lower case
pub open spec fn spec_glob_match(candidate: Seq<u8>, glob: Seq<u8>, case_sensitive: bool) -> bool {
    if case_sensitive {
        glob_matches(glob, candidate)
    } else {
        glob_matches(ascii_lower_seq(glob), ascii_lower_seq(candidate))
    }
}

/// `glob` left open at its end: a `*` gets appended unless it already ends in one
pub open spec fn open_ended(glob: Seq<u8>) -> Seq<u8> {
    if glob.len() > 0 && glob.last() == 42 {
        glob
    } else {
        glob.push(42)
    }
}

/// How `ARGREP` matches `candidate` against `glob`: the glob is anchored at the start only
/// (see [`open_ended`]); unless `case_sensitive`, only the candidate gets its upper-case ASCII
/// letters turned to lower case and the glob is used as given
pub open spec fn spec_open_glob_match(candidate: Seq<u8>, glob: Seq<u8>, case_sensitive: bool) -> bool {
    if case_sensitive {
        glob_matches(open_ended(glob), candidate)
    } else {
        glob_matches(open_ended(glob), ascii_lower_seq(candidate))
    }
}

/// Builds the matching function that `ARGREP` uses for a glob (see [`spec_open_glob_match`])
pub fn open_ended_matcher(glob: Vec<u8>, case_sensitive: bool) -> (f: MatchingFn)
    ensures
        forall|c: Seq<u8>| f.spec_matches(c) == spec_open_glob_match(c, glob@, case_sensitive),
{
    let mut glob = glob;
    let ends_open = glob.len() > 0 && glob[glob.len() - 1] == 42;
    if !ends_open {
        glob.push(42);
    }
    MatchingFn::Glob { glob, case_sensitive }
}

/// Matcher that matches only iff the candidate matches the given glob
pub struct GlobMatcher {
    search_expr: Vec<u8>,
}

impl GlobMatcher {
    /// The glob
    pub closed spec fn spec_search_expr(&self) -> Seq<u8> {
        self.search_expr@
    }

    /// Builds a new matcher for the given glob
    pub fn new(search_expr: Vec<u8>) -> (matcher: Self)
        ensures
            matcher.spec_search_expr() == search_expr@,
    {
        Self { search_expr }
    }

    /// Gets the matching function for case-sensitive matching
    pub fn get_matcher_func_case_sensitive(self) -> (f: Result<MatchingFn, CommandError>)
        ensures
            f matches Ok(m) && forall|c: Seq<u8>|
                m.spec_matches(c) == spec_glob_match(c, self.spec_search_expr(), true),
    {
        Ok(MatchingFn::Glob { glob: self.search_expr, case_sensitive: true })
    }

    /// Gets the matching function for case-insensitive matching
    pub fn get_matcher_func_case_insensitive(self) -> (f: Result<MatchingFn, CommandError>)
        ensures
            f matches Ok(m) && forall|c: Seq<u8>|
                m.spec_matches(c) == spec_glob_match(c, self.spec_search_expr(), false),
    {
        let glob = ascii_lower_case(self.search_expr.as_slice());
        Ok(MatchingFn::Glob { glob, case_sensitive: false })
    }

    /// Gets one of the matcher functions
    pub fn get_matcher_func(self, case_sensitive: bool) -> (f: Result<MatchingFn, CommandError>)
        ensures
            f matches Ok(m) && forall|c: Seq<u8>|
                m.spec_matches(c) == spec_glob_match(c, self.spec_search_expr(), case_sensitive),
    {
        if case_sensitive {
            self.get_matcher_func_case_sensitive()
        } else {
            self.get_matcher_func_case_insensitive()
        }
    }
}

} // verus!
