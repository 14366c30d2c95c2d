//! Matching a candidate that contains a search expression

use super::utils::{ascii_lower_case, ascii_lower_seq};
use super::MatchingFn;
use crate::commands::utils::CommandError;
use vstd::prelude::*;

verus! {

/// `search_expr` occurs in `candidate` as a run of consecutive bytes
pub open spec fn spec_contains(candidate: Seq<u8>, search_expr: Seq<u8>) -> bool {
    exists|i: int|
        0 <= i && i + search_expr.len() <= candidate.len() && #[trigger] candidate.subrange(
            i,
            i + search_expr.len(),
        ) == search_expr
}

/// `candidate` contains `search_expr`, up to the ASCII case of letters unless `case_sensitive`
pub open spec fn spec_contains_match(candidate: Seq<u8>, search_expr: Seq<u8>, case_sensitive: bool) -> bool {
    if case_sensitive {
        spec_contains(candidate, search_expr)
    } else {
        spec_contains(ascii_lower_seq(candidate), ascii_lower_seq(search_expr))
    }
}

/// Checks whether a search expression occurs in a candidate (an empty one occurs in every
/// candidate)
pub fn contains(candidate: &[u8], search_expr: &[u8]) -> (found: bool)
    ensures
        found == spec_contains(candidate@, search_expr@),
{
    let n = search_expr.len();
    if n == 0 {
        assert(candidate@.subrange(0, 0 + search_expr@.len() as int) =~= search_expr@);
        return true;
    }
    if n > candidate.len() {
        return false;
    }
    let len = candidate.len();
    let last_start = len - n;
    let mut start: usize = 0;
    while start <= last_start
        invariant
            n == search_expr@.len(),
            n > 0,
            n <= candidate@.len(),
            last_start == len - n,
            len == candidate@.len(),
            start <= last_start + 1,
            forall|i: int|
                0 <= i < start ==> #[trigger] candidate@.subrange(i, i + n) != search_expr@,
        decreases last_start + 1 - start,
    {
        let mut j: usize = 0;
        let mut equal = true;
        while j < n
            invariant
                n == search_expr@.len(),
                n > 0,
                n <= candidate@.len(),
                start <= last_start,
                last_start == len - n,
            len == candidate@.len(),
                j <= n,
                equal == (forall|k: int| 0 <= k < j ==> candidate@[start + k] == search_expr@[k]),
            decreases n - j,
        {
            if candidate[start + j] != search_expr[j] {
                equal = false;
            }
            j = j + 1;
        }
        if equal {
            assert(candidate@.subrange(start as int, start + n) =~= search_expr@);
            return true;
        }
        assert(candidate@.subrange(start as int, start + n) != search_expr@) by {
            let k = choose|k: int| 0 <= k < n && candidate@[start + k] != search_expr@[k];
            assert(candidate@.subrange(start as int, start + n)[k] != search_expr@[k]);
        }
        start = start + 1;
    }
    false
}

/// Matcher that matches only iff the candidate contains the search expression
pub struct ContainsMatcher {
    search_expr: Vec<u8>,
}

impl ContainsMatcher {
    /// The search expression
    pub closed spec fn spec_search_expr(&self) -> Seq<u8> {
        self.search_expr@
    }

    /// Builds a new matcher for the given search expression
    pub fn new(search_expr: Vec<u8>) -> (matcher: Self)
        ensures
            matcher.spec_search_expr() == search_expr@,
    {
        Self { search_expr }
    }

    /// Gets the matching function for case-sensitive matching
    pub fn get_matcher_func_case_sensitive(self) -> (f: Result<MatchingFn, CommandError>)
        ensures
            f matches Ok(m) && forall|c: Seq<u8>| m.spec_matches(c) == spec_contains_match(c, self.spec_search_expr(), true),
    {
        Ok(MatchingFn::Contains { search_expr: self.search_expr, case_sensitive: true })
    }

    /// Gets the matching function for case-insensitive matching
    pub fn get_matcher_func_case_insensitive(self) -> (f: Result<MatchingFn, CommandError>)
        ensures
            f matches Ok(m) && forall|c: Seq<u8>| m.spec_matches(c) == spec_contains_match(c, self.spec_search_expr(), false),
    {
        let search_expr_lc = ascii_lower_case(self.search_expr.as_slice());
        Ok(MatchingFn::Contains { search_expr: search_expr_lc, case_sensitive: false })
    }

    /// Gets one of the matcher functions
    pub fn get_matcher_func(self, case_sensitive: bool) -> (f: Result<MatchingFn, CommandError>)
        ensures
            f matches Ok(m) && forall|c: Seq<u8>| m.spec_matches(c) == spec_contains_match(c, self.spec_search_expr(), case_sensitive),
    {
        if case_sensitive {
            self.get_matcher_func_case_sensitive()
        } else {
            self.get_matcher_func_case_insensitive()
        }
    }
}

} // verus!
