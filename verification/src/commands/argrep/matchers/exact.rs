//! Matching a candidate against a search expression as a whole

use super::utils::{ascii_lower_seq, spec_ascii_lower};
use super::MatchingFn;
use crate::commands::utils::CommandError;
use vstd::prelude::*;

verus! {

/// `candidate` is `search_expr`, up to the ASCII case of letters unless `case_sensitive`
pub open spec fn spec_exact_match(candidate: Seq<u8>, search_expr: Seq<u8>, case_sensitive: bool) -> bool {
    if case_sensitive {
        candidate == search_expr
    } else {
        ascii_lower_seq(candidate) == ascii_lower_seq(search_expr)
    }
}

/// Compares two byte strings, ignoring the ASCII case of letters
pub fn eq_ignore_ascii_case(a: &[u8], b: &[u8]) -> (equal: bool)
    ensures
        equal == (ascii_lower_seq(a@) == ascii_lower_seq(b@)),
{
    if a.len() != b.len() {
        assert(ascii_lower_seq(a@).len() != ascii_lower_seq(b@).len());
        return false;
    }
    let mut i: usize = 0;
    while i < a.len()
        invariant
            a@.len() == b@.len(),
            i <= a@.len(),
            forall|j: int| 0 <= j < i ==> spec_ascii_lower(#[trigger] a@[j]) == spec_ascii_lower(b@[j]),
        decreases a@.len() - i,
    {
        let x = a[i];
        let y = b[i];
        let lx = if 65 <= x && x <= 90 {
            x + 32
        } else {
            x
        };
        let ly = if 65 <= y && y <= 90 {
            y + 32
        } else {
            y
        };
        if lx != ly {
            assert(ascii_lower_seq(a@)[i as int] != ascii_lower_seq(b@)[i as int]);
            return false;
        }
        i = i + 1;
    }
    assert(ascii_lower_seq(a@) =~= ascii_lower_seq(b@));
    true
}

/// Compares two byte strings
pub fn bytes_equal(a: &[u8], b: &[u8]) -> (equal: bool)
    ensures
        equal == (a@ == b@),
{
    if a.len() != b.len() {
        return false;
    }
    let mut i: usize = 0;
    while i < a.len()
        invariant
            a@.len() == b@.len(),
            i <= a@.len(),
            forall|j: int| 0 <= j < i ==> #[trigger] a@[j] == b@[j],
        decreases a@.len() - i,
    {
        if a[i] != b[i] {
            return false;
        }
        i = i + 1;
    }
    assert(a@ =~= b@);
    true
}

/// Matcher that matches only iff the candidate and the search expression are the same
pub struct ExactMatcher {
    search_expr: Vec<u8>,
}

impl ExactMatcher {
    /// The search expression
    pub closed spec fn spec_search_expr(&self) -> Seq<u8> {
        self.search_expr@
    }

    /// Builds a new matcher for the given search expression
    pub fn new(search_expr: Vec<u8>) -> (matcher: Self)
        ensures
            matcher.spec_search_expr() == search_expr@,
    {
        Self { search_expr }
    }

    /// Gets the matching function for case-sensitive matching
    pub fn get_matcher_func_case_sensitive(self) -> (f: Result<MatchingFn, CommandError>)
        ensures
            f matches Ok(m) && forall|c: Seq<u8>|
                m.spec_matches(c) == spec_exact_match(c, self.spec_search_expr(), true),
    {
        Ok(MatchingFn::Exact { search_expr: self.search_expr, case_sensitive: true })
    }

    /// Gets the matching function for case-insensitive matching
    pub fn get_matcher_func_case_insensitive(self) -> (f: Result<MatchingFn, CommandError>)
        ensures
            f matches Ok(m) && forall|c: Seq<u8>|
                m.spec_matches(c) == spec_exact_match(c, self.spec_search_expr(), false),
    {
        Ok(MatchingFn::Exact { search_expr: self.search_expr, case_sensitive: false })
    }

    /// Gets one of the matcher functions
    pub fn get_matcher_func(self, case_sensitive: bool) -> (f: Result<MatchingFn, CommandError>)
        ensures
            f matches Ok(m) && forall|c: Seq<u8>|
                m.spec_matches(c) == spec_exact_match(c, self.spec_search_expr(), case_sensitive),
    {
        if case_sensitive {
            self.get_matcher_func_case_sensitive()
        } else {
            self.get_matcher_func_case_insensitive()
        }
    }
}

} // verus!
