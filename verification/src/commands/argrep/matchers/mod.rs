//! Matcher implementations for `ARGREP`

pub mod contains;
pub mod exact;
pub mod glob;
pub mod regex_matcher;
pub mod utils;

use vstd::prelude::*;

pub use contains::{ContainsMatcher, spec_contains};
pub use exact::{ExactMatcher, bytes_equal, eq_ignore_ascii_case};
pub use glob::{GlobMatcher, glob_matches};
pub use regex_matcher::{CompiledRegex, RegexMatcher, regex_matches};
use glob::glob_match;
use regex_matcher::regex_is_match;
pub use utils::{ascii_lower_case, ascii_lower_seq};

verus! {

/// A ready-to-use check of a candidate
pub enum MatchingFn {
    /// The candidate equals the expression (up to ASCII case unless `case_sensitive`)
    Exact { search_expr: Vec<u8>, case_sensitive: bool },
    /// The candidate contains the expression; unless `case_sensitive` the expression is
    /// held in lower case and the candidate gets lowered before the search
    Contains { search_expr: Vec<u8>, case_sensitive: bool },
    /// The glob matches the candidate; unless `case_sensitive` the candidate gets lowered
    /// before matching (the glob is used as held)
    Glob { glob: Vec<u8>, case_sensitive: bool },
    /// The regular expression finds a match in the candidate
    Regex { compiled: CompiledRegex },
}

impl MatchingFn {
    /// What the check answers for `candidate`
    pub open spec fn spec_matches(&self, candidate: Seq<u8>) -> bool {
        match self {
            MatchingFn::Exact { search_expr, case_sensitive } => if *case_sensitive {
                candidate == search_expr@
            } else {
                ascii_lower_seq(candidate) == ascii_lower_seq(search_expr@)
            },
            MatchingFn::Contains { search_expr, case_sensitive } => if *case_sensitive {
                spec_contains(candidate, search_expr@)
            } else {
                spec_contains(ascii_lower_seq(candidate), search_expr@)
            },
            MatchingFn::Glob { glob, case_sensitive } => if *case_sensitive {
                glob_matches(glob@, candidate)
            } else {
                glob_matches(glob@, ascii_lower_seq(candidate))
            },
            MatchingFn::Regex { compiled } => regex_matches(
                compiled.spec_pattern(),
                compiled.spec_case_insensitive(),
                candidate,
            ),
        }
    }

    /// Checks a candidate
    pub fn matches(&self, candidate: &[u8]) -> (matched: bool)
        ensures
            matched == self.spec_matches(candidate@),
    {
        match self {
            MatchingFn::Exact { search_expr, case_sensitive } => {
                if *case_sensitive {
                    bytes_equal(candidate, search_expr.as_slice())
                } else {
                    eq_ignore_ascii_case(candidate, search_expr.as_slice())
                }
            },
            MatchingFn::Contains { search_expr, case_sensitive } => {
                if *case_sensitive {
                    contains::contains(candidate, search_expr.as_slice())
                } else {
                    let lower = ascii_lower_case(candidate);
                    contains::contains(lower.as_slice(), search_expr.as_slice())
                }
            },
            MatchingFn::Glob { glob, case_sensitive } => {
                if *case_sensitive {
                    glob_match(glob.as_slice(), candidate)
                } else {
                    let lower = ascii_lower_case(candidate);
                    glob_match(glob.as_slice(), lower.as_slice())
                }
            },
            MatchingFn::Regex { compiled } => regex_is_match(compiled, candidate),
        }
    }
}

} // verus!
