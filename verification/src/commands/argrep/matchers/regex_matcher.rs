//! Matching a candidate against a regular expression

use super::MatchingFn;
use crate::commands::utils::CommandError;
use vstd::prelude::*;

verus! {

/// A compiled regular expression of the `regex` crate
#[verifier::external_type_specification]
#[verifier::external_body]
pub struct ExRegex(::regex::bytes::Regex);

/// Whether `regex::bytes::RegexBuilder` builds a regular expression from `pattern`, with the
/// given case insensitivity
pub uninterp spec fn regex_compiles(pattern: Seq<char>, case_insensitive: bool) -> bool;

/// Whether the regular expression built from `pattern` (with the given case insensitivity)
/// finds a match anywhere in `haystack`, as `regex::bytes::Regex::is_match` reports it
pub uninterp spec fn regex_matches(pattern: Seq<char>, case_insensitive: bool, haystack: Seq<u8>) -> bool;

/// A regular expression along with the pattern and the case insensitivity it was built from
///
/// Only [`build_regex`] builds values of this type, so `regex` always is the compiled
/// `pattern`.
pub struct CompiledRegex {
    pattern: String,
    case_insensitive: bool,
    regex: ::regex::bytes::Regex,
}

impl CompiledRegex {
    /// The pattern the regular expression was built from
    pub closed spec fn spec_pattern(&self) -> Seq<char> {
        self.pattern@
    }

    /// Whether the regular expression ignores case
    pub closed spec fn spec_case_insensitive(&self) -> bool {
        self.case_insensitive
    }
}

/// Builds a regular expression with `regex::bytes::RegexBuilder` (`new`,
/// `case_insensitive`, `build`).
///
/// Trusted: the build is taken to succeed exactly when `regex_compiles` holds of the pattern
/// and the case insensitivity, and the result keeps the pattern and the case insensitivity
/// that the regular expression was built from. Which patterns compile is not stated here.
#[verifier::external_body]
pub(crate) fn build_regex(pattern: String, case_insensitive: bool) -> (compiled: Option<CompiledRegex>)
    ensures
        compiled is Some <==> regex_compiles(pattern@, case_insensitive),
        compiled matches Some(c) ==> c.spec_pattern() == pattern@ && c.spec_case_insensitive()
            == case_insensitive,
{
    match ::regex::bytes::RegexBuilder::new(&pattern).case_insensitive(case_insensitive).build() {
        Ok(regex) => Some(CompiledRegex { pattern, case_insensitive, regex }),
        Err(_) => None,
    }
}

/// Calls `regex::bytes::Regex::is_match` on the compiled regular expression.
///
/// Trusted: the result is taken to be `regex_matches` of the pattern and the case
/// insensitivity the regular expression was built from, and of the haystack. What the
/// regular expression syntax means is not stated here.
#[verifier::external_body]
pub(crate) fn regex_is_match(compiled: &CompiledRegex, haystack: &[u8]) -> (matched: bool)
    ensures
        matched == regex_matches(compiled.spec_pattern(), compiled.spec_case_insensitive(), haystack@),
{
    compiled.regex.is_match(haystack)
}

/// Matcher that matches iff the regular expression finds a match in the candidate
pub struct RegexMatcher {
    search_expr: String,
}

impl RegexMatcher {
    /// The pattern of the regular expression
    pub closed spec fn spec_search_expr(&self) -> Seq<char> {
        self.search_expr@
    }

    /// Builds a new matcher for the given regular expression
    pub fn new(search_expr: String) -> (matcher: Self)
        ensures
            matcher.spec_search_expr() == search_expr@,
    {
        Self { search_expr }
    }

    /// Gets the matching function for case-sensitive matching
    pub fn get_matcher_func_case_sensitive(self) -> (f: Result<MatchingFn, CommandError>)
        ensures
            f is Ok <==> regex_compiles(self.spec_search_expr(), false),
            f is Err ==> f == Err::<MatchingFn, CommandError>(CommandError::InvalidRegex),
            f matches Ok(m) ==> forall|c: Seq<u8>|
                m.spec_matches(c) == regex_matches(self.spec_search_expr(), false, c),
    {
        match build_regex(self.search_expr, false) {
            Some(compiled) => Ok(MatchingFn::Regex { compiled }),
            None => Err(CommandError::InvalidRegex),
        }
    }

    /// Gets the matching function for case-insensitive matching
    pub fn get_matcher_func_case_insensitive(self) -> (f: Result<MatchingFn, CommandError>)
        ensures
            f is Ok <==> regex_compiles(self.spec_search_expr(), true),
            f is Err ==> f == Err::<MatchingFn, CommandError>(CommandError::InvalidRegex),
            f matches Ok(m) ==> forall|c: Seq<u8>|
                m.spec_matches(c) == regex_matches(self.spec_search_expr(), true, c),
    {
        match build_regex(self.search_expr, true) {
            Some(compiled) => Ok(MatchingFn::Regex { compiled }),
            None => Err(CommandError::InvalidRegex),
        }
    }

    /// Gets one of the matcher functions
    pub fn get_matcher_func(self, case_sensitive: bool) -> (f: Result<MatchingFn, CommandError>)
        ensures
            f is Ok <==> regex_compiles(self.spec_search_expr(), !case_sensitive),
            f is Err ==> f == Err::<MatchingFn, CommandError>(CommandError::InvalidRegex),
            f matches Ok(m) ==> forall|c: Seq<u8>|
                m.spec_matches(c) == regex_matches(self.spec_search_expr(), !case_sensitive, c),
    {
        if case_sensitive {
            self.get_matcher_func_case_sensitive()
        } else {
            self.get_matcher_func_case_insensitive()
        }
    }
}

} // verus!
