//! The `ARGREP` command: searching a range of an array for values that match

pub mod matchers;

use crate::array::range::positions_between;
use crate::array::{Array, Range};
use crate::commands::utils::{
    ArgIter, CommandError, Keyword, command_args, err_if_further_arguments, is_keyword,
    spec_next_start_end, spec_next_u64,
};
use crate::utils::string_from_utf8;
use matchers::contains::spec_contains_match;
use matchers::exact::spec_exact_match;
use matchers::glob::{open_ended_matcher, spec_open_glob_match};
use matchers::regex_matcher::regex_compiles;
use matchers::{ContainsMatcher, ExactMatcher, MatchingFn, RegexMatcher, regex_matches};
use vstd::prelude::*;
use vstd::utf8::{decode_utf8, valid_utf8};

verus! {

/// What a [`SubstituteMatcher`] asks for
pub enum MatcherSpec {
    Exact(Seq<u8>),
    Contains(Seq<u8>),
    Glob(Seq<u8>),
    Regex(Seq<char>),
}

impl MatcherSpec {
    /// Whether `candidate` is a match
    pub open spec fn spec_matches(self, case_sensitive: bool, candidate: Seq<u8>) -> bool {
        match self {
            MatcherSpec::Exact(e) => spec_exact_match(candidate, e, case_sensitive),
            MatcherSpec::Contains(e) => spec_contains_match(candidate, e, case_sensitive),
            MatcherSpec::Glob(e) => spec_open_glob_match(candidate, e, case_sensitive),
            MatcherSpec::Regex(p) => regex_matches(p, !case_sensitive, candidate),
        }
    }

    /// Whether the matcher can be built (only a regular expression can fail to compile)
    pub open spec fn compiles(self, case_sensitive: bool) -> bool {
        match self {
            MatcherSpec::Regex(p) => regex_compiles(p, !case_sensitive),
            _ => true,
        }
    }
}

/// Specification for a single match
pub enum SubstituteMatcher {
    /// Matches iff the found item matches the given one exactly
    Exact(Vec<u8>),

    /// Matches iff the found item contains the given one (aka substring search)
    Contains(Vec<u8>),

    /// Matches iff the found item is matched by the given glob
    ///
    /// The glob is anchored at the beginning, but not at the end: it gets a `*` appended if
    /// it does not end in one yet.
    ///
    /// Case-insensitive matching only converts the found items' ASCII upper case characters
    /// to lower case and matches the glob as given.
    Glob(Vec<u8>),

    /// Matches iff the found item is matched by the given regular expression
    ///
    /// The regular expressions are not anchored (neither at the start nor the end).
    Regex(String),
}

impl View for SubstituteMatcher {
    type V = MatcherSpec;

    open spec fn view(&self) -> MatcherSpec {
        match self {
            SubstituteMatcher::Exact(e) => MatcherSpec::Exact(e@),
            SubstituteMatcher::Contains(e) => MatcherSpec::Contains(e@),
            SubstituteMatcher::Glob(e) => MatcherSpec::Glob(e@),
            SubstituteMatcher::Regex(p) => MatcherSpec::Regex(p@),
        }
    }
}

impl SubstituteMatcher {
    /// Builds the matching function, failing if a regular expression does not compile
    pub fn get_matcher(self, case_sensitive: bool) -> (f: Result<MatchingFn, CommandError>)
        ensures
            f is Ok <==> self@.compiles(case_sensitive),
            f is Err ==> f == Err::<MatchingFn, CommandError>(CommandError::InvalidRegex),
            f matches Ok(m) ==> forall|c: Seq<u8>|
                m.spec_matches(c) == self@.spec_matches(case_sensitive, c),
    {
        match self {
            SubstituteMatcher::Exact(expr) => ExactMatcher::new(expr).get_matcher_func(
                case_sensitive,
            ),
            SubstituteMatcher::Contains(expr) => ContainsMatcher::new(expr).get_matcher_func(
                case_sensitive,
            ),
            SubstituteMatcher::Glob(expr) => Ok(open_ended_matcher(expr, case_sensitive)),
            SubstituteMatcher::Regex(expr) => RegexMatcher::new(expr).get_matcher_func(
                case_sensitive,
            ),
        }
    }
}

/// The options of `ARGREP`
pub struct ArgrepOptions {
    pub matchers: Seq<MatcherSpec>,
    pub limit: Option<u64>,
    pub case_sensitive: bool,
    pub with_values: bool,
    pub conjunctive: bool,
}

/// The options before any option is read
pub open spec fn default_argrep_options() -> ArgrepOptions {
    ArgrepOptions {
        matchers: Seq::empty(),
        limit: None,
        case_sensitive: true,
        with_values: false,
        conjunctive: false,
    }
}

/// `o` with one more matcher
pub open spec fn with_matcher(o: ArgrepOptions, m: MatcherSpec) -> ArgrepOptions {
    ArgrepOptions {
        matchers: o.matchers.push(m),
        limit: o.limit,
        case_sensitive: o.case_sensitive,
        with_values: o.with_values,
        conjunctive: o.conjunctive,
    }
}

/// What reading the options `args` on top of `acc` gives
pub open spec fn spec_argrep_options(args: Seq<Seq<u8>>, acc: ArgrepOptions) -> Result<
    ArgrepOptions,
    CommandError,
>
    decreases args.len(),
{
    if args.len() == 0 {
        Ok(acc)
    } else {
        let opt = args[0];
        let rest = args.drop_first();
        if is_keyword(opt, Keyword::Exact.spec_bytes()) || is_keyword(opt, Keyword::Glob.spec_bytes())
            || is_keyword(opt, Keyword::Match.spec_bytes()) || is_keyword(
            opt,
            Keyword::Re.spec_bytes(),
        ) {
            if rest.len() == 0 {
                Err(CommandError::WrongArity)
            } else if is_keyword(opt, Keyword::Exact.spec_bytes()) {
                spec_argrep_options(rest.drop_first(), with_matcher(acc, MatcherSpec::Exact(rest[0])))
            } else if is_keyword(opt, Keyword::Glob.spec_bytes()) {
                spec_argrep_options(rest.drop_first(), with_matcher(acc, MatcherSpec::Glob(rest[0])))
            } else if is_keyword(opt, Keyword::Match.spec_bytes()) {
                spec_argrep_options(
                    rest.drop_first(),
                    with_matcher(acc, MatcherSpec::Contains(rest[0])),
                )
            } else if !valid_utf8(rest[0]) {
                Err(CommandError::RegexNotUtf8)
            } else {
                spec_argrep_options(
                    rest.drop_first(),
                    with_matcher(acc, MatcherSpec::Regex(decode_utf8(rest[0]))),
                )
            }
        } else if is_keyword(opt, Keyword::And.spec_bytes()) {
            spec_argrep_options(rest, ArgrepOptions { conjunctive: true, ..acc })
        } else if is_keyword(opt, Keyword::Limit.spec_bytes()) {
            match spec_next_u64(rest) {
                Err(e) => Err(e),
                Ok(l) => spec_argrep_options(rest.drop_first(), ArgrepOptions { limit: Some(l), ..acc }),
            }
        } else if is_keyword(opt, Keyword::NoCase.spec_bytes()) {
            spec_argrep_options(rest, ArgrepOptions { case_sensitive: false, ..acc })
        } else if is_keyword(opt, Keyword::Or.spec_bytes()) {
            spec_argrep_options(rest, ArgrepOptions { conjunctive: false, ..acc })
        } else if is_keyword(opt, Keyword::WithValues.spec_bytes()) {
            spec_argrep_options(rest, ArgrepOptions { with_values: true, ..acc })
        } else {
            Err(CommandError::WrongArity)
        }
    }
}

/// What parsing the arguments of `ARGREP` (after the command's name) gives: the start and
/// end of the range, and the options
pub open spec fn spec_parse_argrep(args: Seq<Seq<u8>>) -> Result<(u64, u64, ArgrepOptions), CommandError> {
    if args.len() == 0 {
        Err(CommandError::WrongArity)
    } else {
        match spec_next_start_end(args.drop_first()) {
            Err(e) => Err(e),
            Ok((start, end)) => match spec_argrep_options(args.skip(3), default_argrep_options()) {
                Err(e) => Err(e),
                Ok(o) => if o.matchers.len() == 0 {
                    Err(CommandError::WrongArity)
                } else {
                    Ok((start, end, o))
                },
            },
        }
    }
}

/// The parsed arguments of `ARGREP`
pub struct ArgrepArgs {
    pub range: Range,
    pub matchers: Vec<SubstituteMatcher>,
    pub limit: Option<u64>,
    pub case_sensitive: bool,
    pub with_values: bool,
    pub conjunctive: bool,
}

/// The views of a list of matchers
pub open spec fn matcher_views(matchers: Seq<SubstituteMatcher>) -> Seq<MatcherSpec> {
    matchers.map_values(|m: SubstituteMatcher| m@)
}

/// Parses the arguments of `ARGREP`
pub fn parse_argrep(args: Vec<Vec<u8>>) -> (parsed: Result<ArgrepArgs, CommandError>)
    ensures
        match (parsed, spec_parse_argrep(command_args(args@))) {
            (Ok(a), Ok((start, end, o))) => {
                &&& a.range.wf()
                &&& a.range.spec_start() == start
                &&& a.range.spec_end() == end
                &&& a.range.remaining() == positions_between(start, end)
                &&& matcher_views(a.matchers@) == o.matchers
                &&& a.limit == o.limit
                &&& a.case_sensitive == o.case_sensitive
                &&& a.with_values == o.with_values
                &&& a.conjunctive == o.conjunctive
            },
            (Err(e), Err(f)) => e == f,
            _ => false,
        },
{
    let mut arg_iter = ArgIter::from_command(args);
    let ghost all = arg_iter.remaining();
    if let Err(e) = arg_iter.next_arg() {
        return Err(e);
    }
    let range = match arg_iter.next_start_end() {
        Ok(r) => r,
        Err(e) => return Err(e),
    };
    assert(arg_iter.remaining() == all.skip(3)) by {
        assert(all.drop_first().skip(2) =~= all.skip(3));
    }
    let mut opt_limit: Option<u64> = None;
    let mut case_sensitive = true;
    let mut with_values = false;
    let mut matchers: Vec<SubstituteMatcher> = Vec::new();
    let mut conjunctive = false;
    assert(matcher_views(matchers@) =~= Seq::<MatcherSpec>::empty());

    // Parse options
    loop
        invariant
            range.wf(),
            range.remaining() == positions_between(range.spec_start(), range.spec_end()),
            all.len() > 0,
            all == command_args(args@),
            spec_next_start_end(all.drop_first()) == Ok::<(u64, u64), CommandError>(
                (range.spec_start(), range.spec_end()),
            ),
            spec_argrep_options(all.skip(3), default_argrep_options()) == spec_argrep_options(
                arg_iter.remaining(),
                ArgrepOptions {
                    matchers: matcher_views(matchers@),
                    limit: opt_limit,
                    case_sensitive,
                    with_values,
                    conjunctive,
                },
            ),
        ensures
            arg_iter.remaining().len() == 0,
            spec_argrep_options(all.skip(3), default_argrep_options()) == Ok::<
                ArgrepOptions,
                CommandError,
            >(
                ArgrepOptions {
                    matchers: matcher_views(matchers@),
                    limit: opt_limit,
                    case_sensitive,
                    with_values,
                    conjunctive,
                },
            ),
        decreases arg_iter.remaining().len(),
    {
        let ghost before = arg_iter.remaining();
        let ghost acc = ArgrepOptions {
            matchers: matcher_views(matchers@),
            limit: opt_limit,
            case_sensitive,
            with_values,
            conjunctive,
        };
        let arg = match arg_iter.next() {
            Some(arg) => arg,
            None => break,
        };
        let ghost rest = arg_iter.remaining();
        // -- Operations ----------------
        if Keyword::Exact.is(arg.as_slice()) || Keyword::Glob.is(arg.as_slice()) || Keyword::Match.is(
            arg.as_slice(),
        ) || Keyword::Re.is(arg.as_slice()) {
            let expr = match arg_iter.next_arg() {
                Ok(e) => e,
                Err(e) => return Err(e),
            };
            let ghost expr_view = expr@;
            if Keyword::Exact.is(arg.as_slice()) {
                matchers.push(SubstituteMatcher::Exact(expr));
                assert(matcher_views(matchers@) =~= acc.matchers.push(MatcherSpec::Exact(expr_view)));
            } else if Keyword::Glob.is(arg.as_slice()) {
                matchers.push(SubstituteMatcher::Glob(expr));
                assert(matcher_views(matchers@) =~= acc.matchers.push(MatcherSpec::Glob(expr_view)));
            } else if Keyword::Match.is(arg.as_slice()) {
                matchers.push(SubstituteMatcher::Contains(expr));
                assert(matcher_views(matchers@) =~= acc.matchers.push(
                    MatcherSpec::Contains(expr_view),
                ));
            } else {
                let re = match string_from_utf8(expr) {
                    Some(re) => re,
                    None => return Err(CommandError::RegexNotUtf8),
                };
                matchers.push(SubstituteMatcher::Regex(re));
                assert(matcher_views(matchers@) =~= acc.matchers.push(
                    MatcherSpec::Regex(decode_utf8(expr_view)),
                ));
            }
        }
        // -- Options -------------------
        else if Keyword::And.is(arg.as_slice()) {
            conjunctive = true;
        } else if Keyword::Limit.is(arg.as_slice()) {
            let limit = match arg_iter.next_u64() {
                Ok(l) => l,
                Err(e) => return Err(e),
            };
            opt_limit = Some(limit);
        } else if Keyword::NoCase.is(arg.as_slice()) {
            case_sensitive = false;
        } else if Keyword::Or.is(arg.as_slice()) {
            conjunctive = false;
        } else if Keyword::WithValues.is(arg.as_slice()) {
            with_values = true;
        } else {
            return Err(CommandError::WrongArity);
        }
    }

    if matchers.len() == 0 {
        return Err(CommandError::WrongArity);
    }

    Ok(ArgrepArgs { range, matchers, limit: opt_limit, case_sensitive, with_values, conjunctive })
}

/// Whether the matchers accept `candidate`: all of them if `conjunctive`, any of them otherwise
pub open spec fn accepted(
    matchers: Seq<MatcherSpec>,
    case_sensitive: bool,
    conjunctive: bool,
    candidate: Seq<u8>,
) -> bool {
    if conjunctive {
        forall|i: int|
            0 <= i < matchers.len() ==> #[trigger] matchers[i].spec_matches(case_sensitive, candidate)
    } else {
        exists|i: int|
            0 <= i < matchers.len() && #[trigger] matchers[i].spec_matches(case_sensitive, candidate)
    }
}

/// The positions that `ARGREP` reports when it walks `positions` of an array holding
/// `values`, having found `found` so far: each position whose value the matchers accept gets
/// added, and the walk stops as soon as `limit` positions are found (a limit is only checked
/// right after a position was visited)
pub open spec fn spec_grep(
    values: Map<u64, Seq<u8>>,
    positions: Seq<u64>,
    matchers: Seq<MatcherSpec>,
    case_sensitive: bool,
    conjunctive: bool,
    limit: Option<usize>,
    found: Seq<u64>,
) -> Seq<u64>
    decreases positions.len(),
{
    if positions.len() == 0 {
        found
    } else {
        let p = positions[0];
        let found = if values.contains_key(p) && accepted(
            matchers,
            case_sensitive,
            conjunctive,
            values[p],
        ) {
            found.push(p)
        } else {
            found
        };
        if limit is Some && found.len() == limit->0 {
            found
        } else {
            spec_grep(
                values,
                positions.drop_first(),
                matchers,
                case_sensitive,
                conjunctive,
                limit,
                found,
            )
        }
    }
}

/// A limit, as the number of items it allows
pub open spec fn usize_limit(limit: Option<u64>) -> Option<usize> {
    match limit {
        Some(l) => Some(l as usize),
        None => None,
    }
}

/// Checks a value against the matching functions: all of them must accept it if
/// `conjunctive`, any of them otherwise
fn accepts(matcher_fns: &Vec<MatchingFn>, conjunctive: bool, value: &[u8]) -> (accepted: bool)
    ensures
        accepted == if conjunctive {
            forall|i: int|
                0 <= i < matcher_fns.len() ==> #[trigger] matcher_fns[i].spec_matches(value@)
        } else {
            exists|i: int|
                0 <= i < matcher_fns.len() && #[trigger] matcher_fns[i].spec_matches(value@)
        },
{
    let mut i: usize = 0;
    while i < matcher_fns.len()
        invariant
            i <= matcher_fns.len(),
            forall|j: int|
                0 <= j < i ==> #[trigger] matcher_fns[j].spec_matches(value@) == conjunctive,
        decreases matcher_fns.len() - i,
    {
        let matched = matcher_fns[i].matches(value);
        if matched != conjunctive {
            return matched;
        }
        i = i + 1;
    }
    conjunctive
}

/// Executes the command on each position in the range (inclusive)
///
/// # Returns
///
/// The positions whose values match, each along with its value if `with_values` is set, or
/// an error if a regular expression does not compile.
pub fn act_on_range<'a>(
    array: &'a Array,
    range: Range,
    matchers: Vec<SubstituteMatcher>,
    opt_limit: Option<u64>,
    case_sensitive: bool,
    with_values: bool,
    conjunctive: bool,
) -> (items: Result<Vec<(u64, Option<&'a Vec<u8>>)>, CommandError>)
    requires
        array.wf(),
        range.wf(),
    ensures
        items is Err <==> exists|i: int|
            0 <= i < matchers.len() && !(#[trigger] matchers[i])@.compiles(case_sensitive),
        items is Err ==> items == Err::<Vec<(u64, Option<&'a Vec<u8>>)>, CommandError>(
            CommandError::InvalidRegex,
        ),
        items matches Ok(v) ==> {
            let found = spec_grep(
                array@.values,
                range.remaining(),
                matcher_views(matchers@),
                case_sensitive,
                conjunctive,
                usize_limit(opt_limit),
                Seq::empty(),
            );
            &&& v.len() == found.len()
            &&& forall|i: int| 0 <= i < v.len() ==> (#[trigger] v[i]).0 == found[i]
            &&& forall|i: int|
                0 <= i < v.len() ==> (with_values ==> ((#[trigger] v[i]).1 matches Some(x) && x@
                    == array@.values[found[i]]))
            &&& forall|i: int| 0 <= i < v.len() ==> (!with_values ==> (#[trigger] v[i]).1 is None)
        },
{
    let (limited, limit) = match opt_limit {
        Some(limit) => (true, limit as usize),
        None => (false, 0),
    };

    let ghost views = matcher_views(matchers@);
    let mut matcher_fns: Vec<MatchingFn> = Vec::new();
    for substitute in it: matchers.into_iter()
        invariant
            it.seq() == matchers@,
            views == matcher_views(matchers@),
            matcher_fns.len() == it.index(),
            forall|j: int| 0 <= j < it.index() ==> (#[trigger] views[j]).compiles(case_sensitive),
            forall|j: int|
                0 <= j < it.index() ==> forall|c: Seq<u8>|
                    (#[trigger] matcher_fns[j]).spec_matches(c) == views[j].spec_matches(
                        case_sensitive,
                        c,
                    ),
    {
        let ghost j = it.index();
        match substitute.get_matcher(case_sensitive) {
            Ok(f) => matcher_fns.push(f),
            Err(e) => {
                assert(!(matchers@[j])@.compiles(case_sensitive));
                return Err(e);
            },
        }
    }

    proof {
        assert forall|i: int| 0 <= i < matchers@.len() implies (#[trigger] matchers@[i])@.compiles(
            case_sensitive,
        ) by {
            assert(views[i] == matchers@[i]@);
        }
    }
    let ghost found_all = spec_grep(
        array@.values,
        range.remaining(),
        views,
        case_sensitive,
        conjunctive,
        usize_limit(opt_limit),
        Seq::empty(),
    );
    let mut items: Vec<(u64, Option<&'a Vec<u8>>)> = Vec::new();
    let ghost mut found: Seq<u64> = Seq::empty();
    let mut iter = array.range_iter(range);
    loop
        invariant_except_break
            found_all == spec_grep(
                array@.values,
                iter.remaining(),
                views,
                case_sensitive,
                conjunctive,
                usize_limit(opt_limit),
                found,
            ),
        invariant
            array.wf(),
            iter.wf(),
            iter.source_view() == array@,
            matcher_fns.len() == views.len(),
            forall|j: int|
                0 <= j < views.len() ==> forall|c: Seq<u8>|
                    (#[trigger] matcher_fns[j]).spec_matches(c) == views[j].spec_matches(
                        case_sensitive,
                        c,
                    ),
            limited == opt_limit is Some,
            limited ==> limit == opt_limit->0 as usize,
            items.len() == found.len(),
            forall|i: int| 0 <= i < items.len() ==> (#[trigger] items[i]).0 == found[i],
            forall|i: int|
                0 <= i < items.len() ==> (with_values ==> ((#[trigger] items[i]).1 matches Some(x)
                    && x@ == array@.values[found[i]])),
            forall|i: int| 0 <= i < items.len() ==> (!with_values ==> (#[trigger] items[i]).1 is None),
        ensures
            found_all == found,
            items.len() == found.len(),
            forall|i: int| 0 <= i < items.len() ==> (#[trigger] items[i]).0 == found[i],
            forall|i: int|
                0 <= i < items.len() ==> (with_values ==> ((#[trigger] items[i]).1 matches Some(x)
                    && x@ == array@.values[found[i]])),
            forall|i: int| 0 <= i < items.len() ==> (!with_values ==> (#[trigger] items[i]).1 is None),
        decreases iter.remaining().len(),
    {
        let (position, maybe_value) = match iter.next() {
            Some(item) => item,
            None => break,
        };
        let mut hit = false;
        let ghost old_found = found;
        if let Some(value) = maybe_value {
            let ghost v = array@.values[position];
            hit = accepts(&matcher_fns, conjunctive, value.as_slice());
            proof {
                if conjunctive {
                    if hit {
                        assert forall|i: int| 0 <= i < views.len() implies #[trigger] views[i].spec_matches(case_sensitive, v) by {
                            assert(matcher_fns[i].spec_matches(v));
                        }
                    } else {
                        let i = choose|i: int| 0 <= i < matcher_fns.len() && !#[trigger] matcher_fns[i].spec_matches(v);
                        assert(!views[i].spec_matches(case_sensitive, v));
                    }
                } else {
                    if hit {
                        let i = choose|i: int| 0 <= i < matcher_fns.len() && #[trigger] matcher_fns[i].spec_matches(v);
                        assert(views[i].spec_matches(case_sensitive, v));
                    } else {
                        assert forall|i: int| 0 <= i < views.len() implies !#[trigger] views[i].spec_matches(case_sensitive, v) by {
                            assert(!matcher_fns[i].spec_matches(v));
                        }
                    }
                }
                assert(hit == accepted(views, case_sensitive, conjunctive, v));
            }
            if hit {
                if with_values {
                    items.push((position, Some(value)));
                } else {
                    items.push((position, None));
                }
                proof {
                    found = found.push(position);
                }
            }
        }

        proof {
            assert(hit == (array@.values.contains_key(position) && accepted(
                views,
                case_sensitive,
                conjunctive,
                array@.values[position],
            )));
            assert(found == if hit {
                old_found.push(position)
            } else {
                old_found
            });
        }

        // Checking an eventual limit
        if limited && items.len() == limit {
            break;
        }
    }
    Ok(items)
}

} // verus!
