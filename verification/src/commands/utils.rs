//! Shared utilities for commands: errors, number parsing and walking the arguments

use crate::array::Range;
use crate::array::range::positions_between;
use vstd::prelude::*;

verus! {

/// Error message if an argument cannot be parsed to a position
pub const ERR_INVALID_POSITION: &'static str = "invalid array position";

/// Why a command refused its arguments or its work
#[derive(Debug, Clone, Copy, PartialEq, Eq, Structural)]
pub enum CommandError {
    /// The command got too few or too many arguments, or an unknown option
    WrongArity,
    /// An argument is not a position (see [`parse_position`])
    InvalidPosition,
    /// An argument is not an unsigned integer
    NotAnUnsignedInteger,
    /// `AROP` got an operation it does not know
    UnknownAropOperation,
    /// The regular expression given to `ARGREP` is not valid UTF-8
    RegexNotUtf8,
    /// The regular expression given to `ARGREP` does not compile
    InvalidRegex,
}

/// The message that gets reported for an error
pub open spec fn spec_message(e: CommandError) -> Seq<char> {
    match e {
        CommandError::WrongArity => "wrong number of arguments"@,
        CommandError::InvalidPosition => ERR_INVALID_POSITION@,
        CommandError::NotAnUnsignedInteger => "Couldn't parse as unsigned integer"@,
        CommandError::UnknownAropOperation => "ERR Unknown AROP operation"@,
        CommandError::RegexNotUtf8 => "ERR Regex for ARGREP is not a valid UTF-8 string"@,
        CommandError::InvalidRegex => "not a valid regular expression"@,
    }
}

impl CommandError {
    /// The message that gets reported for the error
    pub fn message(&self) -> (msg: &'static str)
        ensures
            msg@ == spec_message(*self),
    {
        match self {
            CommandError::WrongArity => "wrong number of arguments",
            CommandError::InvalidPosition => ERR_INVALID_POSITION,
            CommandError::NotAnUnsignedInteger => "Couldn't parse as unsigned integer",
            CommandError::UnknownAropOperation => "ERR Unknown AROP operation",
            CommandError::RegexNotUtf8 => "ERR Regex for ARGREP is not a valid UTF-8 string",
            CommandError::InvalidRegex => "not a valid regular expression",
        }
    }
}

/// `b` is an ASCII decimal digit
pub open spec fn is_digit(b: u8) -> bool {
    48 <= b <= 57
}

/// All bytes of `s` are ASCII decimal digits
pub open spec fn all_digits(s: Seq<u8>) -> bool {
    forall|i: int| 0 <= i < s.len() ==> is_digit(#[trigger] s[i])
}

/// The number written by the decimal digits `s` (`0` for no digits)
pub open spec fn digits_value(s: Seq<u8>) -> nat
    decreases s.len(),
{
    if s.len() == 0 {
        0
    } else {
        digits_value(s.drop_last()) * 10 + (s.last() - 48) as nat
    }
}

/// The unsigned integer that `s` writes: an optional `+`, then one or more decimal
/// digits whose value fits in a `u64`; `None` for anything else
pub open spec fn spec_parse_unsigned(s: Seq<u8>) -> Option<u64> {
    let digits = if s.len() > 0 && s[0] == 43 {
        s.drop_first()
    } else {
        s
    };
    if digits.len() > 0 && all_digits(digits) && digits_value(digits) <= u64::MAX {
        Some(digits_value(digits) as u64)
    } else {
        None
    }
}

/// The signed integer that `s` writes: an optional `+` or `-`, then one or more decimal
/// digits whose signed value fits in an `i64`; `None` for anything else
pub open spec fn spec_parse_signed(s: Seq<u8>) -> Option<i64> {
    let negative = s.len() > 0 && s[0] == 45;
    let digits = if s.len() > 0 && (s[0] == 43 || s[0] == 45) {
        s.drop_first()
    } else {
        s
    };
    let value: int = if negative {
        -digits_value(digits)
    } else {
        digits_value(digits) as int
    };
    if digits.len() > 0 && all_digits(digits) && i64::MIN <= value <= i64::MAX {
        Some(value as i64)
    } else {
        None
    }
}

/// The position that an argument names: `-` is the first position, `+` the last, and
/// anything else is read as unsigned integer
pub open spec fn spec_parse_position(s: Seq<u8>) -> Option<u64> {
    if s == seq![45u8] {
        Some(0)
    } else if s == seq![43u8] {
        Some(u64::MAX)
    } else {
        spec_parse_unsigned(s)
    }
}

proof fn lemma_digits_value_push(s: Seq<u8>, b: u8)
    ensures
        digits_value(s.push(b)) == digits_value(s) * 10 + (b - 48) as nat,
{
    assert(s.push(b).drop_last() =~= s);
}

proof fn lemma_digits_value_grows(s: Seq<u8>, k: int)
    requires
        0 <= k <= s.len(),
        all_digits(s),
    ensures
        digits_value(s.take(k)) <= digits_value(s),
    decreases s.len() - k,
{
    if k < s.len() {
        lemma_digits_value_grows(s, k + 1);
        assert(s.take(k + 1).drop_last() =~= s.take(k));
        assert(is_digit(s[k]));
    } else {
        assert(s.take(k) =~= s);
    }
}

/// Reads the decimal digits `bytes[from..]` as number
///
/// Returns `None` if there are no digits, a byte is not a digit, or the value does not fit in
/// a `u64`.
fn parse_digits(bytes: &[u8], from: usize) -> (value: Option<u64>)
    requires
        from <= bytes@.len(),
    ensures
        ({
            let digits = bytes@.skip(from as int);
            value == (if digits.len() > 0 && all_digits(digits) && digits_value(digits)
                <= u64::MAX {
                Some(digits_value(digits) as u64)
            } else {
                None
            })
        }),
{
    let ghost digits = bytes@.skip(from as int);
    if from == bytes.len() {
        return None;
    }
    let mut acc: u64 = 0;
    let mut i: usize = from;
    while i < bytes.len()
        invariant
            from <= i <= bytes@.len(),
            digits == bytes@.skip(from as int),
            all_digits(digits.take(i - from)),
            acc as nat == digits_value(digits.take(i - from)),
        decreases bytes@.len() - i,
    {
        let b = bytes[i];
        if b < 48 || b > 57 {
            assert(!is_digit(digits[i - from]));
            return None;
        }
        let d = (b - 48) as u64;
        proof {
            assert(digits.take(i - from + 1) =~= digits.take(i - from).push(b));
            lemma_digits_value_push(digits.take(i - from), b);
        }
        if acc > (u64::MAX - d) / 10 {
            proof {
                assert(acc * 10 + d > u64::MAX) by (nonlinear_arith)
                    requires
                        acc > (u64::MAX - d) / 10,
                        d <= 9,
                ;
                if all_digits(digits) {
                    lemma_digits_value_grows(digits, i - from + 1);
                }
            }
            return None;
        }
        assert(acc * 10 + d <= u64::MAX) by (nonlinear_arith)
            requires
                acc <= (u64::MAX - d) / 10,
                d <= 9,
        ;
        acc = acc * 10 + d;
        i = i + 1;
    }
    assert(digits.take(i - from) =~= digits);
    Some(acc)
}

/// Parses an unsigned integer: an optional `+`, then decimal digits
pub fn parse_unsigned(bytes: &[u8]) -> (value: Option<u64>)
    ensures
        value == spec_parse_unsigned(bytes@),
{
    if bytes.len() > 0 && bytes[0] == 43 {
        let value = parse_digits(bytes, 1);
        assert(bytes@.skip(1) =~= bytes@.drop_first());
        value
    } else {
        let value = parse_digits(bytes, 0);
        assert(bytes@.skip(0) =~= bytes@);
        value
    }
}

/// Parses a signed integer: an optional `+` or `-`, then decimal digits
pub fn parse_signed(bytes: &[u8]) -> (value: Option<i64>)
    ensures
        value == spec_parse_signed(bytes@),
{
    let negative = bytes.len() > 0 && bytes[0] == 45;
    let from: usize = if bytes.len() > 0 && (bytes[0] == 43 || bytes[0] == 45) {
        1
    } else {
        0
    };
    let ghost digits = bytes@.skip(from as int);
    assert(from == 1 ==> digits =~= bytes@.drop_first());
    assert(from == 0 ==> digits =~= bytes@);
    // The magnitude of `i64::MIN` does not fit in an `i64`, so the digits are read as `u64`
    match parse_digits(bytes, from) {
        None => None,
        Some(magnitude) => {
            if negative {
                if magnitude <= 9223372036854775808 {
                    if magnitude == 9223372036854775808 {
                        Some(i64::MIN)
                    } else {
                        Some(-(magnitude as i64))
                    }
                } else {
                    None
                }
            } else if magnitude <= 9223372036854775807 {
                Some(magnitude as i64)
            } else {
                None
            }
        },
    }
}

/// Parses a position in an array
///
/// `-` stands for 0.
/// `+` stands for the maximum value.
/// Otherwise, the argument gets parsed as unsigned integer.
pub fn parse_position(bytes: &[u8]) -> (position: Result<u64, CommandError>)
    ensures
        position == (match spec_parse_position(bytes@) {
            Some(p) => Ok(p),
            None => Err(CommandError::InvalidPosition),
        }),
{
    if bytes.len() == 1 && bytes[0] == 45 {
        assert(bytes@ =~= seq![45u8]);
        return Ok(0);
    }
    if bytes.len() == 1 && bytes[0] == 43 {
        assert(bytes@ =~= seq![43u8]);
        return Ok(u64::MAX);
    }
    assert(bytes@ != seq![45u8] && bytes@ != seq![43u8]);
    match parse_unsigned(bytes) {
        Some(p) => Ok(p),
        None => Err(CommandError::InvalidPosition),
    }
}

/// The views of a list of byte strings
pub open spec fn views(args: Seq<Vec<u8>>) -> Seq<Seq<u8>> {
    args.map_values(|a: Vec<u8>| a@)
}

/// What reading an unsigned integer from the front of `args` gives
pub open spec fn spec_next_u64(args: Seq<Seq<u8>>) -> Result<u64, CommandError> {
    if args.len() == 0 {
        Err(CommandError::WrongArity)
    } else {
        match spec_parse_unsigned(args[0]) {
            Some(v) => Ok(v),
            None => Err(CommandError::NotAnUnsignedInteger),
        }
    }
}

/// What reading a position from the front of `args` gives
pub open spec fn spec_next_position(args: Seq<Seq<u8>>) -> Result<u64, CommandError> {
    if args.len() == 0 {
        Err(CommandError::WrongArity)
    } else {
        match spec_parse_position(args[0]) {
            Some(v) => Ok(v),
            None => Err(CommandError::InvalidPosition),
        }
    }
}

/// What reading a pair of positions from the front of `args` gives: the two positions,
/// smaller one first
pub open spec fn spec_next_range(args: Seq<Seq<u8>>) -> Result<(u64, u64), CommandError> {
    match spec_next_position(args) {
        Err(e) => Err(e),
        Ok(a) => match spec_next_position(args.drop_first()) {
            Err(e) => Err(e),
            Ok(b) => if b < a {
                Ok((b, a))
            } else {
                Ok((a, b))
            },
        },
    }
}

/// What reading a start and an end (unsigned integers) from the front of `args` gives
pub open spec fn spec_next_start_end(args: Seq<Seq<u8>>) -> Result<(u64, u64), CommandError> {
    match spec_next_u64(args) {
        Err(e) => Err(e),
        Ok(a) => match spec_next_u64(args.drop_first()) {
            Err(e) => Err(e),
            Ok(b) => Ok((a, b)),
        },
    }
}

/// `keyword` (upper case) is `arg`, up to the ASCII case of `arg`'s letters
pub open spec fn is_keyword(arg: Seq<u8>, keyword: Seq<u8>) -> bool {
    &&& arg.len() == keyword.len()
    &&& forall|i: int| 0 <= i < arg.len() ==> spec_ascii_upper(#[trigger] arg[i]) == keyword[i]
}

/// The ASCII upper case of a byte (other bytes are kept)
pub open spec fn spec_ascii_upper(b: u8) -> u8 {
    if 97 <= b <= 122 {
        (b - 32) as u8
    } else {
        b
    }
}

/// Compares an argument to an upper-case keyword, ignoring the ASCII case of the argument
pub fn keyword_matches(arg: &[u8], keyword: &[u8]) -> (matches: bool)
    ensures
        matches == is_keyword(arg@, keyword@),
{
    if arg.len() != keyword.len() {
        return false;
    }
    let mut i: usize = 0;
    while i < arg.len()
        invariant
            arg@.len() == keyword@.len(),
            i <= arg@.len(),
            forall|j: int| 0 <= j < i ==> spec_ascii_upper(#[trigger] arg@[j]) == keyword@[j],
        decreases arg@.len() - i,
    {
        let b = arg[i];
        let upper = if 97 <= b && b <= 122 {
            b - 32
        } else {
            b
        };
        if upper != keyword[i] {
            return false;
        }
        i = i + 1;
    }
    true
}

/// The arguments of a command, consumed from the front
pub struct ArgIter {
    /// The arguments not yet consumed, last one first
    reversed: Vec<Vec<u8>>,
}

impl ArgIter {
    /// The arguments not yet consumed, in order
    pub closed spec fn remaining(&self) -> Seq<Seq<u8>> {
        Seq::new(self.reversed.len() as nat, |i: int| self.reversed[self.reversed.len() - 1 - i]@)
    }

    /// Builds an iterator over the given arguments
    pub fn new(args: Vec<Vec<u8>>) -> (iter: Self)
        ensures
            iter.remaining() == views(args@),
    {
        let mut args = args;
        let ghost all = views(args@);
        let mut reversed: Vec<Vec<u8>> = Vec::new();
        while args.len() > 0
            invariant
                args@.len() + reversed@.len() == all.len(),
                forall|i: int| 0 <= i < args@.len() ==> #[trigger] args@[i]@ == all[i],
                forall|i: int|
                    0 <= i < reversed@.len() ==> #[trigger] reversed@[i]@ == all[all.len() - 1
                        - i],
            decreases args@.len(),
        {
            let arg = args.pop().unwrap();
            reversed.push(arg);
        }
        let iter = ArgIter { reversed };
        assert(iter.remaining() =~= all);
        iter
    }

    /// Builds an iterator over a command's arguments, skipping the command's name
    pub fn from_command(args: Vec<Vec<u8>>) -> (iter: Self)
        ensures
            iter.remaining() == command_args(args@),
    {
        let mut iter = ArgIter::new(args);
        let _ = iter.next();
        iter
    }

    /// Gets the next argument, or `None` if all are consumed
    pub fn next(&mut self) -> (arg: Option<Vec<u8>>)
        ensures
            old(self).remaining().len() == 0 ==> arg is None && final(self).remaining()
                == old(self).remaining(),
            old(self).remaining().len() > 0 ==> (arg matches Some(a) && a@ == old(
                self,
            ).remaining()[0] && final(self).remaining() == old(self).remaining().drop_first()),
    {
        let arg = self.reversed.pop();
        assert(final(self).remaining() =~= old(self).remaining().drop_first()
            || old(self).remaining().len() == 0);
        arg
    }

    /// Checks whether arguments are left
    pub fn has_next(&self) -> (has: bool)
        ensures
            has == (self.remaining().len() > 0),
    {
        self.reversed.len() > 0
    }

    /// Gets the next argument, failing with [`CommandError::WrongArity`] if there is none
    pub fn next_arg(&mut self) -> (arg: Result<Vec<u8>, CommandError>)
        ensures
            old(self).remaining().len() == 0 ==> arg == Err::<Vec<u8>, CommandError>(
                CommandError::WrongArity,
            ) && final(self).remaining() == old(self).remaining(),
            old(self).remaining().len() > 0 ==> (arg matches Ok(a) && a@ == old(
                self,
            ).remaining()[0] && final(self).remaining() == old(self).remaining().drop_first()),
    {
        match self.next() {
            Some(arg) => Ok(arg),
            None => Err(CommandError::WrongArity),
        }
    }

    /// Parses the next argument as unsigned integer
    pub fn next_u64(&mut self) -> (value: Result<u64, CommandError>)
        ensures
            value == spec_next_u64(old(self).remaining()),
            final(self).remaining() == if old(self).remaining().len() == 0 {
                old(self).remaining()
            } else {
                old(self).remaining().drop_first()
            },
    {
        match self.next() {
            Some(arg) => match parse_unsigned(arg.as_slice()) {
                Some(v) => Ok(v),
                None => Err(CommandError::NotAnUnsignedInteger),
            },
            None => Err(CommandError::WrongArity),
        }
    }

    /// Parses the next argument as a position
    ///
    /// If the next part is `-`, it stands for 0.
    /// If the next part is `+`, it stands for the maximum value.
    /// Otherwise, the next part gets parsed as unsigned integer.
    pub fn next_position(&mut self) -> (position: Result<u64, CommandError>)
        ensures
            position == spec_next_position(old(self).remaining()),
            final(self).remaining() == if old(self).remaining().len() == 0 {
                old(self).remaining()
            } else {
                old(self).remaining().drop_first()
            },
    {
        match self.next() {
            Some(arg) => parse_position(arg.as_slice()),
            None => Err(CommandError::WrongArity),
        }
    }

    /// Parses a start/end pair of positions
    ///
    /// See [`Self::next_position`] for the available abbreviations.
    ///
    /// The returned range is guaranteed to not start after its end.
    pub fn next_range(&mut self) -> (range: Result<Range, CommandError>)
        ensures
            match (range, spec_next_range(old(self).remaining())) {
                (Ok(r), Ok((start, end))) => r.wf() && r.spec_start() == start && r.spec_end()
                    == end && r.remaining() == positions_between(start, end),
                (Err(e), Err(f)) => e == f,
                _ => false,
            },
            range is Ok ==> final(self).remaining() == old(self).remaining().skip(2),
    {
        let start = self.next_position();
        let mut start = match start {
            Ok(p) => p,
            Err(e) => return Err(e),
        };
        let end = self.next_position();
        let mut end = match end {
            Ok(p) => p,
            Err(e) => return Err(e),
        };
        if end < start {
            let tmp = start;
            start = end;
            end = tmp;
        }
        assert(old(self).remaining().drop_first().drop_first() =~= old(self).remaining().skip(2));
        Ok(Range::new(start, end))
    }

    /// Parses a start/end pair of unsigned integers, keeping their order
    pub fn next_start_end(&mut self) -> (range: Result<Range, CommandError>)
        ensures
            match (range, spec_next_start_end(old(self).remaining())) {
                (Ok(r), Ok((start, end))) => r.wf() && r.spec_start() == start && r.spec_end()
                    == end && r.remaining() == positions_between(start, end),
                (Err(e), Err(f)) => e == f,
                _ => false,
            },
            range is Ok ==> final(self).remaining() == old(self).remaining().skip(2),
    {
        let start = match self.next_u64() {
            Ok(p) => p,
            Err(e) => return Err(e),
        };
        let end = match self.next_u64() {
            Ok(p) => p,
            Err(e) => return Err(e),
        };
        assert(old(self).remaining().drop_first().drop_first() =~= old(self).remaining().skip(2));
        Ok(Range::new(start, end))
    }
}

/// Fails with [`CommandError::WrongArity`] if the iterator has more entries
pub fn err_if_further_arguments(iter: ArgIter) -> (res: Result<(), CommandError>)
    ensures
        res == (if iter.remaining().len() == 0 {
            Ok::<(), CommandError>(())
        } else {
            Err(CommandError::WrongArity)
        }),
{
    if iter.has_next() {
        return Err(CommandError::WrongArity);
    }
    Ok(())
}

/// The keywords that commands take as options or operations
#[derive(Debug, Clone, Copy, PartialEq, Eq, Structural)]
pub enum Keyword {
    And,
    Exact,
    Full,
    Glob,
    Limit,
    Match,
    Max,
    Min,
    NoCase,
    Or,
    Re,
    Rev,
    Sum,
    Used,
    WithValues,
    Xor,
}

impl Keyword {
    /// The keyword's ASCII bytes, in upper case
    pub open spec fn spec_bytes(self) -> Seq<u8> {
        match self {
            Keyword::And => seq![65u8, 78, 68],
            Keyword::Exact => seq![69u8, 88, 65, 67, 84],
            Keyword::Full => seq![70u8, 85, 76, 76],
            Keyword::Glob => seq![71u8, 76, 79, 66],
            Keyword::Limit => seq![76u8, 73, 77, 73, 84],
            Keyword::Match => seq![77u8, 65, 84, 67, 72],
            Keyword::Max => seq![77u8, 65, 88],
            Keyword::Min => seq![77u8, 73, 78],
            Keyword::NoCase => seq![78u8, 79, 67, 65, 83, 69],
            Keyword::Or => seq![79u8, 82],
            Keyword::Re => seq![82u8, 69],
            Keyword::Rev => seq![82u8, 69, 86],
            Keyword::Sum => seq![83u8, 85, 77],
            Keyword::Used => seq![85u8, 83, 69, 68],
            Keyword::WithValues => seq![87u8, 73, 84, 72, 86, 65, 76, 85, 69, 83],
            Keyword::Xor => seq![88u8, 79, 82],
        }
    }

    /// Checks whether an argument is this keyword, ignoring the ASCII case of the argument
    pub fn is(self, arg: &[u8]) -> (matches: bool)
        ensures
            matches == is_keyword(arg@, self.spec_bytes()),
    {
        match self {
            Keyword::And => {
                let kw = [65u8, 78, 68];
                assert(kw@ =~= self.spec_bytes());
                keyword_matches(arg, &kw)
            },
            Keyword::Exact => {
                let kw = [69u8, 88, 65, 67, 84];
                assert(kw@ =~= self.spec_bytes());
                keyword_matches(arg, &kw)
            },
            Keyword::Full => {
                let kw = [70u8, 85, 76, 76];
                assert(kw@ =~= self.spec_bytes());
                keyword_matches(arg, &kw)
            },
            Keyword::Glob => {
                let kw = [71u8, 76, 79, 66];
                assert(kw@ =~= self.spec_bytes());
                keyword_matches(arg, &kw)
            },
            Keyword::Limit => {
                let kw = [76u8, 73, 77, 73, 84];
                assert(kw@ =~= self.spec_bytes());
                keyword_matches(arg, &kw)
            },
            Keyword::Match => {
                let kw = [77u8, 65, 84, 67, 72];
                assert(kw@ =~= self.spec_bytes());
                keyword_matches(arg, &kw)
            },
            Keyword::Max => {
                let kw = [77u8, 65, 88];
                assert(kw@ =~= self.spec_bytes());
                keyword_matches(arg, &kw)
            },
            Keyword::Min => {
                let kw = [77u8, 73, 78];
                assert(kw@ =~= self.spec_bytes());
                keyword_matches(arg, &kw)
            },
            Keyword::NoCase => {
                let kw = [78u8, 79, 67, 65, 83, 69];
                assert(kw@ =~= self.spec_bytes());
                keyword_matches(arg, &kw)
            },
            Keyword::Or => {
                let kw = [79u8, 82];
                assert(kw@ =~= self.spec_bytes());
                keyword_matches(arg, &kw)
            },
            Keyword::Re => {
                let kw = [82u8, 69];
                assert(kw@ =~= self.spec_bytes());
                keyword_matches(arg, &kw)
            },
            Keyword::Rev => {
                let kw = [82u8, 69, 86];
                assert(kw@ =~= self.spec_bytes());
                keyword_matches(arg, &kw)
            },
            Keyword::Sum => {
                let kw = [83u8, 85, 77];
                assert(kw@ =~= self.spec_bytes());
                keyword_matches(arg, &kw)
            },
            Keyword::Used => {
                let kw = [85u8, 83, 69, 68];
                assert(kw@ =~= self.spec_bytes());
                keyword_matches(arg, &kw)
            },
            Keyword::WithValues => {
                let kw = [87u8, 73, 84, 72, 86, 65, 76, 85, 69, 83];
                assert(kw@ =~= self.spec_bytes());
                keyword_matches(arg, &kw)
            },
            Keyword::Xor => {
                let kw = [88u8, 79, 82];
                assert(kw@ =~= self.spec_bytes());
                keyword_matches(arg, &kw)
            },
        }
    }
}

/// The arguments of a command after its name (none if there is not even a name)
pub open spec fn command_args(args: Seq<Vec<u8>>) -> Seq<Seq<u8>> {
    if args.len() == 0 {
        Seq::empty()
    } else {
        views(args).drop_first()
    }
}

/// What parsing a command that takes nothing but a key gives
pub open spec fn spec_parse_key_only(args: Seq<Seq<u8>>) -> Result<(), CommandError> {
    if args.len() == 1 {
        Ok(())
    } else {
        Err(CommandError::WrongArity)
    }
}

/// Parses the arguments of a command that takes nothing but a key (`ARCOUNT`, `ARLEN`,
/// `ARNEXT`)
pub fn parse_key_only(args: Vec<Vec<u8>>) -> (parsed: Result<(), CommandError>)
    ensures
        parsed == spec_parse_key_only(command_args(args@)),
{
    let mut arg_iter = ArgIter::from_command(args);
    if let Err(e) = arg_iter.next_arg() {
        return Err(e);
    }
    err_if_further_arguments(arg_iter)
}

/// What reading all of `args` as positions gives (the first argument that is no position
/// makes it fail)
pub open spec fn spec_parse_positions(args: Seq<Seq<u8>>) -> Result<Seq<u64>, CommandError>
    decreases args.len(),
{
    if args.len() == 0 {
        Ok(Seq::empty())
    } else {
        match spec_parse_position(args[0]) {
            None => Err(CommandError::InvalidPosition),
            Some(p) => match spec_parse_positions(args.drop_first()) {
                Err(e) => Err(e),
                Ok(ps) => Ok(seq![p] + ps),
            },
        }
    }
}

/// Reads all remaining arguments as positions
pub fn parse_positions(arg_iter: &mut ArgIter) -> (positions: Result<Vec<u64>, CommandError>)
    ensures
        match (positions, spec_parse_positions(old(arg_iter).remaining())) {
            (Ok(ps), Ok(qs)) => ps@ == qs,
            (Err(e), Err(f)) => e == f,
            _ => false,
        },
{
    let ghost all = arg_iter.remaining();
    let mut positions: Vec<u64> = Vec::new();
    loop
        invariant
            all == old(arg_iter).remaining(),
            spec_parse_positions(all) == match spec_parse_positions(arg_iter.remaining()) {
                Err(e) => Err(e),
                Ok(ps) => Ok(positions@ + ps),
            },
        decreases arg_iter.remaining().len(),
    {
        let ghost before = arg_iter.remaining();
        match arg_iter.next() {
            None => {
                assert(positions@ + Seq::<u64>::empty() =~= positions@);
                return Ok(positions);
            },
            Some(arg) => {
                match parse_position(arg.as_slice()) {
                    Ok(p) => {
                        let ghost old_positions = positions@;
                        positions.push(p);
                        proof {
                            assert(before.drop_first() == arg_iter.remaining());
                            match spec_parse_positions(arg_iter.remaining()) {
                                Err(e) => {},
                                Ok(ps) => {
                                    assert(old_positions + (seq![p] + ps) =~= positions@ + ps);
                                },
                            }
                        }
                    },
                    Err(e) => return Err(e),
                }
            },
        }
    }
}

/// Adding `p` to `s` grows `d ∩ s` by one exactly when `p` is in `d` but not yet in `s`
pub proof fn lemma_intersect_insert(d: Set<u64>, s: Set<u64>, p: u64)
    requires
        d.finite(),
    ensures
        d.intersect(s).finite(),
        d.intersect(s.insert(p)).finite(),
        d.intersect(s).len() <= d.len(),
        d.intersect(s.insert(p)).len() == d.intersect(s).len() + if d.contains(p) && !s.contains(
            p,
        ) {
            1int
        } else {
            0int
        },
{
    vstd::set_lib::lemma_len_intersect(d, s);
    vstd::set_lib::lemma_len_intersect(d, s.insert(p));
    if d.contains(p) && !s.contains(p) {
        assert(d.intersect(s.insert(p)) =~= d.intersect(s).insert(p));
    } else {
        assert(d.intersect(s.insert(p)) =~= d.intersect(s));
    }
}

/// Adding `p` to `s` grows `s \ d` by one exactly when `p` is neither in `s` nor in `d`
pub proof fn lemma_difference_insert(s: Set<u64>, d: Set<u64>, p: u64)
    requires
        s.finite(),
    ensures
        s.difference(d).finite(),
        s.insert(p).difference(d).finite(),
        s.insert(p).difference(d).len() == s.difference(d).len() + if !s.contains(p)
            && !d.contains(p) {
            1int
        } else {
            0int
        },
{
    vstd::set_lib::lemma_len_difference(s, d);
    vstd::set_lib::lemma_len_difference(s.insert(p), d);
    if !s.contains(p) && !d.contains(p) {
        assert(s.insert(p).difference(d) =~= s.difference(d).insert(p));
    } else {
        assert(s.insert(p).difference(d) =~= s.difference(d));
    }
}

} // verus!
