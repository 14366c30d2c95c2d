//! The `AROP` command: runs an operation on a range of an array

pub mod ops;

use crate::array::range::positions_between;
use crate::array::{Array, Range};
use crate::commands::arscan::{act_on_range as used_entries, used_positions};
use crate::commands::utils::{
    ArgIter, CommandError, Keyword, command_args, err_if_further_arguments, is_keyword,
    spec_next_start_end,
};
use ops::and::and_result;
use ops::or::or_result;
use ops::xor::xor_result;
use ops::{AndOperation, MatchOperation, OpResult, OrOperation, UsedOperation, XorOperation, count_equal};
use vstd::prelude::*;

verus! {

/// What an operation of `AROP` computes
pub enum OperationSpec {
    And,
    Match(Seq<u8>),
    Max,
    Min,
    Or,
    Sum,
    Used,
    Xor,
}

/// Substitutes for available operations
///
/// These are needed to parse the operation (and eventually failing) before opening the key.
pub enum SubstituteOperation {
    /// Converts numeric items to integers and binary `AND`s them (Null if there were no items)
    And,
    /// Counts the number of items that exactly match the search expression
    Match(Vec<u8>),
    /// Maximum of numeric items (Null if there were no items)
    Max,
    /// Minimum of numeric items (Null if there were no items)
    Min,
    /// Converts numeric items to integers and binary `OR`s them (Null if there were no items)
    Or,
    /// Sums numeric items
    Sum,
    /// Counts the used positions
    Used,
    /// Converts numeric items to integers and binary `XOR`s them (Null if there were no items)
    Xor,
}

impl View for SubstituteOperation {
    type V = OperationSpec;

    open spec fn view(&self) -> OperationSpec {
        match self {
            SubstituteOperation::And => OperationSpec::And,
            SubstituteOperation::Match(e) => OperationSpec::Match(e@),
            SubstituteOperation::Max => OperationSpec::Max,
            SubstituteOperation::Min => OperationSpec::Min,
            SubstituteOperation::Or => OperationSpec::Or,
            SubstituteOperation::Sum => OperationSpec::Sum,
            SubstituteOperation::Used => OperationSpec::Used,
            SubstituteOperation::Xor => OperationSpec::Xor,
        }
    }
}

impl SubstituteOperation {
    /// Whether the operation works on floating-point numbers (`MAX`, `MIN`, `SUM`)
    pub open spec fn spec_is_float(&self) -> bool {
        self is Max || self is Min || self is Sum
    }

    /// Checks whether the operation works on floating-point numbers (`MAX`, `MIN`, `SUM`)
    pub fn is_float(&self) -> (float: bool)
        ensures
            float == self.spec_is_float(),
    {
        match self {
            SubstituteOperation::Max | SubstituteOperation::Min | SubstituteOperation::Sum => true,
            _ => false,
        }
    }
}

/// What parsing the arguments of `AROP` (after the command's name) gives: the start and the
/// end of the range, and the operation
pub open spec fn spec_parse_arop(args: Seq<Seq<u8>>) -> Result<(u64, u64, OperationSpec), CommandError> {
    if args.len() == 0 {
        Err(CommandError::WrongArity)
    } else {
        match spec_next_start_end(args.drop_first()) {
            Err(e) => Err(e),
            Ok((start, end)) => if args.len() < 4 {
                Err(CommandError::WrongArity)
            } else {
                let name = args[3];
                if is_keyword(name, Keyword::Match.spec_bytes()) {
                    if args.len() < 5 {
                        Err(CommandError::WrongArity)
                    } else if args.len() > 5 {
                        Err(CommandError::WrongArity)
                    } else {
                        Ok((start, end, OperationSpec::Match(args[4])))
                    }
                } else {
                    let op = if is_keyword(name, Keyword::And.spec_bytes()) {
                        Some(OperationSpec::And)
                    } else if is_keyword(name, Keyword::Max.spec_bytes()) {
                        Some(OperationSpec::Max)
                    } else if is_keyword(name, Keyword::Min.spec_bytes()) {
                        Some(OperationSpec::Min)
                    } else if is_keyword(name, Keyword::Or.spec_bytes()) {
                        Some(OperationSpec::Or)
                    } else if is_keyword(name, Keyword::Sum.spec_bytes()) {
                        Some(OperationSpec::Sum)
                    } else if is_keyword(name, Keyword::Used.spec_bytes()) {
                        Some(OperationSpec::Used)
                    } else if is_keyword(name, Keyword::Xor.spec_bytes()) {
                        Some(OperationSpec::Xor)
                    } else {
                        None
                    };
                    match op {
                        None => Err(CommandError::UnknownAropOperation),
                        Some(op) => if args.len() > 4 {
                            Err(CommandError::WrongArity)
                        } else {
                            Ok((start, end, op))
                        },
                    }
                }
            },
        }
    }
}

/// Parses the arguments of `AROP`: a key, a start, an end and an operation (`MATCH` takes a
/// search expression)
pub fn parse_arop(args: Vec<Vec<u8>>) -> (parsed: Result<(Range, SubstituteOperation), CommandError>)
    ensures
        match (parsed, spec_parse_arop(command_args(args@))) {
            (Ok((r, op)), Ok((start, end, o))) => r.wf() && r.spec_start() == start
                && r.spec_end() == end && r.remaining() == positions_between(start, end) && op@
                == o,
            (Err(e), Err(f)) => e == f,
            _ => false,
        },
{
    let mut arg_iter = ArgIter::from_command(args);
    let ghost all = arg_iter.remaining();
    if let Err(e) = arg_iter.next_arg() {
        return Err(e);
    }
    let range = match arg_iter.next_start_end() {
        Ok(r) => r,
        Err(e) => return Err(e),
    };
    assert(arg_iter.remaining() =~= all.skip(3));

    // Parse operation
    let name = match arg_iter.next_arg() {
        Ok(n) => n,
        Err(e) => return Err(e),
    };
    let op_subst = if Keyword::And.is(name.as_slice()) {
        SubstituteOperation::And
    } else if Keyword::Match.is(name.as_slice()) {
        match arg_iter.next_arg() {
            Ok(search_expr) => SubstituteOperation::Match(search_expr),
            Err(e) => return Err(e),
        }
    } else if Keyword::Max.is(name.as_slice()) {
        SubstituteOperation::Max
    } else if Keyword::Min.is(name.as_slice()) {
        SubstituteOperation::Min
    } else if Keyword::Or.is(name.as_slice()) {
        SubstituteOperation::Or
    } else if Keyword::Sum.is(name.as_slice()) {
        SubstituteOperation::Sum
    } else if Keyword::Used.is(name.as_slice()) {
        SubstituteOperation::Used
    } else if Keyword::Xor.is(name.as_slice()) {
        SubstituteOperation::Xor
    } else {
        return Err(CommandError::UnknownAropOperation);
    };

    match err_if_further_arguments(arg_iter) {
        Ok(()) => Ok((range, op_subst)),
        Err(e) => Err(e),
    }
}

/// The values at the positions among `positions` that hold one, in order
pub open spec fn used_values(values: Map<u64, Seq<u8>>, positions: Seq<u64>) -> Seq<Seq<u8>> {
    used_positions(values, positions).map_values(|p: u64| values[p])
}

/// What an integer operation gives for the values it is run on
pub open spec fn spec_op_result(op: OperationSpec, values: Seq<Seq<u8>>) -> OpResult {
    match op {
        OperationSpec::Match(e) => OpResult::Integer(count_equal(values, e) as i64),
        OperationSpec::Used => OpResult::Integer(values.len() as i64),
        OperationSpec::And => and_result(values),
        OperationSpec::Or => or_result(values),
        OperationSpec::Xor => xor_result(values),
        _ => OpResult::Null,
    }
}

/// Removing a key that `positions` does not hold keeps the used positions
proof fn lemma_used_positions_remove(values: Map<u64, Seq<u8>>, positions: Seq<u64>, p: u64)
    requires
        !positions.contains(p),
    ensures
        used_positions(values.remove(p), positions) == used_positions(values, positions),
    decreases positions.len(),
{
    if positions.len() > 0 {
        assert(!positions.drop_first().contains(p)) by {
            if positions.drop_first().contains(p) {
                let i = choose|i: int| 0 <= i < positions.drop_first().len() && positions.drop_first()[i] == p;
                assert(positions[i + 1] == p);
            }
        }
        lemma_used_positions_remove(values, positions.drop_first(), p);
    }
}

/// Distinct positions have at most as many used ones as the array holds values
pub proof fn lemma_used_positions_bounded(values: Map<u64, Seq<u8>>, positions: Seq<u64>)
    requires
        positions.no_duplicates(),
        values.dom().finite(),
    ensures
        used_positions(values, positions).len() <= values.dom().len(),
    decreases positions.len(),
{
    if positions.len() > 0 {
        let p = positions[0];
        let rest = positions.drop_first();
        assert(rest.no_duplicates());
        assert(!rest.contains(p)) by {
            if rest.contains(p) {
                let i = choose|i: int| 0 <= i < rest.len() && rest[i] == p;
                assert(positions[i + 1] == p);
            }
        }
        if values.contains_key(p) {
            lemma_used_positions_remove(values, rest, p);
            lemma_used_positions_bounded(values.remove(p), rest);
            assert(values.remove(p).dom() =~= values.dom().remove(p));
        } else {
            lemma_used_positions_bounded(values, rest);
        }
    }
}

/// Executes an integer operation (everything but `MAX`, `MIN` and `SUM`) on the values of
/// the range
pub fn act_on_range(array: &Array, range: Range, op_subst: SubstituteOperation) -> (result: OpResult)
    requires
        array.wf(),
        range.wf(),
        !op_subst.spec_is_float(),
        array@.values.len() <= i64::MAX,
    ensures
        result == spec_op_result(op_subst@, used_values(array@.values, range.remaining())),
{
    let ghost all = range.remaining();
    let ghost vals = used_values(array@.values, all);
    proof {
        range.lemma_remaining_distinct();
        lemma_used_positions_bounded(array@.values, all);
    }
    let entries = used_entries(array, range, None);
    match op_subst {
        SubstituteOperation::Used => {
            let mut op = UsedOperation::new();
            let mut i: usize = 0;
            while i < entries.len()
                invariant
                    i <= entries.len(),
                    entries.len() == vals.len(),
                    vals.len() <= i64::MAX,
                    forall|j: int| 0 <= j < entries.len() ==> (#[trigger] entries[j]).1@ == vals[j],
                    op.wf(),
                    op.seen() == vals.take(i as int),
                decreases entries.len() - i,
            {
                op.accumulate(entries[i].1.as_slice());
                assert(vals.take(i as int).push(vals[i as int]) =~= vals.take(i + 1));
                i = i + 1;
            }
            assert(vals.take(i as int) =~= vals);
            op.build_result()
        },
        SubstituteOperation::Match(search_expr) => {
            let ghost e = search_expr@;
            let mut op = MatchOperation::new(search_expr);
            let mut i: usize = 0;
            while i < entries.len()
                invariant
                    i <= entries.len(),
                    entries.len() == vals.len(),
                    vals.len() <= i64::MAX,
                    forall|j: int| 0 <= j < entries.len() ==> (#[trigger] entries[j]).1@ == vals[j],
                    op.wf(),
                    op.seen() == vals.take(i as int),
                    op.spec_search_expr() == e,
                decreases entries.len() - i,
            {
                op.accumulate(entries[i].1.as_slice());
                assert(vals.take(i as int).push(vals[i as int]) =~= vals.take(i + 1));
                i = i + 1;
            }
            assert(vals.take(i as int) =~= vals);
            op.build_result()
        },
        SubstituteOperation::Or => {
            let mut op = OrOperation::new();
            let mut i: usize = 0;
            while i < entries.len()
                invariant
                    i <= entries.len(),
                    entries.len() == vals.len(),
                    vals.len() <= i64::MAX,
                    forall|j: int| 0 <= j < entries.len() ==> (#[trigger] entries[j]).1@ == vals[j],
                    op.wf(),
                    op.seen() == vals.take(i as int),
                decreases entries.len() - i,
            {
                op.accumulate(entries[i].1.as_slice());
                assert(vals.take(i as int).push(vals[i as int]) =~= vals.take(i + 1));
                i = i + 1;
            }
            assert(vals.take(i as int) =~= vals);
            op.build_result()
        },
        SubstituteOperation::And => {
            let mut op = AndOperation::new();
            let mut i: usize = 0;
            while i < entries.len()
                invariant
                    i <= entries.len(),
                    entries.len() == vals.len(),
                    vals.len() <= i64::MAX,
                    forall|j: int| 0 <= j < entries.len() ==> (#[trigger] entries[j]).1@ == vals[j],
                    op.wf(),
                    op.seen() == vals.take(i as int),
                decreases entries.len() - i,
            {
                op.accumulate(entries[i].1.as_slice());
                assert(vals.take(i as int).push(vals[i as int]) =~= vals.take(i + 1));
                i = i + 1;
            }
            assert(vals.take(i as int) =~= vals);
            op.build_result()
        },
        SubstituteOperation::Xor => {
            let mut op = XorOperation::new();
            let mut i: usize = 0;
            while i < entries.len()
                invariant
                    i <= entries.len(),
                    entries.len() == vals.len(),
                    vals.len() <= i64::MAX,
                    forall|j: int| 0 <= j < entries.len() ==> (#[trigger] entries[j]).1@ == vals[j],
                    op.wf(),
                    op.seen() == vals.take(i as int),
                decreases entries.len() - i,
            {
                op.accumulate(entries[i].1.as_slice());
                assert(vals.take(i as int).push(vals[i as int]) =~= vals.take(i + 1));
                i = i + 1;
            }
            assert(vals.take(i as int) =~= vals);
            op.build_result()
        },
        _ => OpResult::Null,
    }
}

} // verus!
