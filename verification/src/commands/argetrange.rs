//! The `ARGETRANGE` command: gets the values of a range of positions

use crate::array::range::positions_between;
use crate::array::{Array, Range};
use crate::commands::utils::{
    ArgIter, CommandError, command_args, err_if_further_arguments, spec_next_start_end,
};
use vstd::prelude::*;

verus! {

/// What parsing the arguments of `ARGETRANGE` (after the command's name) gives: the start
/// and the end of the range
pub open spec fn spec_parse_argetrange(args: Seq<Seq<u8>>) -> Result<(u64, u64), CommandError> {
    if args.len() == 0 {
        Err(CommandError::WrongArity)
    } else {
        match spec_next_start_end(args.drop_first()) {
            Err(e) => Err(e),
            Ok(range) => if args.len() > 3 {
                Err(CommandError::WrongArity)
            } else {
                Ok(range)
            },
        }
    }
}

/// Parses the arguments of `ARGETRANGE`: a key, a start and an end
pub fn parse_argetrange(args: Vec<Vec<u8>>) -> (parsed: Result<Range, CommandError>)
    ensures
        match (parsed, spec_parse_argetrange(command_args(args@))) {
            (Ok(r), Ok((start, end))) => r.wf() && r.spec_start() == start && r.spec_end() == end
                && r.remaining() == positions_between(start, end),
            (Err(e), Err(f)) => e == f,
            _ => false,
        },
{
    let mut arg_iter = ArgIter::from_command(args);
    let ghost all = arg_iter.remaining();
    if let Err(e) = arg_iter.next_arg() {
        return Err(e);
    }
    let range = match arg_iter.next_start_end() {
        Ok(r) => r,
        Err(e) => return Err(e),
    };
    assert(all.drop_first().skip(2).len() == 0 <==> all.len() <= 3);
    match err_if_further_arguments(arg_iter) {
        Ok(()) => Ok(range),
        Err(e) => Err(e),
    }
}

/// The values found at `positions` in an array holding `values`: `items` holds, for each
/// position in order, the value there or `None`
pub open spec fn values_at<'a>(
    values: Map<u64, Seq<u8>>,
    positions: Seq<u64>,
    items: Seq<Option<&'a Vec<u8>>>,
) -> bool {
    &&& items.len() == positions.len()
    &&& forall|i: int|
        0 <= i < items.len() ==> ((#[trigger] items[i]) is None <==> !values.contains_key(
            positions[i],
        ))
    &&& forall|i: int|
        0 <= i < items.len() ==> ((#[trigger] items[i]) matches Some(v) ==> v@ == values[positions[i]])
}

/// Executes the command on each position in the range (inclusive)
pub fn act_on_range<'a>(array: &'a Array, range: Range) -> (items: Vec<Option<&'a Vec<u8>>>)
    requires
        array.wf(),
        range.wf(),
        range.remaining().len() <= usize::MAX,
    ensures
        values_at(array@.values, range.remaining(), items@),
{
    let ghost all = range.remaining();
    let mut items: Vec<Option<&'a Vec<u8>>> = Vec::new();
    let mut iter = array.range_iter(range);
    loop
        invariant
            array.wf(),
            iter.wf(),
            iter.source_view() == array@,
            all.len() <= usize::MAX,
            all == range.remaining(),
            items.len() + iter.remaining().len() == all.len(),
            iter.remaining() == all.skip(items.len() as int),
            values_at(array@.values, all.take(items.len() as int), items@),
        decreases iter.remaining().len(),
    {
        match iter.next() {
            Some((position, value)) => {
                let ghost n = items.len() as int;
                items.push(value);
                proof {
                    assert(all.skip(n).drop_first() =~= all.skip(n + 1));
                    assert(all.take(n + 1) =~= all.take(n).push(position));
                }
            },
            None => {
                assert(all.take(items.len() as int) =~= all);
                return items;
            },
        }
    }
}

} // verus!
