//! The `ARSCAN` command: gets the used positions of a range along with their values

use crate::array::range::positions_between;
use crate::array::{Array, Range};
use crate::commands::utils::{
    ArgIter, CommandError, Keyword, command_args, err_if_further_arguments, is_keyword,
    spec_next_range, spec_next_u64,
};
use vstd::prelude::*;

verus! {

/// What parsing the arguments of `ARSCAN` (after the command's name) gives: the range (smaller
/// position first) and the optional limit
pub open spec fn spec_parse_arscan(args: Seq<Seq<u8>>) -> Result<(u64, u64, Option<u64>), CommandError> {
    if args.len() == 0 {
        Err(CommandError::WrongArity)
    } else {
        match spec_next_range(args.drop_first()) {
            Err(e) => Err(e),
            Ok((start, end)) => if args.len() == 3 {
                Ok((start, end, None))
            } else if !is_keyword(args[3], Keyword::Limit.spec_bytes()) {
                Err(CommandError::WrongArity)
            } else {
                match spec_next_u64(args.skip(4)) {
                    Err(e) => Err(e),
                    Ok(limit) => if args.len() > 5 {
                        Err(CommandError::WrongArity)
                    } else {
                        Ok((start, end, Some(limit)))
                    },
                }
            },
        }
    }
}

/// Parses the arguments of `ARSCAN`: a key, two positions and an optional `LIMIT` with its
/// count
pub fn parse_arscan(args: Vec<Vec<u8>>) -> (parsed: Result<(Range, Option<u64>), CommandError>)
    ensures
        match (parsed, spec_parse_arscan(command_args(args@))) {
            (Ok((r, l)), Ok((start, end, limit))) => r.wf() && r.spec_start() == start
                && r.spec_end() == end && r.remaining() == positions_between(start, end) && l
                == limit,
            (Err(e), Err(f)) => e == f,
            _ => false,
        },
{
    let mut arg_iter = ArgIter::from_command(args);
    let ghost all = arg_iter.remaining();
    if let Err(e) = arg_iter.next_arg() {
        return Err(e);
    }
    let range = match arg_iter.next_range() {
        Ok(r) => r,
        Err(e) => return Err(e),
    };
    assert(arg_iter.remaining() =~= all.skip(3));
    let mut opt_limit = None;

    // Parse optional limit
    if let Some(arg) = arg_iter.next() {
        if Keyword::Limit.is(arg.as_slice()) {
            assert(arg_iter.remaining() =~= all.skip(4));
            match arg_iter.next_u64() {
                Ok(limit) => opt_limit = Some(limit),
                Err(e) => return Err(e),
            }
        } else {
            return Err(CommandError::WrongArity);
        }
        if let Err(e) = err_if_further_arguments(arg_iter) {
            return Err(e);
        }
    }
    Ok((range, opt_limit))
}

/// The positions among `positions` that hold a value, in order
pub open spec fn used_positions(values: Map<u64, Seq<u8>>, positions: Seq<u64>) -> Seq<u64>
    decreases positions.len(),
{
    if positions.len() == 0 {
        Seq::empty()
    } else {
        let rest = used_positions(values, positions.drop_first());
        if values.contains_key(positions[0]) {
            seq![positions[0]] + rest
        } else {
            rest
        }
    }
}

/// The positions `ARSCAN` reports: the used positions of the range, only the first `limit`
/// of them if there is a limit
pub open spec fn scanned_positions(values: Map<u64, Seq<u8>>, positions: Seq<u64>, limit: Option<u64>) -> Seq<u64> {
    let used = used_positions(values, positions);
    match limit {
        Some(l) => if l < used.len() {
            used.take(l as int)
        } else {
            used
        },
        None => used,
    }
}

/// Executes the command on each position in the range (inclusive)
///
/// # Returns
///
/// The used positions of the range, each along with its value
pub fn act_on_range<'a>(array: &'a Array, range: Range, opt_limit: Option<u64>) -> (items: Vec<(u64, &'a Vec<u8>)>)
    requires
        array.wf(),
        range.wf(),
    ensures
        ({
            let found = scanned_positions(array@.values, range.remaining(), opt_limit);
            &&& items.len() == found.len()
            &&& forall|i: int| 0 <= i < items.len() ==> (#[trigger] items[i]).0 == found[i]
            &&& forall|i: int|
                0 <= i < items.len() ==> (#[trigger] items[i]).1@ == array@.values[found[i]]
        }),
{
    let ghost all = range.remaining();
    let (limited, limit) = match opt_limit {
        Some(limit) => {
            if limit == 0 {
                // Nothing to do
                return Vec::new();
            }
            (true, limit)
        },
        None => (false, 0),
    };

    let mut items: Vec<(u64, &'a Vec<u8>)> = Vec::new();
    let ghost mut found: Seq<u64> = Seq::empty();
    let mut iter = array.range_iter(range);
    loop
        invariant
            array.wf(),
            iter.wf(),
            iter.source_view() == array@,
            all == range.remaining(),
            limited == opt_limit is Some,
            limited ==> limit == opt_limit->0 && limit > 0,
            limited ==> found.len() < limit,
            used_positions(array@.values, all) == found + used_positions(
                array@.values,
                iter.remaining(),
            ),
            items.len() == found.len(),
            forall|i: int| 0 <= i < items.len() ==> (#[trigger] items[i]).0 == found[i],
            forall|i: int| 0 <= i < items.len() ==> (#[trigger] items[i]).1@ == array@.values[found[i]],
        decreases iter.remaining().len(),
    {
        let ghost before = iter.remaining();
        match iter.next() {
            None => {
                assert(found + Seq::<u64>::empty() =~= found);
                return items;
            },
            Some((position, maybe_value)) => {
                let ghost old_found = found;
                if let Some(value) = maybe_value {
                    items.push((position, value));
                    proof {
                        found = found.push(position);
                        assert(old_found + (seq![position] + used_positions(array@.values, before.drop_first())) =~= found + used_positions(array@.values, before.drop_first()));
                    }
                }
                // Checking an eventual limit
                if limited && items.len() as u64 == limit {
                    proof {
                        let used = used_positions(array@.values, all);
                        assert(used.take(limit as int) =~= found);
                    }
                    return items;
                }
            },
        }
    }
}

} // verus!
