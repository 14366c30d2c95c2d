//! The `ARLASTITEMS` command: gives the values up to the current insert position

use crate::array::range::positions_between;
use crate::array::{Array, Range};
use crate::commands::argetrange::{act_on_range, values_at};
use crate::commands::utils::{
    ArgIter, CommandError, Keyword, command_args, err_if_further_arguments, is_keyword,
    spec_next_position,
};
use vstd::prelude::*;

verus! {

/// What parsing the arguments of `ARLASTITEMS` (after the command's name) gives: the count and
/// whether `REV` was asked for
pub open spec fn spec_parse_arlastitems(args: Seq<Seq<u8>>) -> Result<(u64, bool), CommandError> {
    if args.len() == 0 {
        Err(CommandError::WrongArity)
    } else {
        match spec_next_position(args.drop_first()) {
            Err(e) => Err(e),
            Ok(count) => if args.len() == 2 {
                Ok((count, false))
            } else if !is_keyword(args[2], Keyword::Rev.spec_bytes()) || args.len() > 3 {
                Err(CommandError::WrongArity)
            } else {
                Ok((count, true))
            },
        }
    }
}

/// Parses the arguments of `ARLASTITEMS`: a key, a count and the optional `REV`
pub fn parse_arlastitems(args: Vec<Vec<u8>>) -> (parsed: Result<(u64, bool), CommandError>)
    ensures
        parsed == spec_parse_arlastitems(command_args(args@)),
{
    let mut arg_iter = ArgIter::from_command(args);
    if let Err(e) = arg_iter.next_arg() {
        return Err(e);
    }
    // As the count relates to the indices, we parse it as position
    let count = match arg_iter.next_position() {
        Ok(c) => c,
        Err(e) => return Err(e),
    };
    let mut reverse = false;
    if let Some(arg) = arg_iter.next() {
        if Keyword::Rev.is(arg.as_slice()) {
            reverse = true;
        } else {
            return Err(CommandError::WrongArity);
        }
    }
    match err_if_further_arguments(arg_iter) {
        Ok(()) => Ok((count, reverse)),
        Err(e) => Err(e),
    }
}

/// The positions `ARLASTITEMS` reports for an insert cursor at `cursor`: the last `count`
/// positions before the cursor (fewer if the cursor is closer to 0), in ascending order or,
/// if `reverse`, in descending order
pub open spec fn last_positions(cursor: u64, count: u64, reverse: bool) -> Seq<u64> {
    if count == 0 || cursor == 0 {
        Seq::empty()
    } else {
        let end = (cursor - 1) as u64;
        let start = (end - if count - 1 < end {
            count - 1
        } else {
            end as int
        }) as u64;
        if reverse {
            positions_between(end, start)
        } else {
            positions_between(start, end)
        }
    }
}

/// Executes the command on the given args
pub fn act_on_args<'a>(array: &'a Array, count: u64, reverse: bool) -> (items: Vec<Option<&'a Vec<u8>>>)
    requires
        array.wf(),
        count <= usize::MAX || array@.insert_cursor <= usize::MAX,
    ensures
        values_at(array@.values, last_positions(array@.insert_cursor, count, reverse), items@),
{
    let cursor = array.get_insert_cursor();
    // Bail out, if there's nothing to do
    if count == 0 {
        return Vec::new();
    }

    // Bail out, if we cannot go back from the cursor
    if cursor == 0 {
        return Vec::new();
    }

    let end = cursor - 1;
    let back = if count - 1 < end {
        count - 1
    } else {
        end
    };
    let start = end - back;
    let range = Range::new_maybe_rev(start, end, reverse);
    act_on_range(array, range)
}

} // verus!
