//! The `ARINSERT` command: inserts values at the insert cursor

use crate::array::Array;
use crate::commands::arset::placed;
use crate::commands::utils::{ArgIter, CommandError, command_args};
use vstd::prelude::*;

verus! {

/// What parsing the arguments of `ARINSERT` (after the command's name) gives: the first value
/// (more values are the arguments after it)
pub open spec fn spec_parse_arinsert(args: Seq<Seq<u8>>) -> Result<Seq<u8>, CommandError> {
    if args.len() < 2 {
        Err(CommandError::WrongArity)
    } else {
        Ok(args[1])
    }
}

/// Parses the arguments of `ARINSERT`: a key and one or more values
///
/// # Returns
///
/// The first value along with the further ones, still to be consumed
pub fn parse_arinsert(args: Vec<Vec<u8>>) -> (parsed: Result<(Vec<u8>, ArgIter), CommandError>)
    ensures
        match (parsed, spec_parse_arinsert(command_args(args@))) {
            (Ok((first, items)), Ok(f)) => first@ == f && items.remaining() == command_args(
                args@,
            ).skip(2),
            (Err(e), Err(f)) => e == f,
            _ => false,
        },
{
    let mut arg_iter = ArgIter::from_command(args);
    let ghost all = arg_iter.remaining();
    if let Err(e) = arg_iter.next_arg() {
        return Err(e);
    }
    // Pulling the first item already here. So, if it's missing, we bail out early, before
    // touching the key.
    match arg_iter.next_arg() {
        Ok(first_item) => {
            assert(all.drop_first().drop_first() =~= all.skip(2));
            Ok((first_item, arg_iter))
        },
        Err(e) => Err(e),
    }
}

/// Inserts the values one after the other at the insert cursor
///
/// # Returns
///
/// The position of the last inserted value
pub fn act_on_items(array: &mut Array, first_item: Vec<u8>, items: &mut ArgIter) -> (last: u64)
    requires
        old(array).wf(),
        old(array)@.insert_cursor + 1 + old(items).remaining().len() <= u64::MAX,
    ensures
        final(array).wf(),
        final(array)@.values == old(array)@.values.union_prefer_right(
            placed(old(array)@.insert_cursor, seq![first_item@] + old(items).remaining()),
        ),
        final(array)@.insert_cursor == old(array)@.insert_cursor + 1 + old(items).remaining().len(),
        last == old(array)@.insert_cursor + old(items).remaining().len(),
        final(items).remaining().len() == 0,
{
    let ghost all = seq![first_item@] + items.remaining();
    let ghost start = array@.insert_cursor;
    let mut last_insert_pos = array.insert(first_item);
    proof {
        assert(all.take(1) =~= seq![all[0]]);
        assert(array@.values =~= old(array)@.values.union_prefer_right(placed(start, all.take(1))));
    }
    loop
        invariant
            array.wf(),
            all == seq![first_item@] + old(items).remaining(),
            start == old(array)@.insert_cursor,
            start + all.len() <= u64::MAX,
            start < array@.insert_cursor,
            last_insert_pos == array@.insert_cursor - 1,
            array@.insert_cursor - start + items.remaining().len() == all.len(),
            items.remaining() == all.skip(array@.insert_cursor - start),
            array@.values == old(array)@.values.union_prefer_right(
                placed(start, all.take(array@.insert_cursor - start)),
            ),
        decreases items.remaining().len(),
    {
        let ghost k = array@.insert_cursor - start;
        let item = match items.next() {
            Some(item) => item,
            None => {
                assert(all.take(k) =~= all);
                return last_insert_pos;
            },
        };
        let ghost item_view = item@;
        last_insert_pos = array.insert(item);
        proof {
            assert(all.skip(k).drop_first() =~= all.skip(k + 1));
            assert(all[k] == item_view);
            assert(array@.values =~= old(array)@.values.union_prefer_right(
                placed(start, all.take(k + 1)),
            ));
        }
    }
}

} // verus!
