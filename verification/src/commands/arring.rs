//! The `ARRING` command: inserts values in ring-buffer fashion

use crate::array::Array;
use crate::commands::utils::{ArgIter, CommandError, command_args, spec_next_position};
use vstd::prelude::*;

verus! {

/// What parsing the arguments of `ARRING` (after the command's name) gives: the buffer size
/// and the first value (more values are the arguments after it)
pub open spec fn spec_parse_arring(args: Seq<Seq<u8>>) -> Result<(u64, Seq<u8>), CommandError> {
    if args.len() == 0 {
        Err(CommandError::WrongArity)
    } else {
        match spec_next_position(args.drop_first()) {
            Err(e) => Err(e),
            Ok(buffer_size) => if args.len() < 3 {
                Err(CommandError::WrongArity)
            } else {
                Ok((buffer_size, args[2]))
            },
        }
    }
}

/// Parses the arguments of `ARRING`: a key, a buffer size and one or more values
///
/// # Returns
///
/// The buffer size and the first value, along with the further values, still to be consumed
pub fn parse_arring(args: Vec<Vec<u8>>) -> (parsed: Result<(u64, Vec<u8>, ArgIter), CommandError>)
    ensures
        match (parsed, spec_parse_arring(command_args(args@))) {
            (Ok((size, first, items)), Ok((s, f))) => size == s && first@ == f
                && items.remaining() == command_args(args@).skip(3),
            (Err(e), Err(f)) => e == f,
            _ => false,
        },
{
    let mut arg_iter = ArgIter::from_command(args);
    let ghost all = arg_iter.remaining();
    if let Err(e) = arg_iter.next_arg() {
        return Err(e);
    }
    // As the buffer size is the array position where it wraps over, we parse as position
    let buffer_size = match arg_iter.next_position() {
        Ok(s) => s,
        Err(e) => return Err(e),
    };
    // Pulling the first item already here. So, if it's missing, we bail out early, before
    // touching the key.
    match arg_iter.next_arg() {
        Ok(first_item) => {
            assert(all.drop_first().drop_first().drop_first() =~= all.skip(3));
            Ok((buffer_size, first_item, arg_iter))
        },
        Err(e) => Err(e),
    }
}

/// The values and the insert cursor after inserting `items` one after the other in
/// ring-buffer fashion into an array holding `values` with its cursor at `cursor`: each value
/// lands at the cursor taken modulo `buffer_size`, and the cursor moves to the next position
/// modulo `buffer_size`
pub open spec fn ring_insert_all(
    values: Map<u64, Seq<u8>>,
    cursor: u64,
    buffer_size: u64,
    items: Seq<Seq<u8>>,
) -> (Map<u64, Seq<u8>>, u64)
    recommends
        buffer_size > 0,
    decreases items.len(),
{
    if items.len() == 0 {
        (values, cursor)
    } else {
        let (v, c) = ring_insert_all(values, cursor, buffer_size, items.drop_last());
        let p = (c % buffer_size) as u64;
        (v.insert(p, items.last()), ((p + 1) % (buffer_size as int)) as u64)
    }
}

/// Inserts the values one after the other in ring-buffer fashion
///
/// # Returns
///
/// The position of the last inserted value
pub fn act_on_items(array: &mut Array, buffer_size: u64, first_item: Vec<u8>, items: &mut ArgIter) -> (last: u64)
    requires
        old(array).wf(),
        buffer_size > 0,
    ensures
        ({
            let all = seq![first_item@] + old(items).remaining();
            let (values, cursor) = ring_insert_all(
                old(array)@.values,
                old(array)@.insert_cursor,
                buffer_size,
                all,
            );
            &&& final(array).wf()
            &&& final(array)@.values == values
            &&& final(array)@.insert_cursor == cursor
            &&& last == ring_insert_all(
                old(array)@.values,
                old(array)@.insert_cursor,
                buffer_size,
                all.drop_last(),
            ).1 % buffer_size
        }),
        final(items).remaining().len() == 0,
{
    let ghost all = seq![first_item@] + items.remaining();
    let ghost values0 = array@.values;
    let ghost cursor0 = array@.insert_cursor;
    let ghost first_view = first_item@;
    let mut last_insert_pos = array.insert_ring(buffer_size, first_item);
    let ghost mut done: int = 1;
    proof {
        assert(all.take(1) =~= seq![first_view]);
        assert(all.take(1).drop_last() =~= Seq::<Seq<u8>>::empty());
        let (v, c) = ring_insert_all(values0, cursor0, buffer_size, all.take(1));
        assert(ring_insert_all(values0, cursor0, buffer_size, all.take(1).drop_last()) == (
        values0, cursor0));
        assert(v == values0.insert((cursor0 % buffer_size) as u64, first_view));
        assert(array@.values == v);
    }
    loop
        invariant
            array.wf(),
            buffer_size > 0,
            all == seq![first_item@] + old(items).remaining(),
            values0 == old(array)@.values,
            cursor0 == old(array)@.insert_cursor,
            1 <= done <= all.len(),
            done + items.remaining().len() == all.len(),
            items.remaining() == all.skip(done),
            (array@.values, array@.insert_cursor) == ring_insert_all(
                values0,
                cursor0,
                buffer_size,
                all.take(done),
            ),
            last_insert_pos == ring_insert_all(
                values0,
                cursor0,
                buffer_size,
                all.take(done).drop_last(),
            ).1 % buffer_size,
        decreases items.remaining().len(),
    {
        let item = match items.next() {
            Some(item) => item,
            None => {
                assert(all.take(done) =~= all);
                return last_insert_pos;
            },
        };
        let ghost item_view = item@;
        proof {
            assert(all.take(done + 1).drop_last() =~= all.take(done));
            assert(all.skip(done).drop_first() =~= all.skip(done + 1));
            assert(all[done] == item_view);
        }
        last_insert_pos = array.insert_ring(buffer_size, item);
        proof {
            done = done + 1;
        }
    }
}

} // verus!
