//! The `ARSET` command: sets values at consecutive positions

use crate::array::Array;
use crate::commands::utils::{
    ArgIter, CommandError, command_args, lemma_difference_insert, spec_next_u64,
};
use vstd::prelude::*;

verus! {

/// What parsing the arguments of `ARSET` (after the command's name) gives: the first
/// position (the values are the arguments after it)
pub open spec fn spec_parse_arset(args: Seq<Seq<u8>>) -> Result<u64, CommandError> {
    if args.len() == 0 {
        Err(CommandError::WrongArity)
    } else {
        spec_next_u64(args.drop_first())
    }
}

/// Parses the arguments of `ARSET`: a key, a position and any number of values
///
/// # Returns
///
/// The position along with the values, still to be consumed
pub fn parse_arset(args: Vec<Vec<u8>>) -> (parsed: Result<(u64, ArgIter), CommandError>)
    ensures
        match (parsed, spec_parse_arset(command_args(args@))) {
            (Ok((p, items)), Ok(q)) => p == q && items.remaining() == command_args(args@).skip(2),
            (Err(e), Err(f)) => e == f,
            _ => false,
        },
{
    let mut arg_iter = ArgIter::from_command(args);
    let ghost all = arg_iter.remaining();
    if let Err(e) = arg_iter.next_arg() {
        return Err(e);
    }
    match arg_iter.next_u64() {
        Ok(position) => {
            assert(all.drop_first().drop_first() =~= all.skip(2));
            Ok((position, arg_iter))
        },
        Err(e) => Err(e),
    }
}

/// The values `items` placed at consecutive positions from `start` on
pub open spec fn placed(start: u64, items: Seq<Seq<u8>>) -> Map<u64, Seq<u8>> {
    Map::new(|p: u64| start <= p < start + items.len(), |p: u64| items[p - start])
}

/// The positions from `start` (included) to `end` (excluded)
pub open spec fn interval(start: u64, end: int) -> Set<u64> {
    Set::new(|p: u64| start <= p < end)
}

proof fn lemma_interval_finite(start: u64, end: int)
    ensures
        interval(start, end).finite(),
    decreases end - start,
{
    if end <= start {
        assert(interval(start, end) =~= Set::<u64>::empty());
    } else {
        lemma_interval_finite(start, end - 1);
        if end - 1 <= u64::MAX {
            assert(interval(start, end) =~= interval(start, end - 1).insert((end - 1) as u64));
        } else {
            assert(interval(start, end) =~= interval(start, end - 1));
        }
    }
}

/// Sets the values at consecutive positions from `position` on
///
/// # Returns
///
/// The number of positions that were unused before
pub fn act_on_items(array: &mut Array, position: u64, items: &mut ArgIter) -> (count: u64)
    requires
        old(array).wf(),
        position + old(items).remaining().len() <= u64::MAX,
    ensures
        final(array).wf(),
        final(array)@.values == old(array)@.values.union_prefer_right(
            placed(position, old(items).remaining()),
        ),
        final(array)@.insert_cursor == old(array)@.insert_cursor,
        count == interval(position, position + old(items).remaining().len()).difference(
            old(array)@.values.dom(),
        ).len(),
        final(items).remaining().len() == 0,
{
    let ghost all = items.remaining();
    let ghost dom = array@.values.dom();
    let mut count: u64 = 0;
    let mut pos = position;
    proof {
        assert(interval(position, position as int) =~= Set::<u64>::empty());
        assert(Set::<u64>::empty().difference(dom) =~= Set::<u64>::empty());
        assert(old(array)@.values.union_prefer_right(placed(position, all.take(0)))
            =~= old(array)@.values);
    }
    loop
        invariant
            array.wf(),
            all == old(items).remaining(),
            dom == old(array)@.values.dom(),
            position <= pos,
            position + all.len() <= u64::MAX,
            pos - position + items.remaining().len() == all.len(),
            items.remaining() == all.skip(pos - position),
            array@.values == old(array)@.values.union_prefer_right(
                placed(position, all.take(pos - position)),
            ),
            array@.insert_cursor == old(array)@.insert_cursor,
            count == interval(position, pos as int).difference(dom).len(),
            count <= pos - position,
        decreases items.remaining().len(),
    {
        let ghost k = pos - position;
        let item = match items.next() {
            Some(item) => item,
            None => {
                assert(all.take(k) =~= all);
                return count;
            },
        };
        proof {
            lemma_interval_finite(position, pos as int);
            lemma_difference_insert(interval(position, pos as int), dom, pos);
            assert(interval(position, pos as int).insert(pos) =~= interval(position, pos + 1));
            assert(array@.values.contains_key(pos) == dom.contains(pos));
        }
        let ghost item_view = item@;
        let added = array.set(pos, item);
        count = count + added as u64;
        pos = pos + 1;
        proof {
            assert(all.skip(k).drop_first() =~= all.skip(k + 1));
            assert(all[k] == item_view);
            assert(array@.values =~= old(array)@.values.union_prefer_right(
                placed(position, all.take(k + 1)),
            ));
        }
    }
}

} // verus!
