//! The `ARDELRANGE` command: deletes the values of ranges of positions

use crate::array::range::positions_between;
use crate::array::{Array, Range};
use crate::commands::utils::{
    ArgIter, CommandError, command_args, lemma_intersect_insert, spec_next_position,
    spec_next_range,
};
use vstd::prelude::*;

verus! {

/// What reading all of `args` as pairs of positions gives (each pair with its smaller
/// position first)
pub open spec fn spec_parse_ranges(args: Seq<Seq<u8>>) -> Result<Seq<(u64, u64)>, CommandError>
    decreases args.len(),
{
    if args.len() == 0 {
        Ok(Seq::empty())
    } else if args.len() == 1 {
        match spec_next_position(args) {
            Err(e) => Err(e),
            Ok(_) => Err(CommandError::WrongArity),
        }
    } else {
        match spec_next_range(args) {
            Err(e) => Err(e),
            Ok(r) => match spec_parse_ranges(args.skip(2)) {
                Err(e) => Err(e),
                Ok(rs) => Ok(seq![r] + rs),
            },
        }
    }
}

/// What parsing the arguments of `ARDELRANGE` (after the command's name) gives: the ranges
pub open spec fn spec_parse_ardelrange(args: Seq<Seq<u8>>) -> Result<Seq<(u64, u64)>, CommandError> {
    if args.len() == 0 {
        Err(CommandError::WrongArity)
    } else {
        spec_parse_ranges(args.drop_first())
    }
}

/// The start and the end of each range
pub open spec fn bounds(ranges: Seq<Range>) -> Seq<(u64, u64)> {
    ranges.map_values(|r: Range| (r.spec_start(), r.spec_end()))
}

/// Parses the arguments of `ARDELRANGE`: a key and any number of pairs of positions
pub fn parse_ardelrange(args: Vec<Vec<u8>>) -> (parsed: Result<Vec<Range>, CommandError>)
    ensures
        match (parsed, spec_parse_ardelrange(command_args(args@))) {
            (Ok(rs), Ok(bs)) => bounds(rs@) == bs && forall|i: int|
                0 <= i < rs.len() ==> (#[trigger] rs[i]).wf() && rs[i].spec_start()
                    <= rs[i].spec_end() && rs[i].remaining() == positions_between(
                    rs[i].spec_start(),
                    rs[i].spec_end(),
                ),
            (Err(e), Err(f)) => e == f,
            _ => false,
        },
{
    let mut arg_iter = ArgIter::from_command(args);
    let ghost all = arg_iter.remaining();
    if let Err(e) = arg_iter.next_arg() {
        return Err(e);
    }
    let mut ranges: Vec<Range> = Vec::new();
    assert(bounds(ranges@) =~= Seq::<(u64, u64)>::empty());
    while arg_iter.has_next()
        invariant
            all == command_args(args@),
            all.len() > 0,
            spec_parse_ranges(all.drop_first()) == match spec_parse_ranges(arg_iter.remaining()) {
                Err(e) => Err(e),
                Ok(rs) => Ok(bounds(ranges@) + rs),
            },
            forall|i: int|
                0 <= i < ranges.len() ==> (#[trigger] ranges[i]).wf() && ranges[i].spec_start()
                    <= ranges[i].spec_end() && ranges[i].remaining() == positions_between(
                    ranges[i].spec_start(),
                    ranges[i].spec_end(),
                ),
        decreases arg_iter.remaining().len(),
    {
        let ghost before = arg_iter.remaining();
        let range = arg_iter.next_range();
        match range {
            Ok(r) => {
                let ghost old_bounds = bounds(ranges@);
                ranges.push(r);
                proof {
                    assert(bounds(ranges@) =~= old_bounds.push((r.spec_start(), r.spec_end())));
                    match spec_parse_ranges(arg_iter.remaining()) {
                        Err(e) => {},
                        Ok(rs) => {
                            assert(old_bounds + (seq![(r.spec_start(), r.spec_end())] + rs)
                                =~= bounds(ranges@) + rs);
                        },
                    }
                }
            },
            Err(e) => {
                return Err(e);
            },
        }
    }
    assert(bounds(ranges@) + Seq::<(u64, u64)>::empty() =~= bounds(ranges@));
    Ok(ranges)
}

/// The positions that lie in one of the ranges (from its start to its end, both included)
pub open spec fn covered(ranges: Seq<Range>) -> Set<u64> {
    Set::new(
        |p: u64|
            exists|i: int|
                0 <= i < ranges.len() && (#[trigger] ranges[i]).spec_start() <= p
                    <= ranges[i].spec_end(),
    )
}

/// Executes the command on each position in the ranges (inclusive)
///
/// # Returns
///
/// The number of values that got deleted
pub fn act_on_ranges(array: &mut Array, ranges: Vec<Range>) -> (count: u64)
    requires
        old(array).wf(),
    ensures
        final(array).wf(),
        final(array)@.values == old(array)@.values.remove_keys(covered(ranges@)),
        final(array)@.insert_cursor == old(array)@.insert_cursor,
        count == old(array)@.values.dom().intersect(covered(ranges@)).len(),
{
    let ghost dom = array@.values.dom();
    let total = array.count();
    let mut count: u64 = 0;
    let ghost mut deleted: Set<u64> = Set::empty();
    let mut k: usize = 0;
    proof {
        assert(covered(ranges@.take(0)) =~= Set::<u64>::empty());
        assert(dom.intersect(Set::<u64>::empty()) =~= Set::<u64>::empty());
    }
    while k < ranges.len()
        invariant
            array.wf(),
            dom == old(array)@.values.dom(),
            dom.finite(),
            dom.len() == total,
            k <= ranges@.len(),
            deleted == covered(ranges@.take(k as int)),
            array@.values == old(array)@.values.remove_keys(deleted),
            array@.insert_cursor == old(array)@.insert_cursor,
            count == dom.intersect(deleted).len(),
        decreases ranges@.len() - k,
    {
        let start = ranges[k].start();
        let end = ranges[k].end();
        if start <= end {
            let mut pos = start;
            loop
                invariant_except_break
                    deleted == covered(ranges@.take(k as int)).union(
                        Set::new(|p: u64| start <= p < pos),
                    ),
                invariant
                    array.wf(),
                    dom == old(array)@.values.dom(),
                    dom.finite(),
                    dom.len() == total,
                    start <= pos <= end,
                    array@.values == old(array)@.values.remove_keys(deleted),
                    array@.insert_cursor == old(array)@.insert_cursor,
                    count == dom.intersect(deleted).len(),
                ensures
                    deleted == covered(ranges@.take(k as int)).union(
                        Set::new(|p: u64| start <= p <= end),
                    ),
                    array.wf(),
                    array@.values == old(array)@.values.remove_keys(deleted),
                    array@.insert_cursor == old(array)@.insert_cursor,
                    count == dom.intersect(deleted).len(),
                decreases end - pos,
            {
                proof {
                    lemma_intersect_insert(dom, deleted, pos);
                    vstd::set_lib::lemma_len_intersect(dom, deleted.insert(pos));
                }
                let deleted_here = array.del(pos);
                count = count + deleted_here;
                proof {
                    deleted = deleted.insert(pos);
                    assert(array@.values =~= old(array)@.values.remove_keys(deleted));
                }
                if pos == end {
                    assert(deleted =~= covered(ranges@.take(k as int)).union(
                        Set::new(|p: u64| start <= p <= end),
                    ));
                    break;
                }
                pos = pos + 1;
                assert(deleted =~= covered(ranges@.take(k as int)).union(
                    Set::new(|p: u64| start <= p < pos),
                ));
            }
        } else {
            assert(Set::new(|p: u64| start <= p <= end) =~= Set::<u64>::empty());
            assert(deleted =~= covered(ranges@.take(k as int)).union(
                Set::new(|p: u64| start <= p <= end),
            ));
        }
        proof {
            assert forall|p: u64| #[trigger] covered(ranges@.take(k + 1)).contains(p) == deleted.contains(p) by {
                if deleted.contains(p) && !(start <= p <= end) {
                    let i = choose|i: int|
                        0 <= i < k && (#[trigger] ranges@.take(k as int)[i]).spec_start() <= p
                            <= ranges@.take(k as int)[i].spec_end();
                    assert(ranges@.take(k + 1)[i] == ranges@.take(k as int)[i]);
                }
                if covered(ranges@.take(k + 1)).contains(p) && !(start <= p <= end) {
                    let i = choose|i: int|
                        0 <= i < k + 1 && (#[trigger] ranges@.take(k + 1)[i]).spec_start() <= p
                            <= ranges@.take(k + 1)[i].spec_end();
                    assert(i != k);
                    assert(ranges@.take(k + 1)[i] == ranges@.take(k as int)[i]);
                }
                if start <= p <= end {
                    assert(ranges@.take(k + 1)[k as int] == ranges[k as int]);
                }
            }
            assert(covered(ranges@.take(k + 1)) =~= deleted);
        }
        k = k + 1;
    }
    assert(ranges@.take(k as int) =~= ranges@);
    count
}

} // verus!
