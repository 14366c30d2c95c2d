//! The `ARMSET` command: sets the values at several positions

use crate::array::Array;
use crate::commands::utils::{
    ArgIter, CommandError, command_args, lemma_difference_insert, parse_position,
    spec_parse_position,
};
use vstd::prelude::*;

verus! {

/// What reading all of `args` as position/value pairs gives
pub open spec fn spec_parse_pairs(args: Seq<Seq<u8>>) -> Result<Seq<(u64, Seq<u8>)>, CommandError>
    decreases args.len(),
{
    if args.len() == 0 {
        Ok(Seq::empty())
    } else {
        match spec_parse_position(args[0]) {
            None => Err(CommandError::InvalidPosition),
            Some(p) => if args.len() == 1 {
                Err(CommandError::WrongArity)
            } else {
                match spec_parse_pairs(args.skip(2)) {
                    Err(e) => Err(e),
                    Ok(ps) => Ok(seq![(p, args[1])] + ps),
                }
            },
        }
    }
}

/// What parsing the arguments of `ARMSET` (after the command's name) gives: the pairs
pub open spec fn spec_parse_armset(args: Seq<Seq<u8>>) -> Result<Seq<(u64, Seq<u8>)>, CommandError> {
    if args.len() == 0 {
        Err(CommandError::WrongArity)
    } else {
        spec_parse_pairs(args.drop_first())
    }
}

/// The views of position/value pairs
pub open spec fn pair_views(pairs: Seq<(u64, Vec<u8>)>) -> Seq<(u64, Seq<u8>)> {
    pairs.map_values(|p: (u64, Vec<u8>)| (p.0, p.1@))
}

/// Parses the arguments of `ARMSET`: a key and any number of position/value pairs
pub fn parse_armset(args: Vec<Vec<u8>>) -> (parsed: Result<Vec<(u64, Vec<u8>)>, CommandError>)
    ensures
        match (parsed, spec_parse_armset(command_args(args@))) {
            (Ok(ps), Ok(qs)) => pair_views(ps@) == qs,
            (Err(e), Err(f)) => e == f,
            _ => false,
        },
{
    let mut arg_iter = ArgIter::from_command(args);
    let ghost all = arg_iter.remaining();
    if let Err(e) = arg_iter.next_arg() {
        return Err(e);
    }

    // We build pairs upfront to detect arity issues before touching the array
    let mut pairs: Vec<(u64, Vec<u8>)> = Vec::new();
    assert(pair_views(pairs@) =~= Seq::<(u64, Seq<u8>)>::empty());
    loop
        invariant
            all == command_args(args@),
            all.len() > 0,
            spec_parse_pairs(all.drop_first()) == match spec_parse_pairs(arg_iter.remaining()) {
                Err(e) => Err(e),
                Ok(ps) => Ok(pair_views(pairs@) + ps),
            },
        decreases arg_iter.remaining().len(),
    {
        let ghost before = arg_iter.remaining();
        let position_str = match arg_iter.next() {
            Some(s) => s,
            None => {
                assert(pair_views(pairs@) + Seq::<(u64, Seq<u8>)>::empty() =~= pair_views(pairs@));
                return Ok(pairs);
            },
        };
        let position = match parse_position(position_str.as_slice()) {
            Ok(p) => p,
            Err(e) => return Err(e),
        };
        let value = match arg_iter.next_arg() {
            Ok(v) => v,
            Err(e) => return Err(e),
        };
        let ghost old_views = pair_views(pairs@);
        let ghost value_view = value@;
        pairs.push((position, value));
        proof {
            assert(before.drop_first().drop_first() =~= before.skip(2));
            assert(pair_views(pairs@) =~= old_views.push((position, value_view)));
            match spec_parse_pairs(arg_iter.remaining()) {
                Err(e) => {},
                Ok(ps) => {
                    assert(old_views + (seq![(position, value_view)] + ps) =~= pair_views(pairs@)
                        + ps);
                },
            }
        }
    }
}

/// The values held after setting each pair, in order, on top of `values`
pub open spec fn set_all(values: Map<u64, Seq<u8>>, pairs: Seq<(u64, Seq<u8>)>) -> Map<u64, Seq<u8>>
    decreases pairs.len(),
{
    if pairs.len() == 0 {
        values
    } else {
        set_all(values, pairs.drop_last()).insert(pairs.last().0, pairs.last().1)
    }
}

/// The positions of the pairs
pub open spec fn pair_positions(pairs: Seq<(u64, Seq<u8>)>) -> Set<u64> {
    pairs.map_values(|p: (u64, Seq<u8>)| p.0).to_set()
}

/// Executes the command on position/value pairs
///
/// # Returns
///
/// The number of positions that were unused before
pub fn act_on_pairs(array: &mut Array, pairs: Vec<(u64, Vec<u8>)>) -> (count: u64)
    requires
        old(array).wf(),
        forall|i: int| 0 <= i < pairs.len() ==> (#[trigger] pairs[i]).0 < u64::MAX,
    ensures
        final(array).wf(),
        final(array)@.values == set_all(old(array)@.values, pair_views(pairs@)),
        final(array)@.insert_cursor == old(array)@.insert_cursor,
        count == pair_positions(pair_views(pairs@)).difference(old(array)@.values.dom()).len(),
{
    let ghost dom = array@.values.dom();
    let ghost views = pair_views(pairs@);
    let mut count: u64 = 0;
    assert(views.len() == pairs.len());
    let mut pairs = pairs;
    let mut rest: Vec<(u64, Vec<u8>)> = Vec::new();
    // The pairs are handled front to back; `rest` holds them last one first
    while pairs.len() > 0
        invariant
            pairs.len() + rest.len() == views.len(),
            forall|i: int| 0 <= i < pairs.len() ==> (#[trigger] pairs[i]).0 == views[i].0
                && pairs[i].1@ == views[i].1,
            forall|i: int|
                0 <= i < rest.len() ==> (#[trigger] rest[i]).0 == views[views.len() - 1 - i].0
                    && rest[i].1@ == views[views.len() - 1 - i].1,
        decreases pairs.len(),
    {
        let pair = pairs.pop().unwrap();
        rest.push(pair);
    }
    let mut i: usize = 0;
    proof {
        assert(views.take(0) =~= Seq::<(u64, Seq<u8>)>::empty());
        assert(pair_positions(Seq::<(u64, Seq<u8>)>::empty()) =~= Set::<u64>::empty());
        assert(Set::<u64>::empty().difference(dom) =~= Set::<u64>::empty());
    }
    while rest.len() > 0
        invariant
            array.wf(),
            dom == old(array)@.values.dom(),
            views.len() <= usize::MAX,
            i + rest.len() == views.len(),
            forall|j: int| 0 <= j < views.len() ==> (#[trigger] views[j]).0 < u64::MAX,
            forall|j: int|
                0 <= j < rest.len() ==> (#[trigger] rest[j]).0 == views[views.len() - 1 - j].0
                    && rest[j].1@ == views[views.len() - 1 - j].1,
            array@.values == set_all(old(array)@.values, views.take(i as int)),
            array@.values.dom() == dom.union(pair_positions(views.take(i as int))),
            array@.insert_cursor == old(array)@.insert_cursor,
            count == pair_positions(views.take(i as int)).difference(dom).len(),
            count <= i,
        decreases rest.len(),
    {
        let (position, value) = rest.pop().unwrap();
        let ghost seen = pair_positions(views.take(i as int));
        proof {
            assert(views[i as int] == (position, value@));
            assert(views.take(i + 1) =~= views.take(i as int).push(views[i as int]));
            assert(views.take(i + 1).drop_last() =~= views.take(i as int));
            assert(views.take(i + 1).map_values(|p: (u64, Seq<u8>)| p.0) =~= views.take(
                i as int,
            ).map_values(|p: (u64, Seq<u8>)| p.0).push(position));
            views.take(i as int).map_values(|p: (u64, Seq<u8>)| p.0).lemma_push_to_set_commute(
                position,
            );
            lemma_difference_insert(seen, dom, position);
        }
        let added = array.set(position, value);
        count = count + added as u64;
        i = i + 1;
        proof {
            assert(array@.values.dom() =~= dom.union(pair_positions(views.take(i as int))));
        }
    }
    assert(views.take(i as int) =~= views);
    count
}

} // verus!
