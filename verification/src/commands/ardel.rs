//! The `ARDEL` command: deletes the values at several positions

use crate::array::Array;
use crate::commands::utils::{
    ArgIter, CommandError, command_args, lemma_intersect_insert, parse_positions,
    spec_parse_positions,
};
use vstd::prelude::*;

verus! {

/// What parsing the arguments of `ARDEL` (after the command's name) gives: the positions
pub open spec fn spec_parse_ardel(args: Seq<Seq<u8>>) -> Result<Seq<u64>, CommandError> {
    if args.len() == 0 {
        Err(CommandError::WrongArity)
    } else {
        spec_parse_positions(args.drop_first())
    }
}

/// Parses the arguments of `ARDEL`: a key and any number of positions
pub fn parse_ardel(args: Vec<Vec<u8>>) -> (parsed: Result<Vec<u64>, CommandError>)
    ensures
        match (parsed, spec_parse_ardel(command_args(args@))) {
            (Ok(ps), Ok(qs)) => ps@ == qs,
            (Err(e), Err(f)) => e == f,
            _ => false,
        },
{
    let mut arg_iter = ArgIter::from_command(args);
    if let Err(e) = arg_iter.next_arg() {
        return Err(e);
    }
    parse_positions(&mut arg_iter)
}

/// Deletes the values at the given positions
///
/// # Returns
///
/// The number of values that got deleted
pub fn act_on_positions(array: &mut Array, positions: Vec<u64>) -> (count: u64)
    requires
        old(array).wf(),
    ensures
        final(array).wf(),
        final(array)@.values == old(array)@.values.remove_keys(positions@.to_set()),
        final(array)@.insert_cursor == old(array)@.insert_cursor,
        count == old(array)@.values.dom().intersect(positions@.to_set()).len(),
{
    let ghost dom = array@.values.dom();
    let total = array.count();
    let mut count: u64 = 0;
    let mut i: usize = 0;
    proof {
        assert(positions@.take(0).to_set() =~= Set::<u64>::empty());
        assert(dom.intersect(Set::<u64>::empty()) =~= Set::<u64>::empty());
    }
    while i < positions.len()
        invariant
            array.wf(),
            dom == old(array)@.values.dom(),
            dom.finite(),
            dom.len() == total,
            i <= positions@.len(),
            array@.values == old(array)@.values.remove_keys(positions@.take(i as int).to_set()),
            array@.insert_cursor == old(array)@.insert_cursor,
            count == dom.intersect(positions@.take(i as int).to_set()).len(),
        decreases positions@.len() - i,
    {
        let ghost deleted = positions@.take(i as int).to_set();
        let p = positions[i];
        proof {
            lemma_intersect_insert(dom, deleted, p);
            vstd::set_lib::lemma_len_intersect(dom, deleted.insert(p));
            assert(positions@.take(i + 1) =~= positions@.take(i as int).push(p));
            positions@.take(i as int).lemma_push_to_set_commute(p);
        }
        let deleted_here = array.del(p);
        count = count + deleted_here;
        i = i + 1;
        proof {
            assert(array@.values =~= old(array)@.values.remove_keys(deleted.insert(p)));
        }
    }
    assert(positions@.take(i as int) =~= positions@);
    count
}

} // verus!
