//! The `ARMGET` command: gets the values at several positions

use crate::array::Array;
use crate::commands::argetrange::values_at;
use crate::commands::utils::{
    ArgIter, CommandError, command_args, parse_positions, spec_parse_positions,
};
use vstd::prelude::*;

verus! {

/// What parsing the arguments of `ARMGET` (after the command's name) gives: the positions
pub open spec fn spec_parse_armget(args: Seq<Seq<u8>>) -> Result<Seq<u64>, CommandError> {
    if args.len() == 0 {
        Err(CommandError::WrongArity)
    } else {
        spec_parse_positions(args.drop_first())
    }
}

/// Parses the arguments of `ARMGET`: a key and any number of positions
pub fn parse_armget(args: Vec<Vec<u8>>) -> (parsed: Result<Vec<u64>, CommandError>)
    ensures
        match (parsed, spec_parse_armget(command_args(args@))) {
            (Ok(ps), Ok(qs)) => ps@ == qs,
            (Err(e), Err(f)) => e == f,
            _ => false,
        },
{
    let mut arg_iter = ArgIter::from_command(args);
    if let Err(e) = arg_iter.next_arg() {
        return Err(e);
    }
    parse_positions(&mut arg_iter)
}

/// Gets the value (or `None`) at each of the positions
pub fn act_on_indices<'a>(array: &'a Array, positions: Vec<u64>) -> (items: Vec<Option<&'a Vec<u8>>>)
    requires
        array.wf(),
    ensures
        values_at(array@.values, positions@, items@),
{
    let mut items: Vec<Option<&'a Vec<u8>>> = Vec::new();
    let mut i: usize = 0;
    while i < positions.len()
        invariant
            array.wf(),
            i <= positions@.len(),
            items@.len() == i,
            values_at(array@.values, positions@.take(i as int), items@),
        decreases positions@.len() - i,
    {
        items.push(array.get(positions[i]));
        i = i + 1;
        assert(positions@.take(i as int).drop_last() =~= positions@.take(i - 1));
    }
    assert(positions@.take(i as int) =~= positions@);
    items
}

} // verus!
