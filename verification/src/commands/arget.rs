//! The `ARGET` command: gets the value at a position

use crate::array::Array;
use crate::commands::utils::{
    ArgIter, CommandError, command_args, err_if_further_arguments, spec_next_u64,
};
use vstd::prelude::*;

verus! {

/// What parsing the arguments of `ARGET` (after the command's name) gives: the position
pub open spec fn spec_parse_arget(args: Seq<Seq<u8>>) -> Result<u64, CommandError> {
    if args.len() == 0 {
        Err(CommandError::WrongArity)
    } else {
        match spec_next_u64(args.drop_first()) {
            Err(e) => Err(e),
            Ok(position) => if args.len() > 2 {
                Err(CommandError::WrongArity)
            } else {
                Ok(position)
            },
        }
    }
}

/// Parses the arguments of `ARGET`: a key and a position
pub fn parse_arget(args: Vec<Vec<u8>>) -> (parsed: Result<u64, CommandError>)
    ensures
        parsed == spec_parse_arget(command_args(args@)),
{
    let mut arg_iter = ArgIter::from_command(args);
    if let Err(e) = arg_iter.next_arg() {
        return Err(e);
    }
    let position = match arg_iter.next_u64() {
        Ok(p) => p,
        Err(e) => return Err(e),
    };
    match err_if_further_arguments(arg_iter) {
        Ok(()) => Ok(position),
        Err(e) => Err(e),
    }
}

/// Gets a copy of the value at a position
pub fn retrieve(array: &Array, position: u64) -> (value: Option<Vec<u8>>)
    requires
        array.wf(),
    ensures
        value is None <==> !array@.values.contains_key(position),
        value matches Some(v) ==> v@ == array@.values[position],
{
    match array.get(position) {
        Some(v) => Some(v.clone()),
        None => None,
    }
}

} // verus!
