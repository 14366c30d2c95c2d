//! The `ARSEEK` command: sets the position for the next insert

use crate::commands::utils::{
    ArgIter, CommandError, command_args, err_if_further_arguments, spec_next_position,
};
use vstd::prelude::*;

verus! {

/// What parsing the arguments of `ARSEEK` (after the command's name) gives: the position
pub open spec fn spec_parse_arseek(args: Seq<Seq<u8>>) -> Result<u64, CommandError> {
    if args.len() == 0 {
        Err(CommandError::WrongArity)
    } else {
        match spec_next_position(args.drop_first()) {
            Err(e) => Err(e),
            Ok(position) => if args.len() > 2 {
                Err(CommandError::WrongArity)
            } else {
                Ok(position)
            },
        }
    }
}

/// Parses the arguments of `ARSEEK`: a key and a position
pub fn parse_arseek(args: Vec<Vec<u8>>) -> (parsed: Result<u64, CommandError>)
    ensures
        parsed == spec_parse_arseek(command_args(args@)),
{
    let mut arg_iter = ArgIter::from_command(args);
    if let Err(e) = arg_iter.next_arg() {
        return Err(e);
    }
    let position = match arg_iter.next_position() {
        Ok(p) => p,
        Err(e) => return Err(e),
    };
    match err_if_further_arguments(arg_iter) {
        Ok(()) => Ok(position),
        Err(e) => Err(e),
    }
}

} // verus!
