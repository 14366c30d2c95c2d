//! The `ARINFO` command: gives information about an array

use crate::commands::utils::{
    ArgIter, CommandError, Keyword, command_args, err_if_further_arguments, is_keyword,
};
use vstd::prelude::*;

verus! {

/// What parsing the arguments of `ARINFO` (after the command's name) gives: whether `FULL`
/// was asked for
pub open spec fn spec_parse_arinfo(args: Seq<Seq<u8>>) -> Result<bool, CommandError> {
    if args.len() == 0 {
        Err(CommandError::WrongArity)
    } else if args.len() == 1 {
        Ok(false)
    } else if !is_keyword(args[1], Keyword::Full.spec_bytes()) || args.len() > 2 {
        Err(CommandError::WrongArity)
    } else {
        Ok(true)
    }
}

/// Parses the arguments of `ARINFO`: a key and the optional `FULL`
pub fn parse_arinfo(args: Vec<Vec<u8>>) -> (parsed: Result<bool, CommandError>)
    ensures
        parsed == spec_parse_arinfo(command_args(args@)),
{
    let mut arg_iter = ArgIter::from_command(args);
    if let Err(e) = arg_iter.next_arg() {
        return Err(e);
    }
    let mut full = false;
    if let Some(option) = arg_iter.next() {
        if Keyword::Full.is(option.as_slice()) {
            full = true;
        } else {
            return Err(CommandError::WrongArity);
        }
        if let Err(e) = err_if_further_arguments(arg_iter) {
            return Err(e);
        }
    }
    Ok(full)
}

} // verus!
