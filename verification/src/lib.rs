//! `valkey_array` holds the logic of a Valkey module implementing array commands
//! (`ARSET`, `ARGET`, ...): a sparse array of byte strings indexed by unsigned
//! 64-bit positions, the parsing of the commands' arguments and the work each
//! command does on an array.

pub mod array;
pub mod commands;
pub mod laws;
pub mod utils;


