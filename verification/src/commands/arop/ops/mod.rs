//! Operations for `AROP`
//!
//! `MAX`, `MIN` and `SUM` work on floating-point numbers and are not part of this library.

pub mod and;
pub mod matching;
pub mod or;
pub mod used;
pub mod utils;
pub mod xor;

pub use and::AndOperation;
pub use matching::MatchOperation;
pub use or::OrOperation;
pub use used::UsedOperation;
pub use xor::XorOperation;

use utils::spec_floored_i64;
use vstd::prelude::*;

verus! {

/// The result of an operation
#[derive(Debug, Clone, Copy, PartialEq, Eq, Structural)]
pub enum OpResult {
    /// An integer
    Integer(i64),
    /// No result (no element contributed)
    Null,
}

/// The integers that the values stand for (values that stand for none are skipped)
pub open spec fn integers(values: Seq<Seq<u8>>) -> Seq<i64>
    decreases values.len(),
{
    if values.len() == 0 {
        Seq::empty()
    } else {
        let rest = integers(values.drop_last());
        match spec_floored_i64(values.last()) {
            Some(i) => rest.push(i),
            None => rest,
        }
    }
}

/// The binary `OR` of the integers (0 for none)
pub open spec fn fold_or(ints: Seq<i64>) -> i64
    decreases ints.len(),
{
    if ints.len() == 0 {
        0
    } else {
        fold_or(ints.drop_last()) | ints.last()
    }
}

/// The binary `AND` of the integers (all bits set for none)
pub open spec fn fold_and(ints: Seq<i64>) -> i64
    decreases ints.len(),
{
    if ints.len() == 0 {
        -1i64
    } else {
        fold_and(ints.drop_last()) & ints.last()
    }
}

/// The binary `XOR` of the integers (0 for none)
pub open spec fn fold_xor(ints: Seq<i64>) -> i64
    decreases ints.len(),
{
    if ints.len() == 0 {
        0
    } else {
        fold_xor(ints.drop_last()) ^ ints.last()
    }
}

/// How many of the values equal `search_expr`
pub open spec fn count_equal(values: Seq<Seq<u8>>, search_expr: Seq<u8>) -> nat
    decreases values.len(),
{
    if values.len() == 0 {
        0
    } else {
        count_equal(values.drop_last(), search_expr) + if values.last() == search_expr {
            1nat
        } else {
            0nat
        }
    }
}

/// `count_equal` never exceeds the number of values
pub proof fn lemma_count_equal_bounded(values: Seq<Seq<u8>>, search_expr: Seq<u8>)
    ensures
        count_equal(values, search_expr) <= values.len(),
    decreases values.len(),
{
    if values.len() > 0 {
        lemma_count_equal_bounded(values.drop_last(), search_expr);
    }
}

} // verus!
