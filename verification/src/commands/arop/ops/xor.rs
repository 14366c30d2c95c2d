//! `XOR` for `AROP`

use super::utils::{spec_floored_i64, vkstring_to_floored_i64};
use super::{OpResult, fold_xor, integers};
use vstd::prelude::*;

verus! {

/// What `XOR` gives for the values `seen`: the binary `XOR` of the integers they stand for,
/// or `Null` if none stands for an integer
pub open spec fn xor_result(seen: Seq<Seq<u8>>) -> OpResult {
    if integers(seen).len() > 0 {
        OpResult::Integer(fold_xor(integers(seen)))
    } else {
        OpResult::Null
    }
}

/// Converts numeric values to integers and binary `XOR`s them
pub struct XorOperation {
    result: i64,
    found_elements: bool,
    seen: Ghost<Seq<Seq<u8>>>,
}

impl XorOperation {
    /// The values accumulated so far, in order
    pub closed spec fn seen(&self) -> Seq<Seq<u8>> {
        self.seen@
    }

    /// The combined integers and the flag agree with the values seen
    pub closed spec fn wf(&self) -> bool {
        &&& self.result == fold_xor(integers(self.seen@))
        &&& self.found_elements == (integers(self.seen@).len() > 0)
    }

    /// Builds a new instance
    pub fn new() -> (op: Self)
        ensures
            op.wf(),
            op.seen() == Seq::<Seq<u8>>::empty(),
    {
        Self { result: 0, found_elements: false, seen: Ghost(Seq::empty()) }
    }

    /// Accumulates a found value
    pub fn accumulate(&mut self, value: &[u8])
        requires
            old(self).wf(),
        ensures
            final(self).wf(),
            final(self).seen() == old(self).seen().push(value@),
    {
        let ghost seen = self.seen@;
        if let Ok(integer) = vkstring_to_floored_i64(value) {
            self.result = self.result ^ integer;
            self.found_elements = true;
        }
        self.seen = Ghost(seen.push(value@));
        proof {
            assert(seen.push(value@).drop_last() =~= seen);
            let ints = integers(seen);
            match spec_floored_i64(value@) {
                Some(i) => {
                    assert(ints.push(i).drop_last() =~= ints);
                },
                None => {},
            }
        }
    }

    /// Builds the result: the combined integers, or `Null` if no value stood for an integer
    pub fn build_result(self) -> (result: OpResult)
        requires
            self.wf(),
        ensures
            result == xor_result(self.seen()),
    {
        if self.found_elements {
            OpResult::Integer(self.result)
        } else {
            OpResult::Null
        }
    }
}

} // verus!
