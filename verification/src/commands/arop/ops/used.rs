//! `USED` for `AROP`

use super::OpResult;
use vstd::prelude::*;

verus! {

/// Counts the values it is given
pub struct UsedOperation {
    counter: i64,
    seen: Ghost<Seq<Seq<u8>>>,
}

impl UsedOperation {
    /// The values accumulated so far, in order
    pub closed spec fn seen(&self) -> Seq<Seq<u8>> {
        self.seen@
    }

    /// The counter agrees with the values seen
    pub closed spec fn wf(&self) -> bool {
        self.counter == self.seen@.len()
    }

    /// Builds a new instance
    pub fn new() -> (op: Self)
        ensures
            op.wf(),
            op.seen() == Seq::<Seq<u8>>::empty(),
    {
        Self { counter: 0, seen: Ghost(Seq::empty()) }
    }

    /// Accumulates a found value
    pub fn accumulate(&mut self, value: &[u8])
        requires
            old(self).wf(),
            old(self).seen().len() < i64::MAX,
        ensures
            final(self).wf(),
            final(self).seen() == old(self).seen().push(value@),
    {
        self.counter = self.counter + 1;
        self.seen = Ghost(self.seen@.push(value@));
    }

    /// Builds the result: the number of values
    pub fn build_result(self) -> (result: OpResult)
        requires
            self.wf(),
        ensures
            result == OpResult::Integer(self.seen().len() as i64),
    {
        OpResult::Integer(self.counter)
    }
}

} // verus!
