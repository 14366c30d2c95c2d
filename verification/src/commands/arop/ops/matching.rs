//! `MATCH` for `AROP`

use super::{OpResult, count_equal, lemma_count_equal_bounded};
use crate::commands::argrep::matchers::bytes_equal;
use vstd::prelude::*;

verus! {

/// Counts the values that equal a search expression
pub struct MatchOperation {
    search_expr: Vec<u8>,
    counter: i64,
    seen: Ghost<Seq<Seq<u8>>>,
}

impl MatchOperation {
    /// The search expression
    pub closed spec fn spec_search_expr(&self) -> Seq<u8> {
        self.search_expr@
    }

    /// The values accumulated so far, in order
    pub closed spec fn seen(&self) -> Seq<Seq<u8>> {
        self.seen@
    }

    /// The counter agrees with the values seen
    pub closed spec fn wf(&self) -> bool {
        self.counter == count_equal(self.seen@, self.search_expr@)
    }

    /// Builds a new instance
    pub fn new(search_expr: Vec<u8>) -> (op: Self)
        ensures
            op.wf(),
            op.seen() == Seq::<Seq<u8>>::empty(),
            op.spec_search_expr() == search_expr@,
    {
        Self { search_expr, counter: 0, seen: Ghost(Seq::empty()) }
    }

    /// Accumulates a found value
    pub fn accumulate(&mut self, value: &[u8])
        requires
            old(self).wf(),
            old(self).seen().len() < i64::MAX,
        ensures
            final(self).wf(),
            final(self).seen() == old(self).seen().push(value@),
            final(self).spec_search_expr() == old(self).spec_search_expr(),
    {
        let ghost seen = self.seen@;
        proof {
            lemma_count_equal_bounded(seen, self.search_expr@);
            assert(seen.push(value@).drop_last() =~= seen);
        }
        if bytes_equal(value, self.search_expr.as_slice()) {
            self.counter = self.counter + 1;
        }
        self.seen = Ghost(seen.push(value@));
    }

    /// Builds the result: the number of values that equal the search expression
    pub fn build_result(self) -> (result: OpResult)
        requires
            self.wf(),
        ensures
            result == OpResult::Integer(count_equal(self.seen(), self.spec_search_expr()) as i64),
    {
        OpResult::Integer(self.counter)
    }
}

} // verus!
