//! An iterable, inclusive range of positions

use vstd::prelude::*;

verus! {

/// The positions from `from` to `to`, both included, in the order that walks from
/// `from` towards `to` (ascending if `from <= to`, descending otherwise).
pub open spec fn positions_between(from: u64, to: u64) -> Seq<u64> {
    if from <= to {
        Seq::new((to - from + 1) as nat, |i: int| (from + i) as u64)
    } else {
        Seq::new((from - to + 1) as nat, |i: int| (from - i) as u64)
    }
}

/// A range of positions from `start` to `end`, both included
///
/// If `start` is after `end`, the positions are walked in descending order.
#[derive(Debug)]
pub struct Range {
    start: u64,
    end: u64,
    /// The position that `next` hands out next
    cursor: u64,
    /// Whether all positions have been handed out
    finished: bool,
}

impl Range {
    /// The first position of the range
    pub closed spec fn spec_start(&self) -> u64 {
        self.start
    }

    /// The last position of the range
    pub closed spec fn spec_end(&self) -> u64 {
        self.end
    }

    /// The positions that `next` still hands out, in order
    pub closed spec fn remaining(&self) -> Seq<u64> {
        if self.finished {
            Seq::empty()
        } else {
            positions_between(self.cursor, self.end)
        }
    }

    /// The cursor stays between `start` and `end`
    pub closed spec fn wf(&self) -> bool {
        if self.start <= self.end {
            self.start <= self.cursor <= self.end
        } else {
            self.end <= self.cursor <= self.start
        }
    }

    /// No position is handed out twice
    pub proof fn lemma_remaining_distinct(&self)
        ensures
            self.remaining().no_duplicates(),
    {
    }

    /// Builds a new instance
    pub fn new(start: u64, end: u64) -> (range: Self)
        ensures
            range.wf(),
            range.spec_start() == start,
            range.spec_end() == end,
            range.remaining() == positions_between(start, end),
    {
        Range { start, end, cursor: start, finished: false }
    }

    /// Builds a range from `start` to `end`, or from `end` to `start` if `reverse` is set
    pub fn new_maybe_rev(start: u64, end: u64, reverse: bool) -> (range: Self)
        ensures
            range.wf(),
            !reverse ==> range.spec_start() == start && range.spec_end() == end,
            reverse ==> range.spec_start() == end && range.spec_end() == start,
            range.remaining() == (if reverse {
                positions_between(end, start)
            } else {
                positions_between(start, end)
            }),
    {
        if reverse {
            Range::new(end, start)
        } else {
            Range::new(start, end)
        }
    }

    /// Gets the first position of the range
    pub fn start(&self) -> (start: u64)
        ensures
            start == self.spec_start(),
    {
        self.start
    }

    /// Gets the last position of the range
    pub fn end(&self) -> (end: u64)
        ensures
            end == self.spec_end(),
    {
        self.end
    }

    /// Hands out the next position of the range, or `None` once all are handed out
    pub fn next(&mut self) -> (position: Option<u64>)
        requires
            old(self).wf(),
        ensures
            final(self).wf(),
            final(self).spec_start() == old(self).spec_start(),
            final(self).spec_end() == old(self).spec_end(),
            old(self).remaining().len() == 0 ==> position is None && final(self).remaining()
                == old(self).remaining(),
            old(self).remaining().len() > 0 ==> position == Some(old(self).remaining()[0])
                && final(self).remaining() == old(self).remaining().drop_first(),
    {
        if self.finished {
            return None;
        }
        let position = self.cursor;
        if self.cursor == self.end {
            self.finished = true;
        } else if self.start <= self.end {
            self.cursor = self.cursor + 1;
        } else {
            self.cursor = self.cursor - 1;
        }
        assert(final(self).remaining() =~= old(self).remaining().drop_first());
        Some(position)
    }
}

impl PartialEq for Range {
    /// Two ranges are equal if they start and end at the same positions
    fn eq(&self, other: &Self) -> (equal: bool) {
        self.start == other.start && self.end == other.end
    }
}

impl Eq for Range {}

impl vstd::std_specs::cmp::PartialEqSpecImpl for Range {
    open spec fn obeys_eq_spec() -> bool {
        true
    }

    open spec fn eq_spec(&self, other: &Self) -> bool {
        self.spec_start() == other.spec_start() && self.spec_end() == other.spec_end()
    }
}

} // verus!
