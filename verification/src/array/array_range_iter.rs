//! Walking a range of positions of an [`Array`] along with the values found there

use crate::array::{Array, ArrayView, Range};
use vstd::prelude::*;

verus! {

/// Iterator over a range of an [`Array`]
///
/// Yields each position of the range, in the range's order, along with the value stored
/// there (if any).
pub struct GenericArrayRangeIter<'a> {
    /// The position iterator
    range: Range,
    /// The source to retrieve elements from
    source: &'a Array,
}

impl<'a> GenericArrayRangeIter<'a> {
    /// The positions that are still to be visited
    pub closed spec fn remaining(&self) -> Seq<u64> {
        self.range.remaining()
    }

    /// The array the values are taken from
    pub closed spec fn source_view(&self) -> ArrayView {
        self.source@
    }

    /// The range and the array are well-formed
    pub closed spec fn wf(&self) -> bool {
        self.range.wf() && self.source.wf()
    }

    /// Builds a new instance
    pub fn new(range: Range, source: &'a Array) -> (iter: Self)
        requires
            range.wf(),
            source.wf(),
        ensures
            iter.wf(),
            iter.remaining() == range.remaining(),
            iter.source_view() == source@,
    {
        Self { range, source }
    }

    /// Gets the next position along with its value, or `None` once the range is exhausted
    pub fn next(&mut self) -> (item: Option<(u64, Option<&'a Vec<u8>>)>)
        requires
            old(self).wf(),
        ensures
            final(self).wf(),
            final(self).source_view() == old(self).source_view(),
            old(self).remaining().len() == 0 ==> item is None && final(self).remaining()
                == old(self).remaining(),
            old(self).remaining().len() > 0 ==> {
                &&& final(self).remaining() == old(self).remaining().drop_first()
                &&& item matches Some((position, value)) && position == old(self).remaining()[0]
                    && (value is None <==> !old(self).source_view().values.contains_key(position))
                    && (value matches Some(v) ==> v@ == old(self).source_view().values[position])
            },
    {
        match self.range.next() {
            Some(position) => {
                let value = self.source.get(position);
                Some((position, value))
            },
            None => None,
        }
    }
}

} // verus!
