//! The sparse array that backs every key of the array type

pub mod array_range_iter;
pub mod range;

use std::collections::HashMap;
use vstd::prelude::*;
use vstd::std_specs::iter::IteratorSpec;

pub use array_range_iter::GenericArrayRangeIter;
pub use range::Range;
use crate::utils::{decimal_digits, u64_to_decimal};

verus! {

broadcast use vstd::std_specs::hash::group_hash_axioms;

/// `n` is the highest used position + 1 of an array whose used positions are `dom`,
/// or `0` if no position is used.
pub open spec fn is_next_highest(dom: Set<u64>, n: u64) -> bool {
    &&& forall|k: u64| #[trigger] dom.contains(k) ==> k < n
    &&& (n == 0 || dom.contains((n - 1) as u64))
}

/// The abstract state of an [`Array`]
pub struct ArrayView {
    /// The value stored at each used position
    pub values: Map<u64, Seq<u8>>,
    /// The position where the next inserted element will land
    pub insert_cursor: u64,
    /// The highest used position + 1 (0 if the array is empty)
    pub next_highest_position: u64,
}

impl ArrayView {
    /// The array with its insert cursor moved to `position`
    pub open spec fn seek(self, position: u64) -> ArrayView {
        ArrayView { insert_cursor: position, ..self }
    }

    /// The array with `value` stored at the insert cursor and the cursor moved one further
    pub open spec fn inserted(self, value: Seq<u8>) -> ArrayView {
        ArrayView {
            values: self.values.insert(self.insert_cursor, value),
            insert_cursor: (self.insert_cursor + 1) as u64,
            next_highest_position: if self.insert_cursor + 1 > self.next_highest_position {
                (self.insert_cursor + 1) as u64
            } else {
                self.next_highest_position
            },
        }
    }
}

/// The struct that models the data of one array
pub struct Array {
    /// The array's value as map
    values: HashMap<u64, Vec<u8>>,
    /// The position where the next inserted element will land
    insert_cursor: u64,
    /// The maximum used position + 1 (0 if the array is empty)
    next_highest_position: u64,
}

impl View for Array {
    type V = ArrayView;

    closed spec fn view(&self) -> ArrayView {
        ArrayView {
            values: self.values@.map_values(|v: Vec<u8>| v@),
            insert_cursor: self.insert_cursor,
            next_highest_position: self.next_highest_position,
        }
    }
}

impl Array {
    /// The array holds finitely many values, and its `next_highest_position` is the highest
    /// used position + 1 (0 if the array is empty)
    pub open spec fn wf(&self) -> bool {
        &&& self@.values.dom().finite()
        &&& is_next_highest(self@.values.dom(), self@.next_highest_position)
    }

    proof fn lemma_view_dom(&self)
        ensures
            self@.values.dom() == self.values@.dom(),
            self@.values.dom().finite(),
            forall|k: u64| #[trigger]
                self.values@.contains_key(k) ==> self@.values[k] == self.values@[k]@,
    {
        assert(self@.values.dom() =~= self.values@.dom());
    }

    /// Builds a new instance
    pub fn new() -> (array: Self)
        ensures
            array.wf(),
            array@.values == Map::<u64, Seq<u8>>::empty(),
            array@.insert_cursor == 0,
            array@.next_highest_position == 0,
    {
        let array = Array { values: HashMap::new(), insert_cursor: 0, next_highest_position: 0 };
        proof {
            array.lemma_view_dom();
            assert(array@.values =~= Map::<u64, Seq<u8>>::empty());
        }
        array
    }

    /// Checks if the array is empty
    pub fn is_empty(&self) -> (empty: bool)
        requires
            self.wf(),
        ensures
            empty == (self@.values.dom() == Set::<u64>::empty()),
    {
        proof {
            self.lemma_view_dom();
        }
        let empty = self.values.is_empty();
        proof {
            if !empty {
                assert(!(self.values@.dom() =~= Set::<u64>::empty()));
            } else {
                assert(self.values@.dom() =~= Set::<u64>::empty());
            }
        }
        empty
    }

    /// Gets the number of entries
    pub fn count(&self) -> (count: usize)
        requires
            self.wf(),
        ensures
            count == self@.values.len(),
    {
        proof {
            self.lemma_view_dom();
        }
        self.values.len()
    }

    /// Gets the highest used position + 1
    ///
    /// If there are no entries in the array, `0` is returned
    pub fn next_highest_position(&self) -> (n: u64)
        requires
            self.wf(),
        ensures
            n == self@.next_highest_position,
            is_next_highest(self@.values.dom(), n),
    {
        self.next_highest_position
    }

    /// Deletes the value at a given position
    ///
    /// # Returns
    ///
    /// `1` if the position held a value, `0` otherwise
    pub fn del(&mut self, position: u64) -> (count: u64)
        requires
            old(self).wf(),
        ensures
            final(self).wf(),
            final(self)@.values == old(self)@.values.remove(position),
            final(self)@.insert_cursor == old(self)@.insert_cursor,
            count == (if old(self)@.values.contains_key(position) {
                1u64
            } else {
                0u64
            }),
    {
        proof {
            self.lemma_view_dom();
        }
        let count = match self.values.remove(&position) {
            Some(_) => 1,
            None => 0,
        };
        proof {
            self.lemma_view_dom();
            assert(self@.values =~= old(self)@.values.remove(position));
        }

        // If we deleted `next_highest_position`, recompute it (no value is ever stored at
        // the last position, which lies at or above `next_highest_position`)
        if position < u64::MAX && position + 1 == self.next_highest_position {
            let mut max_plus_one: u64 = 0;
            let ghost dom = self.values@.dom();
            let ghost keys = vstd::std_specs::hash::spec_keys_iter(&self.values).remaining();
            for k in it: self.values.keys()
                invariant
                    dom == self.values@.dom(),
                    forall|key: u64| #[trigger] dom.contains(key) ==> key < position,
                    keys.unref().to_set() == dom,
                    it.seq() == keys,
                    forall|i: int| 0 <= i < it.index() ==> #[trigger] keys[i] < max_plus_one,
                    max_plus_one == 0 || dom.contains((max_plus_one - 1) as u64),
            {
                assert(dom.contains(*k)) by {
                    assert(keys.unref().contains(*k));
                }
                if *k + 1 > max_plus_one {
                    max_plus_one = *k + 1;
                }
            }
            proof {
                assert forall|key: u64| #[trigger] dom.contains(key) implies key < max_plus_one by {
                    assert(keys.unref().to_set().contains(key));
                    let i = choose|i: int| 0 <= i < keys.len() && keys.unref()[i] == key;
                    assert(keys[i] < max_plus_one);
                }
            }
            self.next_highest_position = max_plus_one;
        }
        proof {
            self.lemma_view_dom();
        }
        count
    }

    /// Gets the value at a given position
    pub fn get(&self, position: u64) -> (value: Option<&Vec<u8>>)
        requires
            self.wf(),
        ensures
            value is None <==> !self@.values.contains_key(position),
            value matches Some(v) ==> v@ == self@.values[position],
    {
        proof {
            self.lemma_view_dom();
        }
        self.values.get(&position)
    }

    /// Gets the position where the next item will get inserted
    pub fn get_insert_cursor(&self) -> (cursor: u64)
        ensures
            cursor == self@.insert_cursor,
    {
        self.insert_cursor
    }

    /// Sets the value at a given position
    ///
    /// # Returns
    ///
    /// If the slot was previously unused, the function returns `1`. Otherwise `0`.
    pub fn set(&mut self, position: u64, value: Vec<u8>) -> (added: usize)
        requires
            old(self).wf(),
            position < u64::MAX,
        ensures
            final(self).wf(),
            final(self)@.values == old(self)@.values.insert(position, value@),
            final(self)@.insert_cursor == old(self)@.insert_cursor,
            final(self)@.next_highest_position == (if position + 1
                > old(self)@.next_highest_position {
                (position + 1) as u64
            } else {
                old(self)@.next_highest_position
            }),
            added == (if old(self)@.values.contains_key(position) {
                0usize
            } else {
                1usize
            }),
    {
        proof {
            self.lemma_view_dom();
        }
        if position + 1 > self.next_highest_position {
            self.next_highest_position = position + 1;
        }
        let ghost value_view = value@;
        let added = if self.values.insert(position, value).is_some() {
            // The position already had a value, so it's not a new slot
            0
        } else {
            // The position previously did not have a value, so it's a new slot
            1
        };
        proof {
            self.lemma_view_dom();
            assert(self@.values =~= old(self)@.values.insert(position, value_view));
        }
        added
    }

    /// Inserts a value at the insert cursor and moves the cursor one position further
    ///
    /// # Returns
    ///
    /// The position the value got inserted at
    pub fn insert(&mut self, value: Vec<u8>) -> (position: u64)
        requires
            old(self).wf(),
            old(self)@.insert_cursor < u64::MAX,
        ensures
            final(self).wf(),
            position == old(self)@.insert_cursor,
            final(self)@.values == old(self)@.values.insert(position, value@),
            final(self)@.insert_cursor == old(self)@.insert_cursor + 1,
            final(self)@ == old(self)@.inserted(value@),
    {
        // Inserting the value
        let position = self.insert_cursor;
        self.set(position, value);

        // Bumping the insert cursor
        self.insert_cursor = self.insert_cursor + 1;

        // Return the inserted position
        position
    }

    /// Inserts an element in ring-buffer fashion
    ///
    /// # Returns
    ///
    /// The last inserted position is returned
    pub fn insert_ring(&mut self, buffer_size: u64, value: Vec<u8>) -> (position: u64)
        requires
            old(self).wf(),
            buffer_size > 0,
        ensures
            final(self).wf(),
            position == old(self)@.insert_cursor % buffer_size,
            final(self)@.values == old(self)@.values.insert(position, value@),
            final(self)@.insert_cursor == (position + 1) % (buffer_size as int),
    {
        // Bring the cursor into the expected range
        self.insert_cursor = self.insert_cursor % buffer_size;

        // Insert the value
        let position = self.insert(value);

        // Bring the cursor back into the expected range
        self.insert_cursor = self.insert_cursor % buffer_size;

        position
    }

    /// Sets the position to insert the next item
    ///
    /// # Returns
    ///
    /// 1, if setting the position worked. 0 otherwise.
    pub fn set_insert_cursor(&mut self, position: u64) -> (done: u64)
        requires
            old(self).wf(),
        ensures
            final(self).wf(),
            final(self)@.values == old(self)@.values,
            final(self)@.next_highest_position == old(self)@.next_highest_position,
            final(self)@.insert_cursor == position,
            final(self)@ == old(self)@.seek(position),
            done == 1,
    {
        self.insert_cursor = position;
        1
    }

    /// Collects info about the array
    ///
    /// # Returns
    ///
    /// The following key/values:
    /// * `count` - number of set elements
    /// * `len` - maximum used position + 1 (0 if the array is empty)
    /// * `insert-cursor` - position of the insert cursor
    pub fn info(&self) -> (info: Vec<(&'static str, String)>)
        requires
            self.wf(),
        ensures
            info.len() == 3,
            info[0].0@ == "count"@,
            info[0].1@ == decimal_digits(self@.values.len()),
            info[1].0@ == "len"@,
            info[1].1@ == decimal_digits(self@.next_highest_position as nat),
            info[2].0@ == "insert-cursor"@,
            info[2].1@ == decimal_digits(self@.insert_cursor as nat),
    {
        let count = self.count();
        let mut info = Vec::new();
        info.push(("count", u64_to_decimal(count as u64)));
        info.push(("len", u64_to_decimal(self.next_highest_position)));
        info.push(("insert-cursor", u64_to_decimal(self.insert_cursor)));
        info
    }

    /// Lists all positions along with their values, in no particular order
    pub fn iter(&self) -> (entries: Vec<(u64, &Vec<u8>)>)
        requires
            self.wf(),
        ensures
            entries.len() == self@.values.len(),
            forall|i: int|
                0 <= i < entries.len() ==> self@.values.contains_key(#[trigger] entries[i].0)
                    && entries[i].1@ == self@.values[entries[i].0],
            forall|i: int, j: int|
                0 <= i < j < entries.len() ==> #[trigger] entries[i].0 != #[trigger] entries[j].0,
            forall|k: u64|
                #[trigger] self@.values.contains_key(k) ==> exists|i: int|
                    0 <= i < entries.len() && #[trigger] entries[i].0 == k,
    {
        proof {
            self.lemma_view_dom();
        }
        let mut entries: Vec<(u64, &Vec<u8>)> = Vec::new();
        let ghost pairs = vstd::std_specs::hash::spec_hash_map_iter(&self.values).remaining();
        for entry in it: self.values.iter()
            invariant
                it.seq() == pairs,
                pairs.len() == self.values@.dom().len(),
                pairs.no_duplicates(),
                forall|i: int|
                    0 <= i < pairs.len() ==> self.values@.contains_key(*#[trigger] pairs[i].0)
                        && self.values@[*pairs[i].0] == *pairs[i].1,
                forall|k: u64|
                    #[trigger] self.values@.contains_key(k) ==> pairs.contains((&k, &self.values@[k])),
                entries.len() == it.index(),
                forall|i: int| 0 <= i < it.index() ==> #[trigger] entries@[i] == (*pairs[i].0, pairs[i].1),
        {
            entries.push((*entry.0, entry.1));
        }
        proof {
            assert forall|i: int, j: int|
                0 <= i < j < entries.len() implies #[trigger] entries[i].0
                != #[trigger] entries[j].0 by {
                if entries[i].0 == entries[j].0 {
                    assert(pairs[i] == pairs[j]);
                }
            }
            assert forall|k: u64| #[trigger] self@.values.contains_key(k) implies exists|i: int|
                0 <= i < entries.len() && #[trigger] entries[i].0 == k by {
                assert(pairs.contains((&k, &self.values@[k])));
                let i = choose|i: int| 0 <= i < pairs.len() && pairs[i] == (&k, &self.values@[k]);
                assert(entries[i].0 == k);
            }
        }
        entries
    }

    /// Iterates over the positions of a range along with the values found there
    pub fn range_iter(&self, range: Range) -> (iter: GenericArrayRangeIter<'_>)
        requires
            self.wf(),
            range.wf(),
        ensures
            iter.wf(),
            iter.remaining() == range.remaining(),
            iter.source_view() == self@,
    {
        GenericArrayRangeIter::new(range, self)
    }
}

} // verus!
