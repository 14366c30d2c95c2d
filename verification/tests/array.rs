use std::collections::HashMap;
use valkey_array::array::{Array, Range};

fn vkstr(s: &str) -> Vec<u8> {
    s.as_bytes().to_vec()
}

fn assert_array_entry(array: &Array, position: u64, expected: &str) {
    let value = array
        .get(position)
        .unwrap_or_else(|| panic!("array should have a value at {position}"));
    assert_eq!(*value, vkstr(expected));
}

fn assert_array_no_entry(array: &Array, position: u64) {
    if let Some(entry) = array.get(position) {
        panic!("array should be empty but is {entry:?} at {position}");
    }
}

fn collect(array: &Array, range: Range) -> Vec<(u64, Option<Vec<u8>>)> {
    let mut iter = array.range_iter(range);
    let mut items = Vec::new();
    while let Some((position, value)) = iter.next() {
        items.push((position, value.cloned()));
    }
    items
}

#[test]
fn array_basic_get_set() {
    let mut array = Array::new();

    // No entries in the empty array
    assert_array_no_entry(&array, 23);
    assert_array_no_entry(&array, 42);
    assert_array_no_entry(&array, 4711);

    // Adding a single slot
    let added_slots = array.set(23, vkstr("foo"));
    assert_eq!(added_slots, 1); // New slot, as it was empty before

    assert_array_entry(&array, 23, "foo");
    assert_array_no_entry(&array, 42);
    assert_array_no_entry(&array, 4711);

    // Adding a different slot
    let added_slots = array.set(42, vkstr("bar"));
    assert_eq!(added_slots, 1);

    assert_array_entry(&array, 23, "foo");
    assert_array_entry(&array, 42, "bar");
    assert_array_no_entry(&array, 4711);

    // Adding to first slot again
    let added_slots = array.set(23, vkstr("baz"));
    assert_eq!(added_slots, 0); // No new slot, as it was occupied before

    assert_array_entry(&array, 23, "baz");
    assert_array_entry(&array, 42, "bar");
    assert_array_no_entry(&array, 4711);
}

#[test]
fn array_del() {
    let mut array = Array::new();

    // Deleting an unused slot
    let deleted = array.del(42);
    assert_eq!(deleted, 0);

    // Setting a slot and deleting it again
    array.set(42, vkstr("bar"));
    let deleted = array.del(42);
    assert_eq!(deleted, 1);
}

#[test]
fn array_count() {
    let mut array = Array::new();

    assert_eq!(array.count(), 0);

    array.set(42, vkstr("bar"));
    assert_eq!(array.count(), 1);

    array.set(23, vkstr("baz"));
    assert_eq!(array.count(), 2);
}

#[test]
fn array_next_highest_position() {
    let mut array = Array::new();

    assert_eq!(array.next_highest_position(), 0);

    array.set(42, vkstr("bar"));
    assert_eq!(array.next_highest_position(), 43);

    array.set(23, vkstr("baz"));
    assert_eq!(array.next_highest_position(), 43);
}

#[test]
fn array_next_highest_position_after_deletion() {
    let mut array = Array::new();

    array.set(23, vkstr("baz"));
    array.set(42, vkstr("bar"));

    array.del(42);
    assert_eq!(array.next_highest_position(), 24);

    array.del(23);
    assert_eq!(array.next_highest_position(), 0);
}

#[test]
fn array_insert() {
    let mut array = Array::new();

    // First insert
    let res = array.insert(vkstr("foo"));
    assert_eq!(res, 0);

    assert_array_entry(&array, 0, "foo");
    assert_array_no_entry(&array, 1);
    assert_array_no_entry(&array, 2);

    // Second insert
    let res = array.insert(vkstr("bar"));
    assert_eq!(res, 1);

    assert_array_entry(&array, 0, "foo");
    assert_array_entry(&array, 1, "bar");
    assert_array_no_entry(&array, 2);

    // Insert after higher set
    array.set(42, vkstr("baz"));

    let res = array.insert(vkstr("quux"));
    assert_eq!(res, 2);

    assert_array_entry(&array, 0, "foo");
    assert_array_entry(&array, 1, "bar");
    assert_array_entry(&array, 2, "quux");
}

#[test]
fn array_insert_ring() {
    let mut array = Array::new();

    // We test with a ring buffer of size three. So the fourth element should overwrite the
    // first.

    // Insert first item
    let res = array.insert_ring(3, vkstr("foo"));
    assert_eq!(res, 0);

    // Insert second item
    let res = array.insert_ring(3, vkstr("bar"));
    assert_eq!(res, 1);

    // Insert third item
    let res = array.insert_ring(3, vkstr("baz"));
    assert_eq!(res, 2);

    // Insert fourth item. This should overwrite the first
    let res = array.insert_ring(3, vkstr("quux"));
    assert_eq!(res, 0);

    assert_array_entry(&array, 0, "quux");
    assert_array_entry(&array, 1, "bar");
    assert_array_entry(&array, 2, "baz");

    // Check that the insert cursor got updated accordingly
    let res = array.get_insert_cursor();
    assert_eq!(res, 1);
}

#[test]
fn array_insert_ring_initial_clamp() {
    let mut array = Array::new();

    // We set the insert cursor to 42
    array.set_insert_cursor(42);

    // Then treat it as ring buffer of size 23 and insert an element, which should land at
    // position 19 (= 42 % 23)
    array.insert_ring(23, vkstr("foo"));

    assert_array_entry(&array, 19, "foo");
    assert_array_no_entry(&array, 42);

    // Check that the insert cursor got updated accordingly
    let res = array.get_insert_cursor();
    assert_eq!(res, 20);
}

#[test]
fn array_get_insert_cursor() {
    let mut array = Array::new();

    // Initial cursor on fresh Array
    let res = array.get_insert_cursor();
    assert_eq!(res, 0);

    // First insert
    array.insert(vkstr("foo"));
    let res = array.get_insert_cursor();
    assert_eq!(res, 1);

    // Deleting it again does not change the cursor
    array.del(0);
    let res = array.get_insert_cursor();
    assert_eq!(res, 1);

    // Set a value at a higher position to check that it does not influence the cursor
    array.set(42, vkstr("bar"));
    let res = array.get_insert_cursor();
    assert_eq!(res, 1);

    // Final insertion to check that we're not stuck at 1
    array.insert(vkstr("foo"));
    let res = array.get_insert_cursor();
    assert_eq!(res, 2);
}

#[test]
fn array_set_insert_cursor() {
    let mut array = Array::new();

    // Setting the inser cursor on fresh Array
    let res = array.set_insert_cursor(42);
    assert_eq!(res, 1);
    let res = array.get_insert_cursor();
    assert_eq!(res, 42);
}

#[test]
fn array_info() {
    let mut array = Array::new();

    // Checking on an empty Array
    let info: HashMap<&str, String> = array.info().into_iter().collect();
    let expected = HashMap::from([
        ("count", "0".to_string()),
        ("len", "0".to_string()),
        ("insert-cursor", "0".to_string()),
    ]);
    assert_eq!(info, expected);

    // Setting some data in the array
    array.set(42, vkstr("bar"));
    array.set(23, vkstr("baz"));
    array.set_insert_cursor(4711);

    // Checking info again
    let info: HashMap<&str, String> = array.info().into_iter().collect();
    let expected = HashMap::from([
        ("count", "2".to_string()),
        ("len", "43".to_string()),
        ("insert-cursor", "4711".to_string()),
    ]);
    assert_eq!(info, expected);
}

#[test]
fn iterator_empty_array() {
    let array = Array::new();

    // normal range
    let items = collect(&array, Range::new(40, 42));
    assert_eq!(items, &[(40, None), (41, None), (42, None)]);
}

#[test]
fn iterator_single_element_array() {
    let mut array = Array::new();
    array.set(42, vkstr("foo"));

    // covering range, item in the middle
    let items = collect(&array, Range::new(41, 43));
    assert_eq!(items, &[(41, None), (42, Some(vkstr("foo"))), (43, None)]);

    // covering range, item at start
    let items = collect(&array, Range::new(42, 44));
    assert_eq!(items, &[(42, Some(vkstr("foo"))), (43, None), (44, None)]);

    // covering range, item at end
    let items = collect(&array, Range::new(40, 42));
    assert_eq!(items, &[(40, None), (41, None), (42, Some(vkstr("foo")))]);

    // range before item
    let items = collect(&array, Range::new(39, 41));
    assert_eq!(items, &[(39, None), (40, None), (41, None)]);

    // range after item
    let items = collect(&array, Range::new(43, 45));
    assert_eq!(items, &[(43, None), (44, None), (45, None)]);

    // range is item
    let items = collect(&array, Range::new(42, 42));
    assert_eq!(items, &[(42, Some(vkstr("foo")))]);
}

#[test]
fn iterator_multiple_elements_array() {
    let mut array = Array::new();
    array.set(42, vkstr("foo"));
    // No element at 43
    array.set(44, vkstr("bar"));
    array.set(45, vkstr("baz"));

    let items = collect(&array, Range::new(41, 46));
    assert_eq!(
        items,
        &[
            (41, None),
            (42, Some(vkstr("foo"))),
            (43, None),
            (44, Some(vkstr("bar"))),
            (45, Some(vkstr("baz"))),
            (46, None)
        ]
    );
}

#[test]
fn is_empty() {
    let mut array = Array::new();

    // It's initially empty
    assert!(array.is_empty());

    // Adding an element makes it non-empty
    array.set(42, vkstr("foo"));
    assert!(!array.is_empty());

    // Removing the element again makes it again empty
    array.del(42);
    assert!(array.is_empty());
}

#[test]
fn iterator_descending_range() {
    let mut array = Array::new();
    array.set(5, vkstr("five"));
    let items = collect(&array, Range::new(6, 4));
    assert_eq!(items, &[(6, None), (5, Some(vkstr("five"))), (4, None)]);
}

#[test]
fn array_iter_lists_every_entry_once() {
    let mut array = Array::new();
    array.set(3, vkstr("c"));
    array.set(1, vkstr("a"));
    array.set(2, vkstr("b"));
    array.set(1, vkstr("A"));
    let mut entries: Vec<(u64, Vec<u8>)> = array
        .iter()
        .into_iter()
        .map(|(position, value)| (position, value.clone()))
        .collect();
    entries.sort();
    assert_eq!(
        entries,
        vec![(1, vkstr("A")), (2, vkstr("b")), (3, vkstr("c"))]
    );
}

#[test]
fn next_highest_position_ignores_deletion_below_the_top() {
    let mut array = Array::new();
    array.set(10, vkstr("x"));
    array.set(20, vkstr("y"));
    array.del(10);
    assert_eq!(array.next_highest_position(), 21);
    array.del(20);
    assert_eq!(array.next_highest_position(), 0);
    assert!(array.is_empty());
}

#[test]
fn set_then_del_restores_the_array() {
    let mut array = Array::new();
    array.set(1, vkstr("keep"));
    array.set(9, vkstr("tmp"));
    assert_eq!(array.count(), 2);
    array.del(9);
    assert_eq!(array.count(), 1);
    assert_eq!(array.next_highest_position(), 2);
    assert_array_entry(&array, 1, "keep");
    assert_array_no_entry(&array, 9);
}

#[test]
fn insert_ring_stays_inside_the_buffer() {
    let mut array = Array::new();
    for i in 0..10 {
        let position = array.insert_ring(4, vkstr(&i.to_string()));
        assert!(position < 4);
        assert!(array.get_insert_cursor() < 4);
    }
    assert_eq!(array.count(), 4);
    assert_array_entry(&array, 0, "8");
    assert_array_entry(&array, 1, "9");
    assert_array_entry(&array, 2, "6");
    assert_array_entry(&array, 3, "7");
}

#[test]
fn seek_then_insert_lands_at_the_sought_position() {
    let mut array = Array::new();
    array.set(3, vkstr("three"));
    array.set_insert_cursor(17);
    assert_eq!(array.get_insert_cursor(), 17);
    assert_eq!(array.insert(vkstr("x")), 17);
    assert_array_entry(&array, 17, "x");
    assert_array_entry(&array, 3, "three");
    assert_eq!(array.get_insert_cursor(), 18);
}

#[test]
fn count_never_exceeds_len() {
    let mut array = Array::new();
    for position in [0, 7, 3, 9, 8] {
        array.set(position, vkstr("v"));
        assert!(array.count() as u64 <= array.next_highest_position());
    }
    for position in [9, 0, 8] {
        array.del(position);
        assert!(array.count() as u64 <= array.next_highest_position());
    }
    assert_eq!(array.count(), 2);
    assert_eq!(array.next_highest_position(), 8);
}

#[test]
fn ring_insert_leaves_positions_beyond_the_buffer_alone() {
    let mut array = Array::new();
    array.set(5, vkstr("outside"));
    array.set_insert_cursor(9);
    for value in ["a", "b", "c", "d"] {
        assert!(array.insert_ring(3, vkstr(value)) < 3);
        assert!(array.get_insert_cursor() < 3);
    }
    assert_array_entry(&array, 5, "outside");
    assert_array_entry(&array, 0, "d");
    assert_array_entry(&array, 1, "b");
    assert_array_entry(&array, 2, "c");
    assert_eq!(array.get_insert_cursor(), 1);
}
