use valkey_array::array::Range;

fn walk(mut range: Range) -> Vec<u64> {
    let mut positions = Vec::new();
    while let Some(position) = range.next() {
        positions.push(position);
    }
    positions
}

#[test]
fn increasing() {
    let range = Range::new(40, 42);

    assert_eq!(range.start(), 40);
    assert_eq!(range.end(), 42);

    assert_eq!(walk(range), vec![40, 41, 42]);
}

#[test]
fn decreasing() {
    let range = Range::new(42, 40);

    assert_eq!(range.start(), 42);
    assert_eq!(range.end(), 40);

    assert_eq!(walk(range), vec![42, 41, 40]);
}

#[test]
fn single_position() {
    assert_eq!(walk(Range::new(7, 7)), vec![7]);
}

#[test]
fn range_at_the_top_of_the_positions() {
    assert_eq!(
        walk(Range::new(u64::MAX - 1, u64::MAX)),
        vec![u64::MAX - 1, u64::MAX]
    );
    assert_eq!(walk(Range::new(1, 0)), vec![1, 0]);
}

#[test]
fn maybe_rev() {
    assert_eq!(walk(Range::new_maybe_rev(3, 5, false)), vec![3, 4, 5]);
    assert_eq!(walk(Range::new_maybe_rev(3, 5, true)), vec![5, 4, 3]);
}

#[test]
fn reversal_law_example() {
    let mut forward = walk(Range::new(10, 14));
    forward.reverse();
    assert_eq!(forward, walk(Range::new(14, 10)));
}

#[test]
fn ranges_compare_by_their_ends() {
    let mut consumed = Range::new(1, 3);
    consumed.next();
    assert_eq!(consumed, Range::new(1, 3));
    assert_ne!(Range::new(1, 3), Range::new(3, 1));
}
