use valkey_array::array::{Array, Range};
use valkey_array::commands::ardel::{act_on_positions, parse_ardel};
use valkey_array::commands::ardelrange::{act_on_ranges, parse_ardelrange};
use valkey_array::commands::arget::{parse_arget, retrieve};
use valkey_array::commands::argetrange::{act_on_range as getrange_act_on_range, parse_argetrange};
use valkey_array::commands::arinfo::parse_arinfo;
use valkey_array::commands::arinsert::{act_on_items as insert_act_on_items, parse_arinsert};
use valkey_array::commands::arlastitems::{act_on_args, parse_arlastitems};
use valkey_array::commands::armget::{act_on_indices, parse_armget};
use valkey_array::commands::armset::{act_on_pairs, parse_armset};
use valkey_array::commands::arring::{act_on_items as ring_act_on_items, parse_arring};
use valkey_array::commands::arscan::{act_on_range as scan_act_on_range, parse_arscan};
use valkey_array::commands::arseek::parse_arseek;
use valkey_array::commands::arset::{act_on_items as set_act_on_items, parse_arset};
use valkey_array::commands::utils::{
    ArgIter, CommandError, parse_key_only, parse_positions, parse_signed, parse_unsigned,
};

fn vkstr(s: &str) -> Vec<u8> {
    s.as_bytes().to_vec()
}

fn create_test_args(args: &[&str]) -> Vec<Vec<u8>> {
    args.iter().map(|a| vkstr(a)).collect()
}

fn assert_position_error<T>(res: Result<T, CommandError>) {
    let err = match res {
        Ok(_) => panic!("position should fail"),
        Err(e) => e,
    };
    let err_msg = err.message();
    if !err_msg.contains("invalid") || !err_msg.contains("position") {
        panic!("expected position error, got {err_msg}");
    }
}

fn assert_arity_error<T>(res: Result<T, CommandError>) {
    let err = match res {
        Ok(_) => panic!("result should fail"),
        Err(e) => e,
    };
    let err_msg = err.message().to_ascii_lowercase();
    if !err_msg.contains("wrong") || !(err_msg.contains("arity") || err_msg.contains("number")) {
        panic!("expected arity error, got {err_msg}");
    }
}

fn expect_error_containing<T>(res: Result<T, CommandError>, text: &str) {
    match res {
        Ok(_) => panic!("command should fail"),
        Err(e) => assert!(e.message().contains(text), "{} lacks {text}", e.message()),
    }
}

fn assert_entry(array: &Array, position: u64, expected: &str) {
    assert_eq!(array.get(position), Some(&vkstr(expected)));
}

fn as_strings(items: Vec<Option<&Vec<u8>>>) -> Vec<Option<String>> {
    items.into_iter().map(|v| v.map(|b| String::from_utf8(b.clone()).unwrap())).collect()
}

fn iter_of(items: &[&str]) -> ArgIter {
    ArgIter::new(create_test_args(items))
}

fn foo_bar_baz_array() -> Array {
    let mut array = Array::new();
    array.insert(vkstr("foo"));
    array.insert(vkstr("bar"));
    array.insert(vkstr("baz"));
    array
}

// ---------------------------------------------------------------- argument parsing

#[test]
fn parse_position() {
    assert_eq!(position_of("-"), Ok(0));
    assert_eq!(position_of("+"), Ok(u64::MAX));
    assert_eq!(position_of("42"), Ok(42));
    assert_position_error(position_of("-1"));
}

fn position_of(s: &str) -> Result<u64, CommandError> {
    valkey_array::commands::utils::parse_position(s.as_bytes())
}

#[test]
fn next_position() {
    assert_eq!(iter_of(&["-"]).next_position(), Ok(0));
    assert_eq!(iter_of(&["+"]).next_position(), Ok(u64::MAX));
    assert_eq!(iter_of(&["42"]).next_position(), Ok(42));
    assert_arity_error(iter_of(&[]).next_position());
    assert_position_error(iter_of(&["-1"]).next_position());
}

fn next_bounds(items: &[&str]) -> Result<(u64, u64), CommandError> {
    iter_of(items).next_range().map(|r| (r.start(), r.end()))
}

#[test]
fn next_range() {
    // Standard range
    assert_eq!(iter_of(&["23", "42"]).next_range().unwrap(), Range::new(23, 42));
    // Standard range with max
    assert_eq!(iter_of(&["23", "+"]).next_range().unwrap(), Range::new(23, u64::MAX));
    // Standard range with min
    assert_eq!(iter_of(&["-", "42"]).next_range().unwrap(), Range::new(0, 42));
    // min / max
    assert_eq!(iter_of(&["-", "+"]).next_range().unwrap(), Range::new(0, u64::MAX));
    // Standard range reversed
    assert_eq!(iter_of(&["42", "23"]).next_range().unwrap(), Range::new(23, 42));
    // min / max
    assert_eq!(iter_of(&["+", "-"]).next_range().unwrap(), Range::new(0, u64::MAX));
    // min at end
    assert_eq!(iter_of(&["23", "-"]).next_range().unwrap(), Range::new(0, 23));
    // max at start
    assert_eq!(iter_of(&["+", "42"]).next_range().unwrap(), Range::new(42, u64::MAX));

    assert_arity_error(next_bounds(&[]));
    assert_arity_error(next_bounds(&["42"]));
    assert_position_error(next_bounds(&["-1"]));
    assert_position_error(next_bounds(&["42", "-1"]));
}

#[test]
fn parse_unsigned_and_signed_numbers() {
    assert_eq!(parse_unsigned(b"0"), Some(0));
    assert_eq!(parse_unsigned(b"18446744073709551615"), Some(u64::MAX));
    assert_eq!(parse_unsigned(b"18446744073709551616"), None);
    assert_eq!(parse_unsigned(b""), None);
    assert_eq!(parse_unsigned(b"-1"), None);
    assert_eq!(parse_unsigned(b"12a"), None);
    assert_eq!(parse_signed(b"-9223372036854775808"), Some(i64::MIN));
    assert_eq!(parse_signed(b"9223372036854775807"), Some(i64::MAX));
    assert_eq!(parse_signed(b"9223372036854775808"), None);
    assert_eq!(parse_signed(b"-"), None);
    assert_eq!(parse_signed(b"-17"), Some(-17));
}

#[test]
fn parse_positions_stops_at_the_first_bad_argument() {
    let mut iter = iter_of(&["1", "+", "-"]);
    assert_eq!(parse_positions(&mut iter), Ok(vec![1, u64::MAX, 0]));
    let mut iter = iter_of(&["1", "x", "2"]);
    assert_eq!(parse_positions(&mut iter), Err(CommandError::InvalidPosition));
}

#[test]
fn every_error_has_its_message() {
    assert_eq!(CommandError::WrongArity.message(), "wrong number of arguments");
    assert_eq!(CommandError::InvalidPosition.message(), "invalid array position");
    assert_eq!(CommandError::NotAnUnsignedInteger.message(), "Couldn't parse as unsigned integer");
    assert_eq!(CommandError::UnknownAropOperation.message(), "ERR Unknown AROP operation");
    assert!(CommandError::RegexNotUtf8.message().contains("UTF-8"));
    assert!(CommandError::InvalidRegex.message().contains("regular expression"));
}

// ---------------------------------------------------------------- ARCOUNT, ARLEN

#[test]
fn arcount_arity_too_low() {
    assert_eq!(parse_key_only(create_test_args(&["ARCOUNT"])), Err(CommandError::WrongArity));
}

#[test]
fn arcount_arity_too_high() {
    let args = create_test_args(&["ARCOUNT", "foo", "bar"]);
    assert_eq!(parse_key_only(args), Err(CommandError::WrongArity));
}

#[test]
fn arlen_arity_too_low() {
    assert_arity_error(parse_key_only(create_test_args(&["ARLEN"])));
}

#[test]
fn arlen_arity_too_high() {
    assert_arity_error(parse_key_only(create_test_args(&["ARLEN", "foo", "bar"])));
}

#[test]
fn key_only_commands_accept_a_key() {
    assert_eq!(parse_key_only(create_test_args(&["ARCOUNT", "foo"])), Ok(()));
}

// ---------------------------------------------------------------- ARDEL

#[test]
fn wrong_argument_type_first() {
    assert_position_error(parse_ardel(create_test_args(&["ARDEL", "foo", "bar"])));
}

#[test]
fn wrong_argument_type_later() {
    assert_position_error(parse_ardel(create_test_args(&["ARDEL", "foo", "42", "bar"])));
}

#[test]
fn ardel_parses_positions() {
    let parsed = parse_ardel(create_test_args(&["ARDEL", "foo", "42", "-", "+"]));
    assert_eq!(parsed, Ok(vec![42, 0, u64::MAX]));
    assert_arity_error(parse_ardel(create_test_args(&["ARDEL"])));
}

#[test]
fn act_on_positions_empty() {
    let mut array = Array::new();
    array.set(42, vkstr("foo"));

    let count = act_on_positions(&mut array, vec![]);
    assert_eq!(count, 0); // No item was removed
    assert_entry(&array, 42, "foo");
    assert_eq!(array.count(), 1);
}

#[test]
fn act_on_positions_single_item() {
    let mut array = Array::new();
    array.set(23, vkstr("foo"));
    array.set(42, vkstr("bar"));

    let count = act_on_positions(&mut array, vec![23]);
    assert_eq!(count, 1); // 1 item was removed
    assert_entry(&array, 42, "bar");
    assert_eq!(array.count(), 1);
}

#[test]
fn act_on_positions_multiple_items() {
    let mut array = Array::new();
    array.set(23, vkstr("foo"));
    array.set(42, vkstr("bar"));
    array.set(4711, vkstr("bar"));

    // 4711 is deleted once, 23 twice, and 151 does not exist
    let count = act_on_positions(&mut array, vec![4711, 23, 151, 23]);
    assert_eq!(count, 2); // 23 and 4711 got removed
    assert_entry(&array, 42, "bar");
    assert_eq!(array.count(), 1);
}

// ---------------------------------------------------------------- ARDELRANGE

#[test]
fn ardelrange_arity_too_low() {
    assert_arity_error(parse_ardelrange(create_test_args(&["ARDELRANGE", "foo", "23"])));
}

#[test]
fn wrong_argument_type_first_start() {
    let args = create_test_args(&["ARDELRANGE", "foo", "bar", "42"]);
    assert_position_error(parse_ardelrange(args));
}

#[test]
fn wrong_argument_type_first_end() {
    let args = create_test_args(&["ARDELRANGE", "foo", "23", "bar"]);
    assert_position_error(parse_ardelrange(args));
}

#[test]
fn wrong_argument_type_later_start() {
    let args = create_test_args(&["ARDELRANGE", "foo", "23", "42", "bar", "4711"]);
    assert_position_error(parse_ardelrange(args));
}

#[test]
fn wrong_argument_type_later_end() {
    let args = create_test_args(&["ARDELRANGE", "foo", "23", "42", "151", "bar"]);
    assert_position_error(parse_ardelrange(args));
}

#[test]
fn wrong_argument_type_non_pair() {
    let args = create_test_args(&["ARDELRANGE", "foo", "23", "42", "151"]);
    assert_arity_error(parse_ardelrange(args));
}

#[test]
fn ardelrange_orders_each_pair() {
    let args = create_test_args(&["ARDELRANGE", "foo", "42", "23", "+", "7"]);
    let ranges = parse_ardelrange(args).unwrap();
    assert_eq!(ranges, vec![Range::new(23, 42), Range::new(7, u64::MAX)]);
}

#[test]
fn act_on_ranges_empty() {
    let mut array = Array::new();
    array.set(42, vkstr("foo"));

    let count = act_on_ranges(&mut array, vec![]);
    assert_eq!(count, 0); // No item was removed
    assert_entry(&array, 42, "foo");
    assert_eq!(array.count(), 1);
}

#[test]
fn act_on_ranges_single_range() {
    let mut array = Array::new();
    array.set(23, vkstr("foo"));
    array.set(42, vkstr("bar"));
    array.set(43, vkstr("baz"));
    array.set(44, vkstr("quux"));

    let count = act_on_ranges(&mut array, vec![Range::new(40, 43)]);
    assert_eq!(count, 2); // 42, and 43 was removed
    assert_entry(&array, 23, "foo");
    assert_entry(&array, 44, "quux");
    assert_eq!(array.count(), 2);
}

#[test]
fn act_on_ranges_multiple_ranges() {
    let mut array = Array::new();
    array.set(23, vkstr("foo"));
    array.set(42, vkstr("bar"));
    array.set(43, vkstr("baz"));
    array.set(44, vkstr("quux"));
    array.set(4711, vkstr("quux"));

    let ranges = vec![Range::new(40, 42), Range::new(43, 45), Range::new(4710, 4712)];
    let count = act_on_ranges(&mut array, ranges);
    assert_eq!(count, 4); // 42, 43, 44, and 4711 got removed
    assert_entry(&array, 23, "foo");
    assert_eq!(array.count(), 1);
}

#[test]
fn deleting_the_last_position_finds_nothing() {
    let mut array = Array::new();
    array.set(u64::MAX - 1, vkstr("top"));
    let positions = parse_ardel(create_test_args(&["ARDEL", "k", "+"])).unwrap();
    assert_eq!(act_on_positions(&mut array, positions), 0);
    assert_entry(&array, u64::MAX - 1, "top");
    assert_eq!(array.next_highest_position(), u64::MAX);

    let count = act_on_ranges(&mut array, vec![Range::new(u64::MAX - 1, u64::MAX)]);
    assert_eq!(count, 1);
    assert!(array.is_empty());
    assert_eq!(array.next_highest_position(), 0);
}

#[test]
fn act_on_ranges_overlapping_ranges_count_once() {
    let mut array = Array::new();
    array.set(5, vkstr("a"));
    array.set(6, vkstr("b"));
    array.set(9, vkstr("c"));

    let count = act_on_ranges(&mut array, vec![Range::new(4, 6), Range::new(6, 10)]);
    assert_eq!(count, 3);
    assert!(array.is_empty());
}

// ---------------------------------------------------------------- ARGET

#[test]
fn arget_arity_too_low() {
    let result = parse_arget(create_test_args(&["ARGET", "foo"]));
    assert_eq!(result, Err(CommandError::WrongArity));
}

#[test]
fn arget_arity_too_high() {
    let result = parse_arget(create_test_args(&["ARGET", "foo", "23", "bar"]));
    assert_eq!(result, Err(CommandError::WrongArity));
}

#[test]
fn arget_wrong_argument_type() {
    expect_error_containing(parse_arget(create_test_args(&["ARGET", "foo", "bar"])), "integer");
}

#[test]
fn arget_retrieves_the_value() {
    let position = parse_arget(create_test_args(&["ARGET", "foo", "23"])).unwrap();
    assert_eq!(position, 23);
    let mut array = Array::new();
    array.set(23, vkstr("foo"));
    assert_eq!(retrieve(&array, position), Some(vkstr("foo")));
    assert_eq!(retrieve(&array, 24), None);
}

// ---------------------------------------------------------------- ARGETRANGE

#[test]
fn argetrange_arity_too_low() {
    let result = parse_argetrange(create_test_args(&["ARGETRANGE", "foo", "23"]));
    assert_eq!(result.unwrap_err(), CommandError::WrongArity);
}

#[test]
fn argetrange_arity_too_high() {
    let result = parse_argetrange(create_test_args(&["ARGETRANGE", "foo", "23", "42", "bar"]));
    assert_eq!(result.unwrap_err(), CommandError::WrongArity);
}

#[test]
fn argetrange_wrong_argument_type_start() {
    let args = create_test_args(&["ARGETRANGE", "foo", "bar", "42"]);
    expect_error_containing(parse_argetrange(args), "integer");
}

#[test]
fn argetrange_wrong_argument_type_end() {
    let args = create_test_args(&["ARGETRANGE", "foo", "23", "bar"]);
    expect_error_containing(parse_argetrange(args), "integer");
}

#[test]
fn argetrange_lists_values_in_range_order() {
    let mut array = Array::new();
    array.set(3, vkstr("c"));
    array.set(5, vkstr("e"));

    let range = parse_argetrange(create_test_args(&["ARGETRANGE", "foo", "2", "5"])).unwrap();
    let items = as_strings(getrange_act_on_range(&array, range));
    assert_eq!(items, vec![None, Some("c".to_string()), None, Some("e".to_string())]);

    // A start above the end walks the range downwards
    let range = parse_argetrange(create_test_args(&["ARGETRANGE", "foo", "5", "3"])).unwrap();
    let items = as_strings(getrange_act_on_range(&array, range));
    assert_eq!(items, vec![Some("e".to_string()), None, Some("c".to_string())]);
}

// ---------------------------------------------------------------- ARINFO

#[test]
fn arinfo_arity_too_low() {
    assert_arity_error(parse_arinfo(create_test_args(&["ARINFO"])));
}

#[test]
fn arity_too_high_without_full() {
    assert_arity_error(parse_arinfo(create_test_args(&["ARINFO", "foo", "bar"])));
}

#[test]
fn arity_too_high_with_full() {
    assert_arity_error(parse_arinfo(create_test_args(&["ARINFO", "foo", "FULL", "bar"])));
}

#[test]
fn arinfo_reads_the_full_flag() {
    assert_eq!(parse_arinfo(create_test_args(&["ARINFO", "foo"])), Ok(false));
    assert_eq!(parse_arinfo(create_test_args(&["ARINFO", "foo", "full"])), Ok(true));
}

// ---------------------------------------------------------------- ARINSERT

#[test]
fn arinsert_arity_too_low() {
    assert_arity_error(parse_arinsert(create_test_args(&["ARINSERT", "foo"])));
}

#[test]
fn arinsert_act_on_items_single_item() {
    let mut array = Array::new();

    let mut iter = iter_of(&[]);

    let result = insert_act_on_items(&mut array, vkstr("foo"), &mut iter);
    assert_eq!(result, 0); // Last item got added at position 0
    assert_entry(&array, 0, "foo");
    assert_eq!(array.count(), 1);
}

#[test]
fn arinsert_act_on_items_multiple_items() {
    let mut array = Array::new();
    array.set_insert_cursor(42); // items will get added from position 42 onwards

    let mut iter = iter_of(&["bar", "baz", "quux"]);

    let result = insert_act_on_items(&mut array, vkstr("foo"), &mut iter);
    assert_eq!(result, 45); // Last item got added at position 45
    assert_entry(&array, 42, "foo");
    assert_entry(&array, 43, "bar");
    assert_entry(&array, 44, "baz");
    assert_entry(&array, 45, "quux");
    assert_eq!(array.count(), 4);
    assert_eq!(array.get_insert_cursor(), 46);
}

#[test]
fn arinsert_parses_the_items() {
    let (first, mut rest) =
        parse_arinsert(create_test_args(&["ARINSERT", "key", "a", "b"])).unwrap();
    assert_eq!(first, vkstr("a"));
    assert_eq!(rest.next(), Some(vkstr("b")));
    assert_eq!(rest.next(), None);
}

// ---------------------------------------------------------------- ARLASTITEMS

#[test]
fn arlastitems_arity_too_low() {
    assert_arity_error(parse_arlastitems(create_test_args(&["ARLASTITEMS"])));
}

#[test]
fn arity_too_high_without_rev() {
    let args = create_test_args(&["ARLASTITEMS", "foo", "42", "baz"]);
    assert_arity_error(parse_arlastitems(args));
}

#[test]
fn arity_too_high_with_rev() {
    let args = create_test_args(&["ARLASTITEMS", "foo", "42", "REV", "baz"]);
    assert_arity_error(parse_arlastitems(args));
}

#[test]
fn arlastitems_reads_count_and_rev() {
    let args = create_test_args(&["ARLASTITEMS", "foo", "42", "rev"]);
    assert_eq!(parse_arlastitems(args), Ok((42, true)));
    let args = create_test_args(&["ARLASTITEMS", "foo", "x"]);
    assert_eq!(parse_arlastitems(args), Err(CommandError::InvalidPosition));
}

fn some_strs(items: &[&str]) -> Vec<Option<String>> {
    items
        .iter()
        .map(|s| if s.is_empty() { None } else { Some(s.to_string()) })
        .collect()
}

#[test]
fn act_on_args_simple() {
    let array = foo_bar_baz_array();

    let items = act_on_args(&array, 2, false);
    assert_eq!(as_strings(items), some_strs(&["bar", "baz"]));
}

#[test]
fn act_on_args_count_equals_length() {
    let array = foo_bar_baz_array();

    let items = act_on_args(&array, 3, false);
    assert_eq!(as_strings(items), some_strs(&["foo", "bar", "baz"]));
}

#[test]
fn act_on_args_count_longer_than_length() {
    let array = foo_bar_baz_array();

    let items = act_on_args(&array, 5, false);
    assert_eq!(as_strings(items), some_strs(&["foo", "bar", "baz"]));
}

#[test]
fn act_on_args_count_zero() {
    let array = foo_bar_baz_array();

    let items = act_on_args(&array, 0, false);
    assert_eq!(as_strings(items), vec![]);
}

#[test]
fn act_on_args_deleted_mid() {
    let mut array = foo_bar_baz_array();
    array.del(1);

    let items = act_on_args(&array, 3, false);
    assert_eq!(as_strings(items), some_strs(&["foo", "", "baz"]));
}

#[test]
fn act_on_args_deleted_start() {
    let mut array = foo_bar_baz_array();
    array.del(0);

    let items = act_on_args(&array, 3, false);
    assert_eq!(as_strings(items), some_strs(&["", "bar", "baz"]));
}

#[test]
fn act_on_args_deleted_end() {
    let mut array = foo_bar_baz_array();
    array.del(2);

    let items = act_on_args(&array, 3, false);
    assert_eq!(as_strings(items), some_strs(&["foo", "bar", ""]));
}

#[test]
fn act_on_args_after_seek() {
    let mut array = foo_bar_baz_array();
    array.set_insert_cursor(5);

    let items = act_on_args(&array, 4, false);
    assert_eq!(as_strings(items), some_strs(&["bar", "baz", "", ""]));
}

#[test]
fn act_on_args_mix() {
    let mut array = foo_bar_baz_array();
    array.del(1);
    array.set_insert_cursor(5);

    let items = act_on_args(&array, 4, true);
    assert_eq!(as_strings(items), some_strs(&["", "", "baz", ""]));
}

// ---------------------------------------------------------------- ARMGET, ARMSET

#[test]
fn armget_arity_too_low() {
    assert_arity_error(parse_armget(create_test_args(&["ARMGET"])));
}

#[test]
fn armget_lists_values_in_argument_order() {
    let positions = parse_armget(create_test_args(&["ARMGET", "k", "5", "1", "5"])).unwrap();
    assert_eq!(positions, vec![5, 1, 5]);
    let mut array = Array::new();
    array.set(5, vkstr("five"));
    let items = as_strings(act_on_indices(&array, positions));
    assert_eq!(items, vec![Some("five".to_string()), None, Some("five".to_string())]);
}

#[test]
fn armset_arity_too_low() {
    assert_eq!(parse_armset(create_test_args(&["ARMSET"])).unwrap_err(), CommandError::WrongArity);
}

#[test]
fn arity_position_without_value() {
    let result = parse_armset(create_test_args(&["ARMSET", "foo", "23"]));
    assert_eq!(result.unwrap_err(), CommandError::WrongArity);
}

#[test]
fn armset_sets_pairs_and_counts_new_slots() {
    let args = create_test_args(&["ARMSET", "k", "1", "a", "2", "b", "1", "c"]);
    let pairs = parse_armset(args).unwrap();
    let mut array = Array::new();
    array.set(2, vkstr("old"));
    let count = act_on_pairs(&mut array, pairs);
    assert_eq!(count, 1); // only position 1 was empty before
    assert_entry(&array, 1, "c"); // the later pair wins
    assert_entry(&array, 2, "b");
    assert_eq!(array.count(), 2);
}

// ---------------------------------------------------------------- ARRING

#[test]
fn arring_arity_too_low() {
    assert_arity_error(parse_arring(create_test_args(&["ARRING", "foo", "23"])));
}

#[test]
fn arring_wrong_argument_type() {
    assert_position_error(parse_arring(create_test_args(&["ARRING", "foo", "bar", "baz"])));
}

#[test]
fn arring_act_on_items_single_item() {
    let mut array = Array::new();

    let mut iter = iter_of(&[]);

    let result = ring_act_on_items(&mut array, 42, vkstr("foo"), &mut iter);
    assert_eq!(result, 0); // Last item got added at position 0
    assert_entry(&array, 0, "foo");
    assert_eq!(array.count(), 1);
}

#[test]
fn arring_act_on_items_multiple_items() {
    let mut array = Array::new();
    array.set_insert_cursor(4711); // items will get added from 7 (= 4711 % 42) onwards
    array.set(8, vkstr("QUUUX")); // Will get overwritten (not jumped over)

    let mut iter = iter_of(&["bar", "baz", "quux"]);

    let result = ring_act_on_items(&mut array, 42, vkstr("foo"), &mut iter);
    assert_eq!(result, 10); // Last item got added at position 10
    assert_entry(&array, 7, "foo");
    assert_entry(&array, 8, "bar");
    assert_entry(&array, 9, "baz");
    assert_entry(&array, 10, "quux");
    assert_eq!(array.count(), 4);
}

#[test]
fn arring_wraps_around_the_buffer() {
    let mut array = Array::new();
    let mut iter = iter_of(&["b", "c", "d"]);
    let result = ring_act_on_items(&mut array, 2, vkstr("a"), &mut iter);
    assert_eq!(result, 1);
    assert_entry(&array, 0, "c");
    assert_entry(&array, 1, "d");
    assert_eq!(array.count(), 2);
}

#[test]
fn arring_parses_its_arguments() {
    let args = create_test_args(&["ARRING", "k", "3", "x", "y"]);
    let (size, first, mut rest) = parse_arring(args).unwrap();
    assert_eq!(size, 3);
    assert_eq!(first, vkstr("x"));
    assert_eq!(rest.next(), Some(vkstr("y")));
    assert_eq!(rest.next(), None);
}

// ---------------------------------------------------------------- ARSCAN

#[test]
fn arscan_arity_too_low() {
    assert_arity_error(parse_arscan(create_test_args(&["ARSCAN", "foo", "23"])));
}

#[test]
fn arity_too_high_without_limit() {
    assert_arity_error(parse_arscan(create_test_args(&["ARSCAN", "foo", "23", "42", "bar"])));
}

#[test]
fn arscan_arity_too_high_with_limit() {
    let args = create_test_args(&["ARSCAN", "foo", "23", "42", "LIMIT", "4711", "bar"]);
    assert_arity_error(parse_arscan(args));
}

#[test]
fn arscan_wrong_argument_type_start() {
    assert_position_error(parse_arscan(create_test_args(&["ARSCAN", "foo", "bar", "42"])));
}

#[test]
fn arscan_wrong_argument_type_end() {
    assert_position_error(parse_arscan(create_test_args(&["ARSCAN", "foo", "23", "bar"])));
}

#[test]
fn wrong_argument_type_limit() {
    let args = create_test_args(&["ARSCAN", "foo", "23", "42", "LIMIT", "bar"]);
    expect_error_containing(parse_arscan(args), "integer");
}

#[test]
fn arscan_reads_the_limit() {
    let args = create_test_args(&["ARSCAN", "foo", "42", "23", "limit", "7"]);
    let (range, limit) = parse_arscan(args).unwrap();
    assert_eq!(range, Range::new(23, 42));
    assert_eq!(limit, Some(7));
}

fn scanned(items: Vec<(u64, &Vec<u8>)>) -> Vec<(u64, String)> {
    items.into_iter().map(|(p, v)| (p, String::from_utf8(v.clone()).unwrap())).collect()
}

fn pairs(items: &[(u64, &str)]) -> Vec<(u64, String)> {
    items.iter().map(|(p, s)| (*p, s.to_string())).collect()
}

#[test]
fn act_on_range_only_empty_positions() {
    let array = Array::new();

    for limit in [None, Some(0), Some(1)] {
        let result = scan_act_on_range(&array, Range::new(23, 42), limit);
        assert!(result.is_empty());
    }
}

#[test]
fn act_on_range_single_position() {
    let mut array = Array::new();
    array.set(42, vkstr("foo"));

    // No limit
    let result = scan_act_on_range(&array, Range::new(41, 42), None);
    assert_eq!(scanned(result), pairs(&[(42, "foo")]));

    // Limit to no entry
    let result = scan_act_on_range(&array, Range::new(41, 42), Some(0));
    assert!(result.is_empty());

    // Limit to a single entry
    let result = scan_act_on_range(&array, Range::new(41, 42), Some(1));
    assert_eq!(scanned(result), pairs(&[(42, "foo")]));
}

#[test]
fn act_on_range_multiple_positions() {
    let mut array = Array::new();
    array.set(39, vkstr("foo"));
    array.set(40, vkstr("bar"));
    array.set(42, vkstr("baz"));
    array.set(45, vkstr("quux"));
    array.set(46, vkstr("quuux"));

    // No limit
    let result = scan_act_on_range(&array, Range::new(40, 45), None);
    assert_eq!(scanned(result), pairs(&[(40, "bar"), (42, "baz"), (45, "quux")]));

    // Limit to no entry
    let result = scan_act_on_range(&array, Range::new(40, 45), Some(0));
    assert!(result.is_empty());

    // Limit to a single entry
    let result = scan_act_on_range(&array, Range::new(40, 45), Some(2));
    assert_eq!(scanned(result), pairs(&[(40, "bar"), (42, "baz")]));
}

// ---------------------------------------------------------------- ARSEEK

#[test]
fn arseek_arity_too_low() {
    let result = parse_arseek(create_test_args(&["ARSEEK", "foo"]));
    assert_eq!(result.unwrap_err(), CommandError::WrongArity);
}

#[test]
fn arseek_arity_too_high() {
    let result = parse_arseek(create_test_args(&["ARSEEK", "foo", "23", "bar"]));
    assert_eq!(result.unwrap_err(), CommandError::WrongArity);
}

#[test]
fn arseek_wrong_argument_type() {
    assert_position_error(parse_arseek(create_test_args(&["ARSEEK", "foo", "bar"])));
}

#[test]
fn arseek_reads_the_position() {
    assert_eq!(parse_arseek(create_test_args(&["ARSEEK", "foo", "+"])), Ok(u64::MAX));
}

// ---------------------------------------------------------------- ARSET

#[test]
fn arset_wrong_argument_type() {
    expect_error_containing(parse_arset(create_test_args(&["ARSET", "foo", "bar", "baz"])), "integer");
}

#[test]
fn act_on_items_no_item() {
    let mut array = Array::new();

    let mut iter = iter_of(&[]);

    let result = set_act_on_items(&mut array, 42, &mut iter);
    assert_eq!(result, 0); // No new slot got taken
    assert_eq!(array.get(0), None);
    assert_eq!(array.get(42), None);
    assert_eq!(array.count(), 0);
}

#[test]
fn arset_act_on_items_single_item() {
    let mut array = Array::new();

    let mut iter = iter_of(&["foo"]);

    let result = set_act_on_items(&mut array, 42, &mut iter);
    assert_eq!(result, 1); // One new slot got taken
    assert_eq!(array.get(0), None);
    assert_entry(&array, 42, "foo");
    assert_eq!(array.count(), 1);
}

#[test]
fn arset_act_on_items_multiple_items() {
    let mut array = Array::new();
    array.set_insert_cursor(42); // items will get added from position 42 onwards
    array.set(24, vkstr("value-24")); // This will get overwritten below

    let mut iter = iter_of(&["bar", "baz", "quux"]);

    let result = set_act_on_items(&mut array, 23, &mut iter);
    assert_eq!(result, 2); // Two new slots got taken (24 was occupied before)
    assert_entry(&array, 23, "bar");
    assert_entry(&array, 24, "baz");
    assert_entry(&array, 25, "quux");
    assert_eq!(array.get(0), None);
    assert_eq!(array.get(42), None);
    assert_eq!(array.count(), 3);
}

#[test]
fn arset_parses_position_and_items() {
    let (position, mut rest) =
        parse_arset(create_test_args(&["ARSET", "k", "7", "a"])).unwrap();
    assert_eq!(position, 7);
    assert_eq!(rest.next(), Some(vkstr("a")));
    assert_arity_error(parse_arset(create_test_args(&["ARSET", "k"])));
}

#[test]
fn readme_session() {
    let mut array = Array::new();

    let (position, mut items) = parse_arset(create_test_args(&["arset", "foo", "23", "bar"])).unwrap();
    assert_eq!(set_act_on_items(&mut array, position, &mut items), 1);
    let (position, mut items) = parse_arset(create_test_args(&["arset", "foo", "42", "baz"])).unwrap();
    assert_eq!(set_act_on_items(&mut array, position, &mut items), 1);

    let position = parse_arget(create_test_args(&["arget", "foo", "23"])).unwrap();
    assert_eq!(retrieve(&array, position), Some(vkstr("bar")));
    let position = parse_arget(create_test_args(&["arget", "foo", "42"])).unwrap();
    assert_eq!(retrieve(&array, position), Some(vkstr("baz")));
    assert_eq!(array.count(), 2);
    assert_eq!(array.next_highest_position(), 43);

    let positions = parse_ardel(create_test_args(&["ardel", "foo", "42"])).unwrap();
    assert_eq!(act_on_positions(&mut array, positions), 1);
    assert_eq!(retrieve(&array, 42), None);
    assert_eq!(array.count(), 1);
    assert_eq!(array.next_highest_position(), 24);
}
