//! Properties that hold across the operations of the array and its commands

use crate::array::range::positions_between;
use crate::array::{ArrayView, is_next_highest};
use crate::commands::argrep::{MatcherSpec, accepted, spec_grep};
use crate::commands::argrep::matchers::contains::spec_contains_match;
use crate::commands::argrep::matchers::utils::{ascii_lower_seq, spec_ascii_lower};
use crate::commands::arlastitems::last_positions;
use crate::commands::arop::ops::and::and_result;
use crate::commands::arop::ops::or::or_result;
use crate::commands::arop::ops::utils::{lemma_before_dot, spec_floored_i64};
use crate::commands::arop::ops::xor::xor_result;
use crate::commands::arop::ops::{OpResult, count_equal, fold_and, fold_or, fold_xor, integers};
use crate::commands::arring::ring_insert_all;
use crate::commands::arscan::{scanned_positions, used_positions};
use crate::commands::utils::{
    CommandError, all_digits, digits_value, is_digit, spec_ascii_upper, spec_next_range,
    spec_parse_unsigned,
};
use crate::utils::decimal_digits;
use vstd::prelude::*;
use vstd::utf8::{pop_first_scalar, valid_utf8};

verus! {

/// The highest used position + 1 of an array is determined by its used positions: it is `0`
/// exactly for an empty array, and above every used position, one above the highest.
pub proof fn law_next_highest_is_unique(dom: Set<u64>, n: u64, m: u64)
    requires
        is_next_highest(dom, n),
        is_next_highest(dom, m),
    ensures
        n == m,
        n == 0 <==> dom =~= Set::<u64>::empty(),
{
    if n < m {
        assert(dom.contains((m - 1) as u64));
    } else if m < n {
        assert(dom.contains((n - 1) as u64));
    }
    if n != 0 {
        assert(dom.contains((n - 1) as u64));
    }
}

/// Setting a value makes the position read back that value and leaves every other position
/// as it was; the number of entries grows by one exactly when the position was unused.
pub proof fn law_get_after_set(values: Map<u64, Seq<u8>>, position: u64, value: Seq<u8>, other: u64)
    requires
        values.dom().finite(),
    ensures
        values.insert(position, value).contains_key(position),
        values.insert(position, value)[position] == value,
        other != position ==> values.insert(position, value).contains_key(other)
            == values.contains_key(other),
        other != position && values.contains_key(other) ==> values.insert(position, value)[other]
            == values[other],
        values.insert(position, value).len() == values.len() + if values.contains_key(position) {
            0int
        } else {
            1int
        },
{
    if values.contains_key(position) {
        assert(values.insert(position, value).dom() =~= values.dom());
    } else {
        assert(values.insert(position, value).dom() =~= values.dom().insert(position));
    }
}

/// Deleting a position makes it read as unused and leaves every other position as it was;
/// the number of entries shrinks by one exactly when the position was used.
pub proof fn law_get_after_del(values: Map<u64, Seq<u8>>, position: u64, other: u64)
    requires
        values.dom().finite(),
    ensures
        !values.remove(position).contains_key(position),
        other != position ==> values.remove(position).contains_key(other) == values.contains_key(
            other,
        ),
        other != position && values.contains_key(other) ==> values.remove(position)[other]
            == values[other],
        values.remove(position).len() == values.len() - if values.contains_key(position) {
            1int
        } else {
            0int
        },
{
    if values.contains_key(position) {
        assert(values.remove(position).dom() =~= values.dom().remove(position));
    } else {
        assert(values.remove(position).dom() =~= values.dom());
    }
}

/// Deleting a position that was unused before it got set restores the array's values.
pub proof fn law_del_undoes_set(values: Map<u64, Seq<u8>>, position: u64, value: Seq<u8>)
    requires
        !values.contains_key(position),
    ensures
        values.insert(position, value).remove(position) == values,
{
    assert(values.insert(position, value).remove(position) =~= values);
}

/// A range walked from `b` to `a` visits the positions of the range from `a` to `b` in reverse
/// order, and a range holds one position more than the distance of its ends.
pub proof fn law_range_reversal(a: u64, b: u64)
    ensures
        positions_between(b, a) == positions_between(a, b).reverse(),
        positions_between(a, b).len() == if a <= b {
            b - a + 1
        } else {
            a - b + 1
        },
{
    assert(positions_between(b, a) =~= positions_between(a, b).reverse());
}

/// A pair of positions read as range never starts after its end, and the order in which its
/// two positions are given does not matter.
pub proof fn law_next_range_ordered(x: Seq<u8>, y: Seq<u8>, rest: Seq<Seq<u8>>)
    ensures
        spec_next_range(seq![x, y] + rest) matches Ok((start, end)) ==> start <= end,
        spec_next_range(seq![x, y] + rest) is Ok ==> spec_next_range(seq![x, y] + rest)
            == spec_next_range(seq![y, x] + rest),
{
    assert((seq![x, y] + rest)[0] == x);
    assert((seq![x, y] + rest).drop_first()[0] == y);
    assert((seq![y, x] + rest)[0] == y);
    assert((seq![y, x] + rest).drop_first()[0] == x);
}

/// The used positions that `ARSCAN` reports for a range from `start` to `end` (smaller
/// position first) are used, lie in the range and come in strictly increasing order.
pub proof fn law_scan_is_sorted(values: Map<u64, Seq<u8>>, start: u64, end: u64)
    requires
        start <= end,
    ensures
        forall|i: int|
            0 <= i < used_positions(values, positions_between(start, end)).len() ==> {
                let p = #[trigger] used_positions(values, positions_between(start, end))[i];
                &&& values.contains_key(p)
                &&& start <= p <= end
            },
        forall|i: int, j: int|
            0 <= i < j < used_positions(values, positions_between(start, end)).len() ==> #[trigger] used_positions(
                values,
                positions_between(start, end),
            )[i] < #[trigger] used_positions(values, positions_between(start, end))[j],
{
    lemma_used_positions_ascending(values, positions_between(start, end));
}

/// The used positions of an ascending sequence of positions are used, taken from the sequence
/// and ascending.
proof fn lemma_used_positions_ascending(values: Map<u64, Seq<u8>>, positions: Seq<u64>)
    requires
        forall|i: int, j: int|
            0 <= i < j < positions.len() ==> #[trigger] positions[i] < #[trigger] positions[j],
    ensures
        forall|i: int|
            0 <= i < used_positions(values, positions).len() ==> values.contains_key(
                #[trigger] used_positions(values, positions)[i],
            ) && positions.contains(used_positions(values, positions)[i]),
        forall|i: int, j: int|
            0 <= i < j < used_positions(values, positions).len() ==> #[trigger] used_positions(
                values,
                positions,
            )[i] < #[trigger] used_positions(values, positions)[j],
        positions.len() > 0 ==> forall|i: int|
            0 <= i < used_positions(values, positions).len() ==> positions[0] <= #[trigger] used_positions(values, positions)[i],
    decreases positions.len(),
{
    if positions.len() > 0 {
        let rest = positions.drop_first();
        lemma_used_positions_ascending(values, rest);
        let used_rest = used_positions(values, rest);
        assert forall|i: int| 0 <= i < used_rest.len() implies positions[0] < #[trigger] used_rest[i] by {
            let k = choose|k: int| 0 <= k < rest.len() && rest[k] == used_rest[i];
            assert(positions[k + 1] == rest[k]);
        }
        assert forall|i: int| 0 <= i < used_rest.len() implies positions.contains(#[trigger] used_rest[i]) by {
            let k = choose|k: int| 0 <= k < rest.len() && rest[k] == used_rest[i];
            assert(positions[k + 1] == rest[k]);
        }
        if values.contains_key(positions[0]) {
            let used = used_positions(values, positions);
            assert(used == seq![positions[0]] + used_rest);
            assert forall|i: int| 0 <= i < used.len() implies positions.contains(#[trigger] used[i]) by {
                if i > 0 {
                    assert(used[i] == used_rest[i - 1]);
                }
            }
        }
    }
}

/// Writing a number in decimal notation (as `ARINFO` does) and reading it back as unsigned
/// integer (as the commands read their arguments) gives the number again.
pub proof fn law_decimal_round_trip(n: u64)
    ensures
        spec_parse_unsigned(decimal_digits(n as nat).map_values(|c: char| c as u8)) == Some(n),
{
    let bytes = decimal_digits(n as nat).map_values(|c: char| c as u8);
    lemma_decimal_bytes(n as nat);
    assert(bytes.len() > 0 && bytes[0] != 43) by {
        lemma_decimal_len(n as nat);
        assert(is_digit(bytes[0]));
    }
}

proof fn lemma_decimal_len(n: nat)
    ensures
        decimal_digits(n).len() > 0,
    decreases n,
{
    if n >= 10 {
        lemma_decimal_len(n / 10);
    }
}

proof fn lemma_decimal_bytes(n: nat)
    ensures
        all_digits(decimal_digits(n).map_values(|c: char| c as u8)),
        digits_value(decimal_digits(n).map_values(|c: char| c as u8)) == n,
    decreases n,
{
    let bytes = decimal_digits(n).map_values(|c: char| c as u8);
    if n < 10 {
        assert(bytes =~= seq![(48 + n) as u8]);
        assert(bytes.drop_last() =~= Seq::<u8>::empty());
        assert(digits_value(bytes) == digits_value(bytes.drop_last()) * 10 + (bytes.last() - 48) as nat);
    } else {
        lemma_decimal_bytes(n / 10);
        let prefix = decimal_digits(n / 10).map_values(|c: char| c as u8);
        assert(bytes =~= prefix.push((48 + n % 10) as u8));
        assert(bytes.drop_last() =~= prefix);
        assert(bytes.last() == (48 + n % 10) as u8);
        assert(digits_value(bytes) == digits_value(prefix) * 10 + (bytes.last() - 48) as nat);
        assert(n == (n / 10) * 10 + n % 10) by (nonlinear_arith);
    }
}

/// After the insert cursor is moved to a position (`ARSEEK`), the next insert (`ARINSERT`)
/// stores its value there, leaves every other position as it was, and moves the cursor one
/// further; the cursor is what `ARNEXT` reports.
pub proof fn law_seek_then_insert(a: ArrayView, position: u64, value: Seq<u8>, other: u64)
    requires
        position < u64::MAX,
    ensures
        a.seek(position).insert_cursor == position,
        a.seek(position).inserted(value).values == a.values.insert(position, value),
        a.seek(position).inserted(value).insert_cursor == position + 1,
        other != position ==> a.seek(position).inserted(value).values.contains_key(other)
            == a.values.contains_key(other),
{
}

/// An array holds at most as many entries (`ARCOUNT`) as its highest used position + 1
/// (`ARLEN`).
pub proof fn law_count_at_most_len(values: Map<u64, Seq<u8>>, next_highest: u64)
    requires
        values.dom().finite(),
        is_next_highest(values.dom(), next_highest),
    ensures
        values.len() <= next_highest,
{
    lemma_bounded_set_len(values.dom(), next_highest);
}

/// A finite set of positions below `n` holds at most `n` positions
proof fn lemma_bounded_set_len(s: Set<u64>, n: u64)
    requires
        s.finite(),
        forall|k: u64| #[trigger] s.contains(k) ==> k < n,
    ensures
        s.len() <= n,
    decreases n,
{
    if n == 0 {
        assert(s =~= Set::<u64>::empty());
    } else {
        let top = (n - 1) as u64;
        let rest = s.remove(top);
        assert forall|k: u64| #[trigger] rest.contains(k) implies k < top by {
            assert(s.contains(k));
        }
        lemma_bounded_set_len(rest, top);
    }
}

/// Inserting in ring-buffer fashion (`ARRING`) into a buffer of `buffer_size` positions only
/// ever stores values below `buffer_size`, leaves every position from `buffer_size` on as it
/// was, and keeps the insert cursor below `buffer_size` once a value was inserted.
pub proof fn law_ring_stays_in_buffer(
    values: Map<u64, Seq<u8>>,
    cursor: u64,
    buffer_size: u64,
    items: Seq<Seq<u8>>,
    position: u64,
)
    requires
        buffer_size > 0,
    ensures
        items.len() > 0 ==> ring_insert_all(values, cursor, buffer_size, items).1 < buffer_size,
        position >= buffer_size ==> ring_insert_all(values, cursor, buffer_size, items).0.contains_key(
            position,
        ) == values.contains_key(position),
        position >= buffer_size && values.contains_key(position) ==> ring_insert_all(
            values,
            cursor,
            buffer_size,
            items,
        ).0[position] == values[position],
    decreases items.len(),
{
    if items.len() > 0 {
        law_ring_stays_in_buffer(values, cursor, buffer_size, items.drop_last(), position);
        let (v, c) = ring_insert_all(values, cursor, buffer_size, items.drop_last());
        let p = (c % buffer_size) as u64;
        assert(p < buffer_size);
        assert((p + 1) % (buffer_size as int) < buffer_size);
    }
}

/// With a limit of at least one, `ARGREP` reports the first positions of what it reports
/// without a limit, as many as the limit allows (all of them if there are fewer).
pub proof fn law_grep_limit_is_prefix(
    values: Map<u64, Seq<u8>>,
    positions: Seq<u64>,
    matchers: Seq<MatcherSpec>,
    case_sensitive: bool,
    conjunctive: bool,
    limit: usize,
)
    requires
        limit >= 1,
    ensures
        ({
            let full = spec_grep(
                values,
                positions,
                matchers,
                case_sensitive,
                conjunctive,
                None,
                Seq::empty(),
            );
            spec_grep(
                values,
                positions,
                matchers,
                case_sensitive,
                conjunctive,
                Some(limit),
                Seq::empty(),
            ) == full.take(
                if limit < full.len() {
                    limit as int
                } else {
                    full.len() as int
                },
            )
        }),
{
    lemma_grep_limited(values, positions, matchers, case_sensitive, conjunctive, limit, Seq::empty());
}

/// Without a limit, the walk keeps what it found so far as the start of its result
proof fn lemma_grep_extends(
    values: Map<u64, Seq<u8>>,
    positions: Seq<u64>,
    matchers: Seq<MatcherSpec>,
    case_sensitive: bool,
    conjunctive: bool,
    found: Seq<u64>,
)
    ensures
        ({
            let full = spec_grep(values, positions, matchers, case_sensitive, conjunctive, None, found);
            &&& full.len() >= found.len()
            &&& full.take(found.len() as int) == found
        }),
    decreases positions.len(),
{
    if positions.len() > 0 {
        let p = positions[0];
        let next = if values.contains_key(p) && accepted(
            matchers,
            case_sensitive,
            conjunctive,
            values[p],
        ) {
            found.push(p)
        } else {
            found
        };
        lemma_grep_extends(values, positions.drop_first(), matchers, case_sensitive, conjunctive, next);
        let full = spec_grep(values, positions, matchers, case_sensitive, conjunctive, None, found);
        assert(full.take(next.len() as int).take(found.len() as int) =~= full.take(found.len() as int));
        assert(next.take(found.len() as int) =~= found);
    } else {
        assert(found.take(found.len() as int) =~= found);
    }
}

/// The limited walk, started with fewer than `limit` positions found, gives the start of the
/// unlimited one
proof fn lemma_grep_limited(
    values: Map<u64, Seq<u8>>,
    positions: Seq<u64>,
    matchers: Seq<MatcherSpec>,
    case_sensitive: bool,
    conjunctive: bool,
    limit: usize,
    found: Seq<u64>,
)
    requires
        found.len() < limit,
    ensures
        ({
            let full = spec_grep(values, positions, matchers, case_sensitive, conjunctive, None, found);
            spec_grep(values, positions, matchers, case_sensitive, conjunctive, Some(limit), found)
                == full.take(
                if limit < full.len() {
                    limit as int
                } else {
                    full.len() as int
                },
            )
        }),
    decreases positions.len(),
{
    let full = spec_grep(values, positions, matchers, case_sensitive, conjunctive, None, found);
    if positions.len() == 0 {
        assert(full.take(full.len() as int) =~= full);
    } else {
        let p = positions[0];
        let next = if values.contains_key(p) && accepted(
            matchers,
            case_sensitive,
            conjunctive,
            values[p],
        ) {
            found.push(p)
        } else {
            found
        };
        assert(full == spec_grep(
            values,
            positions.drop_first(),
            matchers,
            case_sensitive,
            conjunctive,
            None,
            next,
        ));
        lemma_grep_extends(values, positions.drop_first(), matchers, case_sensitive, conjunctive, next);
        if next.len() == limit {
            assert(spec_grep(values, positions, matchers, case_sensitive, conjunctive, Some(limit), found) == next);
        } else {
            lemma_grep_limited(
                values,
                positions.drop_first(),
                matchers,
                case_sensitive,
                conjunctive,
                limit,
                next,
            );
        }
    }
}

/// The bytes of `s` with their lower-case ASCII letters turned to upper case
pub open spec fn ascii_upper_seq(s: Seq<u8>) -> Seq<u8> {
    s.map_values(|b: u8| spec_ascii_upper(b))
}

/// A case-insensitive `MATCH` (`NOCASE`) does not depend on the ASCII case of the search
/// expression nor of the candidate: lowering or raising either gives the same answer, which
/// is whether the lowered expression occurs in the lowered candidate.
pub proof fn law_contains_nocase_ignores_case(candidate: Seq<u8>, search_expr: Seq<u8>)
    ensures
        spec_contains_match(candidate, search_expr, false) == spec_contains_match(
            candidate,
            ascii_lower_seq(search_expr),
            false,
        ),
        spec_contains_match(candidate, search_expr, false) == spec_contains_match(
            candidate,
            ascii_upper_seq(search_expr),
            false,
        ),
        spec_contains_match(candidate, search_expr, false) == spec_contains_match(
            ascii_upper_seq(candidate),
            search_expr,
            false,
        ),
        spec_contains_match(candidate, search_expr, false) == spec_contains_match(
            ascii_lower_seq(candidate),
            ascii_lower_seq(search_expr),
            true,
        ),
{
    lemma_lower_absorbs_case(search_expr);
    lemma_lower_absorbs_case(candidate);
}

/// Lowering a byte string that was lowered or raised before gives its lowering
proof fn lemma_lower_absorbs_case(s: Seq<u8>)
    ensures
        ascii_lower_seq(ascii_lower_seq(s)) == ascii_lower_seq(s),
        ascii_lower_seq(ascii_upper_seq(s)) == ascii_lower_seq(s),
{
    assert(ascii_lower_seq(ascii_lower_seq(s)) =~= ascii_lower_seq(s));
    assert(ascii_lower_seq(ascii_upper_seq(s)) =~= ascii_lower_seq(s));
}

/// `AROP ... MATCH` counts the values that equal the search expression byte for byte: the
/// count is the number of such values, so a value that differs in any byte (letter case
/// included) adds nothing.
pub proof fn law_match_counts_equal_values(values: Seq<Seq<u8>>, search_expr: Seq<u8>)
    ensures
        count_equal(values, search_expr) == values.filter(|v: Seq<u8>| v == search_expr).len(),
        (forall|i: int| 0 <= i < values.len() ==> values[i] != search_expr) ==> count_equal(
            values,
            search_expr,
        ) == 0,
    decreases values.len(),
{
    reveal_with_fuel(Seq::filter, 2);
    if values.len() > 0 {
        law_match_counts_equal_values(values.drop_last(), search_expr);
        if forall|i: int| 0 <= i < values.len() ==> values[i] != search_expr {
            assert(values.last() != search_expr);
            assert forall|i: int| 0 <= i < values.drop_last().len() implies values.drop_last()[i]
                != search_expr by {
                assert(values.drop_last()[i] == values[i]);
            }
        }
    }
}

/// `ARLASTITEMS` reports the positions right below the insert cursor, as many as asked for
/// but never below 0, in ascending order; with `REV` exactly the same positions in reverse.
pub proof fn law_last_items(cursor: u64, count: u64)
    ensures
        last_positions(cursor, count, true) == last_positions(cursor, count, false).reverse(),
        last_positions(cursor, count, false).len() == if count < cursor {
            count as int
        } else {
            cursor as int
        },
        forall|i: int|
            0 <= i < last_positions(cursor, count, false).len() ==> #[trigger] last_positions(
                cursor,
                count,
                false,
            )[i] == cursor - last_positions(cursor, count, false).len() + i,
{
    if count > 0 && cursor > 0 {
        let end = (cursor - 1) as u64;
        let start = (end - if count - 1 < end {
            count - 1
        } else {
            end as int
        }) as u64;
        law_range_reversal(start, end);
    } else {
        assert(Seq::<u64>::empty().reverse() =~= Seq::<u64>::empty());
    }
}

/// `ARSCAN` over a range from `start` to `end` reports exactly the used positions of the
/// range, in ascending order; a limit only cuts that list short: the first `limit` of them,
/// or all of them if there are fewer.
pub proof fn law_scan_limit_truncates(values: Map<u64, Seq<u8>>, start: u64, end: u64, limit: u64, p: u64)
    requires
        start <= end,
    ensures
        ({
            let full = scanned_positions(values, positions_between(start, end), None);
            &&& full.contains(p) <==> (start <= p <= end && values.contains_key(p))
            &&& forall|i: int, j: int|
                0 <= i < j < full.len() ==> #[trigger] full[i] < #[trigger] full[j]
            &&& scanned_positions(values, positions_between(start, end), Some(limit)) == full.take(
                if limit < full.len() {
                    limit as int
                } else {
                    full.len() as int
                },
            )
        }),
{
    let positions = positions_between(start, end);
    let full = scanned_positions(values, positions, None);
    law_scan_is_sorted(values, start, end);
    lemma_used_positions_complete(values, positions, p);
    if start <= p <= end {
        assert(positions[p - start] == p);
    }
    assert(full.take(full.len() as int) =~= full);
}

/// A position is among the used positions of `positions` exactly if it is one of them and
/// used
proof fn lemma_used_positions_complete(values: Map<u64, Seq<u8>>, positions: Seq<u64>, p: u64)
    ensures
        used_positions(values, positions).contains(p) <==> (positions.contains(p)
            && values.contains_key(p)),
    decreases positions.len(),
{
    if positions.len() > 0 {
        let rest = positions.drop_first();
        lemma_used_positions_complete(values, rest, p);
        let used = used_positions(values, positions);
        if positions.contains(p) && positions[0] != p {
            let i = choose|i: int| 0 <= i < positions.len() && positions[i] == p;
            assert(rest[i - 1] == p);
        }
        if rest.contains(p) {
            let i = choose|i: int| 0 <= i < rest.len() && rest[i] == p;
            assert(positions[i + 1] == p);
        }
        if values.contains_key(positions[0]) {
            let r = used_positions(values, rest);
            assert(used == seq![positions[0]] + r);
            if r.contains(p) {
                let i = choose|i: int| 0 <= i < r.len() && r[i] == p;
                assert(used[i + 1] == p);
            }
            if used.contains(p) && positions[0] != p {
                let i = choose|i: int| 0 <= i < used.len() && used[i] == p;
                assert(r[i - 1] == p);
            }
            assert(used[0] == positions[0]);
        }
    }
}

/// `AROP ... AND`, `OR` and `XOR` fold in every value that stands for an integer (0
/// included) and skip only values that stand for none: one more value standing for `i` turns
/// `Null` into `i` and an integer result `a` into `a & i`, `a | i` or `a ^ i`; a value that
/// stands for no integer leaves the result as it was. With no values the result is `Null`.
pub proof fn law_bitwise_fold_step(values: Seq<Seq<u8>>, value: Seq<u8>)
    ensures
        and_result(Seq::empty()) == OpResult::Null,
        or_result(Seq::empty()) == OpResult::Null,
        xor_result(Seq::empty()) == OpResult::Null,
        spec_floored_i64(value) matches Some(i) ==> integers(values.push(value)) == integers(
            values,
        ).push(i),
        spec_floored_i64(value) is None ==> integers(values.push(value)) == integers(values),
        spec_floored_i64(value) matches Some(i) ==> and_result(values.push(value))
            == OpResult::Integer(
            match and_result(values) {
                OpResult::Integer(a) => a & i,
                OpResult::Null => i,
            },
        ),
        spec_floored_i64(value) matches Some(i) ==> or_result(values.push(value))
            == OpResult::Integer(
            match or_result(values) {
                OpResult::Integer(a) => a | i,
                OpResult::Null => i,
            },
        ),
        spec_floored_i64(value) matches Some(i) ==> xor_result(values.push(value))
            == OpResult::Integer(
            match xor_result(values) {
                OpResult::Integer(a) => a ^ i,
                OpResult::Null => i,
            },
        ),
        spec_floored_i64(value) is None ==> and_result(values.push(value)) == and_result(values)
            && or_result(values.push(value)) == or_result(values) && xor_result(
            values.push(value),
        ) == xor_result(values),
{
    let pushed = values.push(value);
    assert(pushed.drop_last() =~= values);
    assert(pushed.last() == value);
    let ints = integers(values);
    if let Some(i) = spec_floored_i64(value) {
        assert(ints.push(i).drop_last() =~= ints);
        assert(ints.push(i).last() == i);
        assert(fold_and(ints.push(i)) == fold_and(ints) & i);
        assert(fold_or(ints.push(i)) == fold_or(ints) | i);
        assert(fold_xor(ints.push(i)) == fold_xor(ints) ^ i);
        if ints.len() == 0 {
            assert((-1i64) & i == i) by (bit_vector);
            assert(0i64 | i == i) by (bit_vector);
            assert(0i64 ^ i == i) by (bit_vector);
        }
    }
}

/// A value written as a decimal integer, possibly negative, possibly followed by a `.` and
/// more ASCII text, stands for that integer (dropping what follows the `.`), 0 included.
pub proof fn law_floored_integer_round_trip(n: u64, negative: bool, fraction: Seq<u8>)
    requires
        n <= i64::MAX,
        forall|i: int| 0 <= i < fraction.len() ==> fraction[i] < 128,
    ensures
        ({
            let digits = decimal_digits(n as nat).map_values(|c: char| c as u8);
            let written = if negative {
                seq![45u8] + digits
            } else {
                digits
            };
            let value: i64 = if negative {
                -(n as int) as i64
            } else {
                n as i64
            };
            &&& spec_floored_i64(written) == Some(value)
            &&& spec_floored_i64(written + seq![46u8] + fraction) == Some(value)
        }),
{
    let digits = decimal_digits(n as nat).map_values(|c: char| c as u8);
    lemma_decimal_bytes(n as nat);
    lemma_decimal_len(n as nat);
    let written = if negative {
        seq![45u8] + digits
    } else {
        digits
    };
    let longer = written + seq![46u8] + fraction;
    assert forall|j: int| 0 <= j < written.len() implies written[j] != 46 && written[j] < 128 by {
        if negative && j > 0 {
            assert(written[j] == digits[j - 1]);
            assert(is_digit(digits[j - 1]));
        } else if !negative {
            assert(is_digit(digits[j]));
        }
    }
    lemma_before_dot(written, written.len() as int);
    assert(written.take(written.len() as int) =~= written);
    lemma_before_dot(longer, written.len() as int);
    assert(longer.take(written.len() as int) =~= written);
    lemma_ascii_valid_utf8(written);
    assert forall|j: int| 0 <= j < longer.len() implies longer[j] < 128 by {
        if j < written.len() {
            assert(longer[j] == written[j]);
        } else if j > written.len() {
            assert(longer[j] == fraction[j - written.len() - 1]);
        }
    }
    lemma_ascii_valid_utf8(longer);
    if negative {
        assert(written.drop_first() =~= digits);
        assert(written[0] == 45);
    } else {
        assert(written[0] != 43 && written[0] != 45) by {
            assert(is_digit(digits[0]));
        }
    }
}

/// ASCII bytes are valid UTF-8
proof fn lemma_ascii_valid_utf8(s: Seq<u8>)
    requires
        forall|i: int| 0 <= i < s.len() ==> s[i] < 128,
    ensures
        valid_utf8(s),
    decreases s.len(),
{
    if s.len() > 0 {
        assert forall|i: int| 0 <= i < s.drop_first().len() implies s.drop_first()[i] < 128 by {
            assert(s.drop_first()[i] == s[i + 1]);
        }
        lemma_ascii_valid_utf8(s.drop_first());
        assert(s[0] < 128);
        assert(pop_first_scalar(s) =~= s.drop_first());
    }
}

/// A case-sensitive `MATCH` accepts a candidate exactly when the candidate is some bytes,
/// then the search expression, then some more bytes (so an empty expression is found in
/// every candidate).
pub proof fn law_contains_is_substring(candidate: Seq<u8>, search_expr: Seq<u8>, before: Seq<u8>, after: Seq<u8>)
    ensures
        candidate == before + search_expr + after ==> spec_contains_match(candidate, search_expr, true),
        spec_contains_match(candidate, search_expr, true) ==> exists|i: int|
            0 <= i <= candidate.len() - search_expr.len() && candidate == candidate.take(i)
                + search_expr + candidate.skip(i + search_expr.len()),
        spec_contains_match(candidate, Seq::empty(), true),
{
    let n = search_expr.len();
    if candidate == before + search_expr + after {
        let i = before.len() as int;
        assert(candidate.subrange(i, i + n) =~= search_expr);
    }
    if spec_contains_match(candidate, search_expr, true) {
        let i = choose|i: int|
            0 <= i && i + n <= candidate.len() && #[trigger] candidate.subrange(i, i + n)
                == search_expr;
        assert(candidate =~= candidate.take(i) + search_expr + candidate.skip(i + n));
    }
    assert(candidate.subrange(0, 0 + Seq::<u8>::empty().len() as int) =~= Seq::<u8>::empty());
}

} // verus!
