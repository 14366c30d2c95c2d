//! Utility functions for `AROP` operations

use crate::commands::utils::{parse_signed, spec_parse_signed};
use crate::utils::is_utf8;
use vstd::prelude::*;
use vstd::utf8::valid_utf8;

verus! {

/// The bytes of `s` before its first `.` (all of `s` if it holds no `.`)
pub open spec fn before_dot(s: Seq<u8>) -> Seq<u8>
    decreases s.len(),
{
    if s.len() == 0 {
        s
    } else if s[0] == 46 {
        Seq::empty()
    } else {
        seq![s[0]] + before_dot(s.drop_first())
    }
}

/// The integer that a value stands for: the integer written before its first `.`, if the
/// value is valid UTF-8 and that part is an integer
pub open spec fn spec_floored_i64(s: Seq<u8>) -> Option<i64> {
    if valid_utf8(s) {
        spec_parse_signed(before_dot(s))
    } else {
        None
    }
}

/// Reads the integer a value stands for, dropping everything from the first `.` on
///
/// # Errors
///
/// If the value is not UTF-8 or the part before the first `.` is no integer
pub fn vkstring_to_floored_i64(input: &[u8]) -> (integer: Result<i64, &'static str>)
    ensures
        integer matches Ok(i) ==> spec_floored_i64(input@) == Some(i),
        integer matches Err(msg) ==> spec_floored_i64(input@) is None && msg@ == if valid_utf8(
            input@,
        ) {
            "value is not an integer"@
        } else {
            "value is not UTF-8"@
        },
{
    if !is_utf8(input) {
        return Err("value is not UTF-8");
    }
    let mut integer_part: Vec<u8> = Vec::new();
    let mut i: usize = 0;
    while i < input.len() && input[i] != 46
        invariant
            i <= input@.len(),
            forall|j: int| 0 <= j < i ==> input@[j] != 46,
            integer_part@ == input@.take(i as int),
        decreases input@.len() - i,
    {
        integer_part.push(input[i]);
        i = i + 1;
        assert(integer_part@ =~= input@.take(i as int));
    }
    proof {
        lemma_before_dot(input@, i as int);
    }
    match parse_signed(integer_part.as_slice()) {
        Some(v) => Ok(v),
        None => Err("value is not an integer"),
    }
}

/// `before_dot` ends at the first `.`
pub proof fn lemma_before_dot(s: Seq<u8>, i: int)
    requires
        0 <= i <= s.len(),
        forall|j: int| 0 <= j < i ==> s[j] != 46,
        i == s.len() || s[i] == 46,
    ensures
        before_dot(s) == s.take(i),
    decreases s.len(),
{
    if s.len() == 0 {
        assert(s.take(i) =~= s);
    } else if i == 0 {
        assert(s.take(0) =~= Seq::<u8>::empty());
    } else {
        lemma_before_dot(s.drop_first(), i - 1);
        assert(seq![s[0]] + s.drop_first().take(i - 1) =~= s.take(i));
    }
}

} // verus!
