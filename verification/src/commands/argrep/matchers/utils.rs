//! Utilities to implement matchers

use vstd::prelude::*;

verus! {

/// The ASCII lower case of a byte (other bytes are kept)
pub open spec fn spec_ascii_lower(b: u8) -> u8 {
    if 65 <= b <= 90 {
        (b + 32) as u8
    } else {
        b
    }
}

/// The bytes of `s` with their upper-case ASCII letters turned to lower case
pub open spec fn ascii_lower_seq(s: Seq<u8>) -> Seq<u8> {
    s.map_values(|b: u8| spec_ascii_lower(b))
}

/// Converts the input's uppercase ASCII characters to lowercase
pub fn ascii_lower_case(input: &[u8]) -> (lower: Vec<u8>)
    ensures
        lower@ == ascii_lower_seq(input@),
{
    let mut lower: Vec<u8> = Vec::with_capacity(input.len());
    let mut i: usize = 0;
    while i < input.len()
        invariant
            i <= input@.len(),
            lower@ == ascii_lower_seq(input@.take(i as int)),
        decreases input@.len() - i,
    {
        let b = input[i];
        let l = if 65 <= b && b <= 90 {
            b + 32
        } else {
            b
        };
        lower.push(l);
        i = i + 1;
        assert(lower@ =~= ascii_lower_seq(input@.take(i as int)));
    }
    assert(input@.take(i as int) =~= input@);
    lower
}

} // verus!
