//! Reading numbers that are written in decimal.

use vstd::prelude::*;

verus! {

/// True for the ten decimal digits.
pub open spec fn is_digit(c: char) -> bool {
    '0' <= c <= '9'
}

/// The number that a string of decimal digits writes.
pub open spec fn decimal_value(digits: Seq<char>) -> nat
    decreases digits.len(),
{
    if digits.len() == 0 {
        0
    } else {
        decimal_value(digits.drop_last()) * 10 + (digits.last() as u32 - '0' as u32) as nat
    }
}

/// The number that `s` writes as a `u64`: decimal digits, at least one, with
/// or without one `+` before them, and a value that a `u64` can hold.
pub open spec fn written_u64(s: Seq<char>) -> Option<u64> {
    let digits = if s.len() > 0 && s[0] == '+' {
        s.skip(1)
    } else {
        s
    };
    if digits.len() > 0 && (forall|i: int| 0 <= i < digits.len() ==> is_digit(#[trigger] digits[i]))
        && decimal_value(digits) <= u64::MAX {
        Some(decimal_value(digits) as u64)
    } else {
        None
    }
}

/// Reads `s` as a `u64` with `str::parse`. The standard library takes an
/// optional `+` followed by decimal digits only, and fails on an empty
/// string, on a sign alone, on any other character and on a value too large
/// for a `u64`; on success the result is the number written.
#[verifier::external_body]
pub(crate) fn parse_u64(s: &str) -> (r: Result<u64, std::num::ParseIntError>)
    ensures
        match r {
            Ok(v) => written_u64(s@) == Some(v),
            Err(_) => written_u64(s@) is None,
        },
{
    s.parse::<u64>()
}

} // verus!
