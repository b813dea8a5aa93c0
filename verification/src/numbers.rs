//! Opaque JSON numbers. Floating-point values never appear in the
//! verified code: a parsed number that is not a 64-bit integer is
//! carried through as an opaque `serde_json::Number` value, and every
//! operation that touches its numeric meaning is a trusted call.

use vstd::prelude::*;

verus! {

broadcast use vstd::group_vstd_default;

#[verifier::external_type_specification]
#[verifier::external_body]
pub struct ExNumber(serde_json::Number);

pub assume_specification[ <serde_json::Number as Clone>::clone ](
    n: &serde_json::Number,
) -> (res: serde_json::Number)
    ensures
        res == *n,
;

/// Numeric equality of two opaque numbers, as their equality test
/// reports it.
pub uninterp spec fn num_eq(a: serde_json::Number, b: serde_json::Number) -> bool;

/// Relies on serde_json::Number's equality test. It is reflexive: the
/// floats a number can hold are always finite.
pub assume_specification[ <serde_json::Number as PartialEq>::eq ](
    a: &serde_json::Number,
    b: &serde_json::Number,
) -> (res: bool)
    ensures
        res == num_eq(*a, *b) && (*a == *b ==> res),
;

/// The number, if any, that a scalar text parses to.
pub uninterp spec fn spec_parse_real(s: Seq<char>) -> Option<serde_json::Number>;

/// Relies on serde_json's number parsing: the result depends on the
/// text alone, and malformed text gives `None`.
#[verifier::external_body]
pub(crate) fn parse_real(s: &str) -> (r: Option<serde_json::Number>)
    ensures
        r == spec_parse_real(s@),
{
    serde_json::from_str::<serde_json::Number>(s).ok()
}

/// The double-valued number an unsigned integer widens to.
pub uninterp spec fn num_double_of_u64(u: u64) -> Option<serde_json::Number>;

/// Relies on serde_json::Number::as_f64 and Number::from_f64: widens
/// an unsigned integer to the nearest double-valued number.
#[verifier::external_body]
pub(crate) fn num_double_from_u64(u: u64) -> (r: Option<serde_json::Number>)
    ensures
        r == num_double_of_u64(u),
{
    serde_json::Number::from(u).as_f64().and_then(serde_json::Number::from_f64)
}

/// The double-valued number a signed integer widens to.
pub uninterp spec fn num_double_of_i64(i: i64) -> Option<serde_json::Number>;

/// Relies on serde_json::Number::as_f64 and Number::from_f64: widens
/// a signed integer to the nearest double-valued number.
#[verifier::external_body]
pub(crate) fn num_double_from_i64(i: i64) -> (r: Option<serde_json::Number>)
    ensures
        r == num_double_of_i64(i),
{
    serde_json::Number::from(i).as_f64().and_then(serde_json::Number::from_f64)
}

/// The decimal text of a number.
pub uninterp spec fn num_text(n: serde_json::Number) -> Seq<char>;

/// Relies on serde_json::Number's text rendering: the result depends
/// on the number alone.
#[verifier::external_body]
pub(crate) fn num_to_string(n: &serde_json::Number) -> (r: String)
    ensures
        r@ == num_text(*n),
{
    n.to_string()
}

/// The signed integer a number truncates to.
pub uninterp spec fn num_trunc(n: serde_json::Number) -> Option<i64>;

/// Relies on serde_json::Number::as_f64 and the saturating
/// float-to-integer cast.
#[verifier::external_body]
pub(crate) fn number_to_i64_lossy(n: &serde_json::Number) -> (r: Option<i64>)
    ensures
        r == num_trunc(*n),
{
    n.as_f64().map(|f| f as i64)
}

} // verus!
