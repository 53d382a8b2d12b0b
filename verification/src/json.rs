//! Equality of stored values, which are held as JSON text.
//!
//! Two texts hold the same value when serde_json reads both into a `Value`
//! and the two values are equal. That equality does not depend on the order
//! of an object's keys, and counts `0.0` and `-0.0` as equal.

use vstd::prelude::*;

verus! {

/// Whether serde_json reads both texts into `Value`s and those values are
/// equal (`false` when either text is not JSON).
pub uninterp spec fn json_equal(a: Seq<char>, b: Seq<char>) -> bool;

/// Calls `serde_json::from_str::<Value>` on both texts and compares the two
/// values with `==`; a text that does not parse compares unequal. The
/// contract only names the result: `json_equal` of the two texts.
#[verifier::external_body]
pub(crate) fn same(a: &String, b: &String) -> (r: bool)
    ensures
        r == json_equal(a@, b@),
{
    let x = serde_json::from_str::<serde_json::Value>(a);
    let y = serde_json::from_str::<serde_json::Value>(b);
    match (x, y) {
        (Ok(x), Ok(y)) => x == y,
        _ => false,
    }
}

} // verus!
