//! Small string helpers shared by the parser and the planner.

use vstd::prelude::*;

verus! {

/// The text that `str::to_lowercase` returns for the text `s`.
pub uninterp spec fn lowercase_of(s: Seq<char>) -> Seq<char>;

/// Calls `str::to_lowercase` (Unicode lower case, as std documents it).
/// The contract only names the result: `lowercase_of` of the input's text.
#[verifier::external_body]
pub(crate) fn lowercase(s: &String) -> (r: String)
    ensures
        r@ == lowercase_of(s@),
{
    s.to_lowercase()
}

/// Whether the text of `s` is the text of the literal `lit`.
pub fn eq_lit(s: &String, lit: &str) -> (r: bool)
    ensures
        r == (s@ == lit@),
{
    let l = String::from_str(lit);
    *s == l
}

/// The texts of a list of strings.
pub open spec fn texts(v: Seq<String>) -> Seq<Seq<char>> {
    v.map_values(|s: String| s@)
}

/// `a` followed by `b`, as a new string.
pub fn join(a: &String, b: &str) -> (r: String)
    ensures
        r@ == a@ + b@,
{
    let c = a.clone();
    c.concat(b)
}

} // verus!
