//! Small string helpers shared by the other modules.

use vstd::prelude::*;

verus! {

/// `str`'s `==` from std: two string slices are equal exactly when they
/// hold the same characters.
#[verifier::external_body]
pub(crate) fn str_eq(a: &str, b: &str) -> (same: bool)
    ensures
        same == (a@ == b@),
{
    a == b
}

/// The text without the matches of a pattern, which are found from the
/// left and do not overlap.
pub open spec fn without_all(text: Seq<char>, pattern: Seq<char>) -> Seq<char>
    decreases text.len(),
{
    if pattern.len() == 0 || text.len() < pattern.len() {
        text
    } else if pattern.is_prefix_of(text) {
        without_all(text.skip(pattern.len() as int), pattern)
    } else {
        seq![text[0]] + without_all(text.skip(1), pattern)
    }
}

/// `str::replace` from std with the empty string as replacement: the
/// slice without the matches of the pattern.
#[verifier::external_body]
pub(crate) fn remove_all(s: &str, pattern: &str) -> (out: String)
    requires
        pattern@.len() > 0,
    ensures
        out@ == without_all(s@, pattern@),
{
    s.replace(pattern, "")
}

/// An owned copy of a string slice.
pub(crate) fn owned(s: &str) -> (out: String)
    ensures
        out@ == s@,
{
    s.to_owned()
}

/// `prefix` followed by `rest`, as a new string.
pub(crate) fn joined(prefix: &str, rest: &str) -> (out: String)
    ensures
        out@ == prefix@ + rest@,
{
    let mut out = prefix.to_owned();
    out.append(rest);
    out
}

} // verus!
