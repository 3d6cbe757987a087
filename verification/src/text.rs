//! The two string operations the host needs beyond what the standard
//! library's specifications already cover.

use vstd::prelude::*;

verus! {

/// Relies on String::push_str: appends the characters of `s` to `out`.
#[verifier::external_body]
pub(crate) fn push_str(out: &mut String, s: &str)
    ensures
        final(out)@ == old(out)@ + s@,
{
    out.push_str(s)
}

/// Builds `prefix` followed by `(binding,capid)` spelled out, closing
/// the parenthesis the prefix opened.
pub(crate) fn keyed_text(prefix: &str, binding: &str, capid: &str) -> (r: String)
    ensures
        r@ == prefix@ + binding@ + ","@ + capid@ + ")"@,
{
    let mut s = prefix.to_owned();
    push_str(&mut s, binding);
    push_str(&mut s, ",");
    push_str(&mut s, capid);
    push_str(&mut s, ")");
    s
}

} // verus!
