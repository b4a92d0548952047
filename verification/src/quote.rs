//! Texts shown in quotation marks, for messages about what was given.

use vstd::prelude::*;

verus! {

/// How a text looks between quotation marks, with what is not printable escaped.
pub uninterp spec fn quoted_form(s: Seq<char>) -> Seq<char>;

/// Calls `format!` of std with the format `{:?}` on a string. Claims that the
/// result depends on the text alone, and names it; which characters are escaped,
/// and how, is not stated.
#[verifier::external_body]
pub(crate) fn quoted(s: &str) -> (r: String)
    ensures
        r@ == quoted_form(s@),
{
    format!("{:?}", s)
}

} // verus!
