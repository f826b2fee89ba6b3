//! Percent-encoded text, as the `urlencoding` crate decodes it.

use vstd::prelude::*;

verus! {

/// `text` with each `%` and two hexadecimal digits replaced by the byte they
/// write, read as UTF-8; `None` where the bytes are not UTF-8.
pub uninterp spec fn percent_decoded(text: Seq<char>) -> Option<Seq<char>>;

/// `urlencoding::decode`: the decoded text, and an error where the decoded
/// bytes are not UTF-8. The contract claims only that the outcome is the one
/// named `percent_decoded`.
#[verifier::external_body]
pub(crate) fn decode(text: &str) -> (r: Option<String>)
    ensures
        r.deep_view() == percent_decoded(text@),
{
    urlencoding::decode(text).ok().map(|s| s.into_owned())
}

} // verus!
