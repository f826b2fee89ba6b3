//! Web addresses, as the `url` crate parses them.

use vstd::prelude::*;
use url::Url;

verus! {

#[verifier::external_type_specification]
#[verifier::external_body]
pub struct ExUrl(url::Url);

#[verifier::external_type_specification]
#[verifier::external_body]
pub struct ExParseError(url::ParseError);

/// The address that `text` writes; `None` where it writes none.
pub uninterp spec fn parsed_url(text: Seq<char>) -> Option<Url>;

/// The host of the address as text, where it has one.
pub uninterp spec fn host_of(address: &Url) -> Option<Seq<char>>;

/// The segments of the path, split at `/`, where the address can be a base.
pub uninterp spec fn path_segments_of(address: &Url) -> Option<Seq<Seq<char>>>;

/// The pairs of name and value in the query, decoded, in the order written.
pub uninterp spec fn query_pairs_of(address: &Url) -> Seq<(Seq<char>, Seq<char>)>;

/// `Url::parse`: the address that the text writes, or the parser's error.
#[verifier::external_body]
pub(crate) fn parse(text: &str) -> (r: Result<Url, url::ParseError>)
    ensures
        match r {
            Ok(address) => parsed_url(text@) == Some(address),
            Err(_) => parsed_url(text@) is None,
        },
{
    Url::parse(text)
}

/// `Url::host_str`: the host as text, where the address has one.
#[verifier::external_body]
pub(crate) fn host(address: &Url) -> (r: Option<String>)
    ensures
        r.deep_view() == host_of(address),
{
    address.host_str().map(|h| h.to_string())
}

/// `Url::path_segments`: the segments of the path, where the address can be a
/// base.
#[verifier::external_body]
pub(crate) fn path_segments(address: &Url) -> (r: Option<Vec<String>>)
    ensures
        r.deep_view() == path_segments_of(address),
{
    address.path_segments().map(|segments| segments.map(|s| s.to_string()).collect())
}

/// `Url::query_pairs`: the decoded pairs of the query, in the order written.
#[verifier::external_body]
pub(crate) fn query_pairs(address: &Url) -> (r: Vec<(String, String)>)
    ensures
        r.deep_view() == query_pairs_of(address),
{
    address.query_pairs().map(|(k, v)| (k.to_string(), v.to_string())).collect()
}

} // verus!
