//! Normalised request URLs, the keys of the response cache.

use vstd::prelude::*;
use crate::ApiError;

verus! {

/// The text of `input` parsed as an absolute URL with the pairs `params`
/// appended, form-encoded, to its query; none when `input` does not parse.
pub uninterp spec fn url_with_params(input: Seq<char>, params: Seq<(Seq<char>, Seq<char>)>) -> Option<Seq<char>>;

/// The pairs as text.
pub open spec fn pairs_view(params: Seq<(String, String)>) -> Seq<(Seq<char>, Seq<char>)> {
    params.map_values(|p: (String, String)| (p.0@, p.1@))
}

/// Relies on `Url::parse_with_params` (the url crate, as reqwest re-exports
/// it), which parses `input` and extends its query with `params`, and on
/// `Url::into_string` for the resulting text. The text depends on the
/// arguments alone.
#[verifier::external_body]
fn parse_with_params(input: &str, params: &Vec<(String, String)>) -> (r: Result<String, reqwest::UrlError>)
    ensures
        r matches Ok(s) ==> url_with_params(input@, pairs_view(params@)) == Some(s@),
        r is Err ==> url_with_params(input@, pairs_view(params@)) is None,
{
    let pairs = params.iter().map(|p| (p.0.as_str(), p.1.as_str()));
    reqwest::Url::parse_with_params(input, pairs).map(|u| u.into_string())
}

/// The cache key of a request for `url` with the query pairs `query`: the
/// URL's normalised text with the pairs appended. A URL that does not parse
/// is an error.
pub fn request_key(url: &str, query: &Vec<(String, String)>) -> (r: Result<String, ApiError>)
    ensures
        r is Ok <==> url_with_params(url@, pairs_view(query@)) is Some,
        r matches Ok(k) ==> url_with_params(url@, pairs_view(query@)) == Some(k@),
        r matches Err(e) ==> e is InvalidUrl,
{
    match parse_with_params(url, query) {
        Ok(k) => Ok(k),
        Err(e) => Err(ApiError::InvalidUrl(e)),
    }
}

} // verus!
