//! A client library for a paginated, rate-limited REST API: response cache with
//! (possibly randomised) expiry, rate limiting over a sliding window, retry
//! decisions and lazily fetched paginated lists.

use vstd::prelude::*;

pub mod builder;
pub mod cache;
pub mod duration;
pub mod fetch;
pub mod foreign;
pub mod keyed;
pub mod model;
pub mod paginated;
pub mod rate;
pub mod request;
pub mod retry;
pub mod timeout;
pub mod variable;

verus! {

/// All the kinds of errors that can occur in the library.
#[derive(Debug)]
pub enum ApiError {
    /// An API key that is not a valid HTTP header value.
    InvalidHeaderValue(reqwest::header::InvalidHeaderValue),
    /// Reading or writing the disk cache failed.
    Io(std::io::Error),
    /// A category or level has no single link with `"rel": "game"`.
    MissingGameRel,
    /// The HTTP request failed, or the server answered with an error status.
    Reqwest(reqwest::Error),
    /// A response or the disk cache is not the JSON that was expected.
    SerDe(serde_json::Error),
    /// A recorded request lies in the future of the current time.
    SystemTime,
    /// A page size outside the range that the list's endpoint accepts.
    InvalidPageSize,
    /// A page whose reported size differs from the number of items it holds.
    PageSizeMismatch,
    /// A retry budget of zero attempts.
    InvalidNumTries,
    /// A request URL that does not parse.
    InvalidUrl(reqwest::UrlError),
}

} // verus!
