//! Declarations of the outside types and functions that the library relies on.

use vstd::prelude::*;

verus! {

/// A JSON (de)serialisation error, carried in `ApiError::SerDe`.
#[verifier::external_type_specification]
#[verifier::external_body]
pub struct ExJsonError(serde_json::Error);

/// An HTTP client error, carried in `ApiError::Reqwest`.
#[verifier::external_type_specification]
#[verifier::external_body]
pub struct ExHttpError(reqwest::Error);

/// A header value that HTTP refuses, carried in `ApiError::InvalidHeaderValue`.
#[verifier::external_type_specification]
#[verifier::external_body]
pub struct ExInvalidHeaderValue(reqwest::header::InvalidHeaderValue);

/// A URL that does not parse, carried in `ApiError::InvalidUrl`.
#[verifier::external_type_specification]
#[verifier::external_body]
pub struct ExUrlError(reqwest::UrlError);

/// An I/O error, carried in `ApiError::Io`.
#[verifier::external_type_specification]
#[verifier::external_body]
pub struct ExIoError(std::io::Error);

} // verus!
