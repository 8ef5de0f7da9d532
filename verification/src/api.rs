//! Plain shapes shared with the HTTP boundary: the error envelope and
//! the extractor newtypes. The boundary's framework impls live with the
//! binary; the library keeps only the data and the status mapping.

use vstd::prelude::*;
use crate::errors::AuthError;

verus! {

/// Why a request path failed to yield the value a handler wanted.
#[derive(Clone, Debug, PartialEq, Eq)]
pub enum PathError {
    WrongNumberOfParameters,
    ParseErrorAtKey(String),
    ParseErrorAtIndex(usize),
    ParseError,
    InvalidUtf8InPathParam(String),
    UnsupportedType,
    Message,
    MissingPathParams,
    UnhandledDeserialization,
    UnhandledRejection,
}

/// Which layer an error envelope came from.
#[derive(Clone, Debug, PartialEq, Eq)]
pub enum ApiErrorType {
    Auth(AuthError),
    Api,
    Path(PathError),
}

/// The error envelope handed to the HTTP boundary: a status code and
/// the kind that produced it.
#[derive(Clone, Debug, PartialEq, Eq)]
pub struct ApiError {
    pub status_code: u16,
    pub error_type: ApiErrorType,
}

/// The status code an auth failure maps to. Every token or credential
/// failure is the same generic unauthorized signal, so a probe cannot
/// tell a wrong password from a revoked or expired token; only a
/// role/ownership failure (403) and a store failure (500) differ.
pub open spec fn auth_status(e: AuthError) -> u16 {
    match e {
        AuthError::Forbidden => 403,
        AuthError::StoreUnavailable => 500,
        _ => 401,
    }
}

impl From<AuthError> for ApiError {
    fn from(e: AuthError) -> (r: ApiError) {
        let status: u16 = match e {
            AuthError::Forbidden => 403,
            AuthError::StoreUnavailable => 500,
            _ => 401,
        };
        ApiError { status_code: status, error_type: ApiErrorType::Auth(e) }
    }
}

impl vstd::std_specs::convert::FromSpecImpl<AuthError> for ApiError {
    open spec fn obeys_from_spec() -> bool {
        true
    }

    open spec fn from_spec(e: AuthError) -> ApiError {
        ApiError { status_code: auth_status(e), error_type: ApiErrorType::Auth(e) }
    }
}

/// A request body already read as a value of `T`.
pub struct Json<T>(pub T);

/// A path parameter already read as a value of `T`.
pub struct Path<T>(pub T);

} // verus!
