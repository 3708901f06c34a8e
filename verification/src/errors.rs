//! The error taxonomy of the service: validation faults on pagination
//! parameters, the not-found outcome of a single-resource lookup, and store
//! failures wrapped as application errors.

use vstd::prelude::*;

verus! {

/// A failure reported by the data store (connectivity, timeout, malformed
/// stored payload), reduced to a message string so that no schema internals
/// leak outward.
#[derive(Clone, Debug, PartialEq, Eq)]
pub struct StoreError {
    pub message: String,
}

/// Which pagination parameter a request was rejected for.
#[derive(Clone, Copy, Debug, PartialEq, Eq, Structural)]
pub enum ValidationFault {
    /// `offset` is below the least admissible cursor value of 1.
    OffsetOutOfRange,
    /// `limit` lies outside 1..=1000.
    LimitOutOfRange,
    /// `direction` is neither `forward` nor `backward`.
    UnknownDirection,
}

/// A request-scoped error of the service. A list query with zero matching
/// rows is *not* an error: it is an empty success value.
#[derive(Clone, Debug, PartialEq, Eq)]
pub enum ApiError {
    /// A malformed pagination parameter, rejected before any store call.
    Validation(ValidationFault),
    /// A single-resource lookup found no row. Distinct from an empty list.
    NotFound,
    /// A store failure wrapped as an internal application error.
    ApplicationError(StoreError),
}

impl From<StoreError> for ApiError {
    /// Wraps a store failure as the application error it surfaces as.
    fn from(value: StoreError) -> (r: Self) {
        ApiError::ApplicationError(value)
    }
}

impl vstd::std_specs::convert::FromSpecImpl<StoreError> for ApiError {
    open spec fn obeys_from_spec() -> bool {
        true
    }

    open spec fn from_spec(value: StoreError) -> ApiError {
        ApiError::ApplicationError(value)
    }
}

/// The HTTP status class an error maps to at the service edge.
pub open spec fn spec_status_code(e: ApiError) -> u16 {
    match e {
        ApiError::Validation(_) => 400u16,
        ApiError::NotFound => 404u16,
        ApiError::ApplicationError(_) => 500u16,
    }
}

impl ApiError {
    /// The HTTP status class this error maps to at the service edge.
    pub fn status_code(&self) -> (code: u16)
        ensures
            code == spec_status_code(*self),
    {
        match self {
            ApiError::Validation(_) => 400,
            ApiError::NotFound => 404,
            ApiError::ApplicationError(_) => 500,
        }
    }

    /// A human-readable description, in place of a `Display` impl.
    pub fn message(&self) -> (text: String)
        ensures
            text@ == (match *self {
                ApiError::Validation(ValidationFault::OffsetOutOfRange) => "offset must be at least 1"@,
                ApiError::Validation(ValidationFault::LimitOutOfRange) => "limit must lie between 1 and 1000"@,
                ApiError::Validation(ValidationFault::UnknownDirection) => "direction must be forward or backward"@,
                ApiError::NotFound => "not found"@,
                ApiError::ApplicationError(e) => e.message@,
            }),
    {
        match self {
            ApiError::Validation(ValidationFault::OffsetOutOfRange) => "offset must be at least 1".to_owned(),
            ApiError::Validation(ValidationFault::LimitOutOfRange) => "limit must lie between 1 and 1000".to_owned(),
            ApiError::Validation(ValidationFault::UnknownDirection) => "direction must be forward or backward".to_owned(),
            ApiError::NotFound => "not found".to_owned(),
            ApiError::ApplicationError(e) => e.message.clone(),
        }
    }
}

} // verus!
