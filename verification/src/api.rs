//! Error classification and the health check.
//!
//! Expected outcomes (a missing row, a duplicate key, a bad parameter) are
//! classified locally and map to 4xx statuses with a `fail` envelope;
//! anything unexpected is a `StorageFailure` mapping to 500 with an `error`
//! envelope.

use vstd::prelude::*;

verus! {

/// Why a request did not succeed.
#[derive(Clone, Copy, PartialEq, Eq, Structural, Debug)]
pub enum ApiError {
    /// The addressed entity does not exist.
    NotFound,
    /// A unique key already holds the value being created.
    Conflict,
    /// A request parameter is outside what the endpoint accepts.
    Validation,
    /// The storage layer failed for any other reason.
    Storage,
}

impl ApiError {
    /// The HTTP status of each error class.
    pub fn http_status(&self) -> (s: u16)
        ensures
            *self == ApiError::NotFound ==> s == 404,
            *self == ApiError::Conflict ==> s == 409,
            *self == ApiError::Validation ==> s == 400,
            *self == ApiError::Storage ==> s == 500,
    {
        match self {
            ApiError::NotFound => 404,
            ApiError::Conflict => 409,
            ApiError::Validation => 400,
            ApiError::Storage => 500,
        }
    }

    /// The envelope status string: `fail` for expected, locally classified
    /// outcomes, `error` for unexpected failures.
    pub fn status_label(&self) -> (s: &'static str)
        ensures
            *self == ApiError::Storage ==> s@ == "error"@,
            *self != ApiError::Storage ==> s@ == "fail"@,
    {
        match self {
            ApiError::Storage => "error",
            ApiError::NotFound => "fail",
            ApiError::Conflict => "fail",
            ApiError::Validation => "fail",
        }
    }
}

/// The fixed health-check payload.
pub struct HealthResponse {
    pub status: &'static str,
    pub message: &'static str,
}

/// The health check: a fixed payload, no dependencies consulted.
pub fn health_check() -> (r: HealthResponse)
    ensures
        r.status@ == "ok"@,
        r.message@ == "API Product Service"@,
{
    HealthResponse { status: "ok", message: "API Product Service" }
}

} // verus!
