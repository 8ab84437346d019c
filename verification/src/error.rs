//! The errors that callers receive.

use vstd::prelude::*;

verus! {

/// The HTTP status of an error.
#[derive(Clone, Copy, Debug, PartialEq, Eq, Structural)]
pub enum Status {
    BadRequest,
    Unauthorized,
    Conflict,
    InternalServerError,
    ServiceUnavailable,
}

impl Status {
    /// The number of the status in HTTP.
    pub open spec fn number(self) -> u16 {
        match self {
            Status::BadRequest => 400,
            Status::Unauthorized => 401,
            Status::Conflict => 409,
            Status::InternalServerError => 500,
            Status::ServiceUnavailable => 503,
        }
    }

    pub fn code(self) -> (number: u16)
        ensures
            number == self.number(),
    {
        match self {
            Status::BadRequest => 400,
            Status::Unauthorized => 401,
            Status::Conflict => 409,
            Status::InternalServerError => 500,
            Status::ServiceUnavailable => 503,
        }
    }
}

/// An error with a stable machine-readable code.
#[derive(Debug)]
pub struct ApiError {
    pub status: Status,
    pub code: &'static str,
    pub message: String,
}

/// The contents of an [`ApiError`].
pub struct ErrorView {
    pub status: Status,
    pub code: Seq<char>,
    pub message: Seq<char>,
}

impl View for ApiError {
    type V = ErrorView;

    open spec fn view(&self) -> ErrorView {
        ErrorView { status: self.status, code: self.code@, message: self.message@ }
    }
}

/// Invalid input.
pub open spec fn bad_request(message: Seq<char>) -> ErrorView {
    ErrorView { status: Status::BadRequest, code: "INVALID_REQUEST"@, message }
}

/// Missing or wrong API key.
pub open spec fn unauthorized() -> ErrorView {
    ErrorView {
        status: Status::Unauthorized,
        code: "UNAUTHORIZED"@,
        message: "Missing or invalid API key"@,
    }
}

/// A request at odds with the state of a room or a record.
pub open spec fn conflict(code: Seq<char>, message: Seq<char>) -> ErrorView {
    ErrorView { status: Status::Conflict, code, message }
}

/// Setup that has not been completed.
pub open spec fn service_unavailable(message: Seq<char>) -> ErrorView {
    ErrorView { status: Status::ServiceUnavailable, code: "SETUP_REQUIRED"@, message }
}

/// A failure whose details stay inside the service.
pub open spec fn internal() -> ErrorView {
    ErrorView {
        status: Status::InternalServerError,
        code: "MATRIX_DELIVERY_FAILED"@,
        message: "Matrix delivery failed"@,
    }
}

impl ApiError {
    pub fn bad_request(message: &str) -> (error: ApiError)
        ensures
            error@ == bad_request(message@),
    {
        ApiError {
            status: Status::BadRequest,
            code: "INVALID_REQUEST",
            message: message.to_owned(),
        }
    }

    pub fn unauthorized() -> (error: ApiError)
        ensures
            error@ == unauthorized(),
    {
        ApiError {
            status: Status::Unauthorized,
            code: "UNAUTHORIZED",
            message: "Missing or invalid API key".to_owned(),
        }
    }

    pub fn conflict(code: &'static str, message: &str) -> (error: ApiError)
        ensures
            error@ == conflict(code@, message@),
    {
        ApiError { status: Status::Conflict, code, message: message.to_owned() }
    }

    pub fn service_unavailable(message: &str) -> (error: ApiError)
        ensures
            error@ == service_unavailable(message@),
    {
        ApiError {
            status: Status::ServiceUnavailable,
            code: "SETUP_REQUIRED",
            message: message.to_owned(),
        }
    }

    pub fn internal() -> (error: ApiError)
        ensures
            error@ == internal(),
    {
        ApiError {
            status: Status::InternalServerError,
            code: "MATRIX_DELIVERY_FAILED",
            message: "Matrix delivery failed".to_owned(),
        }
    }
}

} // verus!
