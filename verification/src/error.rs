//! Error and message types shared by the whole authentication core.
//!
//! Every failure of the core is an [`ArgentError`]: an HTTP-shaped status
//! together with a generic message. Internal detail never reaches the
//! client; the constructors here fix the exact message for each status.

use vstd::prelude::*;

verus! {

/// The HTTP status class that an error maps to at the boundary.
#[derive(Clone, Copy, PartialEq, Eq, Structural, Debug)]
pub enum ErrorStatus {
    BadRequest,
    Unauthorized,
    Forbidden,
    NotFound,
    ServerError,
}

impl ErrorStatus {
    /// The numeric HTTP status code of this class.
    pub fn code(&self) -> (r: u16)
        ensures
            r == self.spec_code(),
    {
        match self {
            ErrorStatus::BadRequest => 400,
            ErrorStatus::Unauthorized => 401,
            ErrorStatus::Forbidden => 403,
            ErrorStatus::NotFound => 404,
            ErrorStatus::ServerError => 500,
        }
    }

    pub open spec fn spec_code(&self) -> u16 {
        match self {
            ErrorStatus::BadRequest => 400u16,
            ErrorStatus::Unauthorized => 401u16,
            ErrorStatus::Forbidden => 403u16,
            ErrorStatus::NotFound => 404u16,
            ErrorStatus::ServerError => 500u16,
        }
    }
}

/// An error of the authentication core: a status and the message that
/// the API layer may echo to the client.
#[derive(Debug)]
pub struct ArgentError {
    pub status: ErrorStatus,
    pub msg: String,
}

impl ArgentError {
    pub fn new(msg: &str, status: ErrorStatus) -> (r: ArgentError)
        ensures
            r.status == status,
            r.msg@ == msg@,
    {
        ArgentError { status, msg: msg.to_owned() }
    }

    pub fn status_code(&self) -> (r: u16)
        ensures
            r == self.status.spec_code(),
    {
        self.status.code()
    }

    pub fn not_found() -> (r: ArgentError)
        ensures
            r.status == ErrorStatus::NotFound,
            r.msg@ == "Not found"@,
    {
        Self::new("Not found", ErrorStatus::NotFound)
    }

    pub fn bad_request() -> (r: ArgentError)
        ensures
            r.status == ErrorStatus::BadRequest,
            r.msg@ == "Bad Request"@,
    {
        Self::new("Bad Request", ErrorStatus::BadRequest)
    }

    pub fn forbidden() -> (r: ArgentError)
        ensures
            r.status == ErrorStatus::Forbidden,
            r.msg@ == "Forbidden"@,
    {
        Self::new("Forbidden", ErrorStatus::Forbidden)
    }

    pub fn unauthorized() -> (r: ArgentError)
        ensures
            r.status == ErrorStatus::Unauthorized,
            r.msg@ == "Unauthorized"@,
    {
        Self::new("Unauthorized", ErrorStatus::Unauthorized)
    }

    pub fn server_error() -> (r: ArgentError)
        ensures
            r.status == ErrorStatus::ServerError,
            r.msg@ == "Internal Server Error"@,
    {
        Self::new("Internal Server Error", ErrorStatus::ServerError)
    }

    pub fn not_found_msg(msg: &str) -> (r: ArgentError)
        ensures
            r.status == ErrorStatus::NotFound,
            r.msg@ == msg@,
    {
        Self::new(msg, ErrorStatus::NotFound)
    }

    pub fn bad_request_msg(msg: &str) -> (r: ArgentError)
        ensures
            r.status == ErrorStatus::BadRequest,
            r.msg@ == msg@,
    {
        Self::new(msg, ErrorStatus::BadRequest)
    }

    pub fn forbidden_msg(msg: &str) -> (r: ArgentError)
        ensures
            r.status == ErrorStatus::Forbidden,
            r.msg@ == msg@,
    {
        Self::new(msg, ErrorStatus::Forbidden)
    }

    pub fn unauthorized_msg(msg: &str) -> (r: ArgentError)
        ensures
            r.status == ErrorStatus::Unauthorized,
            r.msg@ == msg@,
    {
        Self::new(msg, ErrorStatus::Unauthorized)
    }

    pub fn server_error_msg(msg: &str) -> (r: ArgentError)
        ensures
            r.status == ErrorStatus::ServerError,
            r.msg@ == msg@,
    {
        Self::new(msg, ErrorStatus::ServerError)
    }

    /// The generic error owed to a given status class.
    pub fn from_status(status: ErrorStatus) -> (r: ArgentError)
        ensures
            r.status == status,
    {
        match status {
            ErrorStatus::BadRequest => Self::bad_request(),
            ErrorStatus::Unauthorized => Self::unauthorized(),
            ErrorStatus::Forbidden => Self::forbidden(),
            ErrorStatus::NotFound => Self::not_found(),
            ErrorStatus::ServerError => Self::server_error(),
        }
    }
}

/// The plain message body that the API layer serialises for a client.
#[derive(Debug)]
pub struct SimpleMessage {
    pub msg: String,
}

impl SimpleMessage {
    pub fn new(msg: &str) -> (r: SimpleMessage)
        ensures
            r.msg@ == msg@,
    {
        SimpleMessage { msg: msg.to_owned() }
    }

    pub fn ok() -> (r: SimpleMessage)
        ensures
            r.msg@ == "OK"@,
    {
        Self::new("OK")
    }
}

} // verus!
