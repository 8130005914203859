//! The closed set of errors and their fixed HTTP responses.

use vstd::prelude::*;

verus! {

/// What can go wrong while serving a request.
#[derive(Debug, Clone, Copy, PartialEq, Eq, Structural)]
pub enum UserError {
    /// The requested id is absent.
    NotFound,
    /// The input was malformed.
    ValidationError,
    /// The store could not be reached.
    InternalServerError,
}

/// The HTTP status that each error maps to.
pub open spec fn status_of(e: UserError) -> u16 {
    match e {
        UserError::NotFound => 404,
        UserError::ValidationError => 400,
        UserError::InternalServerError => 500,
    }
}

/// The fixed message of each error.
pub open spec fn message_of(e: UserError) -> Seq<char> {
    match e {
        UserError::NotFound => "User not found"@,
        UserError::ValidationError => "Invalid input"@,
        UserError::InternalServerError => "Internal server error"@,
    }
}

/// A JSON string literal holding `s`, for text with no quote, backslash or
/// control character.
pub open spec fn json_string(s: Seq<char>) -> Seq<char> {
    seq!['"'] + s + seq!['"']
}

/// The response for an error: a status and a JSON body.
#[derive(Debug, Clone, PartialEq, Eq)]
pub struct ErrorResponse {
    pub status: u16,
    pub body: String,
}

impl UserError {
    /// The HTTP status of this error.
    pub fn status_code(&self) -> (r: u16)
        ensures
            r == status_of(*self),
    {
        match self {
            UserError::NotFound => 404,
            UserError::ValidationError => 400,
            UserError::InternalServerError => 500,
        }
    }

    /// The fixed message of this error.
    pub fn message(&self) -> (r: &'static str)
        ensures
            r@ == message_of(*self),
    {
        match self {
            UserError::NotFound => "User not found",
            UserError::ValidationError => "Invalid input",
            UserError::InternalServerError => "Internal server error",
        }
    }

    /// The full response: the status, and the message as a JSON string.
    pub fn error_response(&self) -> (r: ErrorResponse)
        ensures
            r.status == status_of(*self),
            r.body@ == json_string(message_of(*self)),
    {
        let mut body = String::from_str("\"");
        body.append(self.message());
        body.append("\"");
        proof {
            reveal_strlit("\"");
        }
        assert(body@ =~= json_string(message_of(*self)));
        ErrorResponse { status: self.status_code(), body }
    }
}

} // verus!
