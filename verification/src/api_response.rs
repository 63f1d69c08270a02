//! The envelopes in which answers are handed to a caller.

use vstd::prelude::*;

verus! {

/// Whether a call succeeded.
#[derive(Clone, Copy, Debug, PartialEq, Eq, Structural)]
pub enum ApiResponseStatus {
    Okay,
    Error,
}

/// The word that stands for a status in an envelope.
pub open spec fn status_text(status: ApiResponseStatus) -> Seq<char> {
    match status {
        ApiResponseStatus::Okay => "ok"@,
        ApiResponseStatus::Error => "error"@,
    }
}

impl ApiResponseStatus {
    /// The word that stands for the status: "ok" or "error".
    pub fn text(&self) -> (word: String)
        ensures
            word@ == status_text(*self),
    {
        match self {
            ApiResponseStatus::Okay => "ok".to_owned(),
            ApiResponseStatus::Error => "error".to_owned(),
        }
    }
}

/// An answer that carries a text.
#[derive(Debug)]
pub struct ApiResponse {
    pub code: i32,
    pub status: String,
    pub response: String,
}

impl ApiResponse {
    /// The envelope with the given code, the word for the status and the
    /// text.
    pub fn new(code: i32, status: ApiResponseStatus, response: String) -> (envelope: ApiResponse)
        ensures
            envelope.code == code,
            envelope.status@ == status_text(status),
            envelope.response@ == response@,
    {
        ApiResponse { code, status: status.text(), response }
    }
}

/// The answer to a login that was let in: it carries the session token.
#[derive(Debug)]
pub struct ApiAuthSuccessResponse {
    pub code: i32,
    pub status: String,
    pub token: String,
}

impl ApiAuthSuccessResponse {
    /// The envelope with the given code, the word for the status and the
    /// token.
    pub fn new(code: i32, status: ApiResponseStatus, token: String) -> (envelope:
        ApiAuthSuccessResponse)
        ensures
            envelope.code == code,
            envelope.status@ == status_text(status),
            envelope.token@ == token@,
    {
        ApiAuthSuccessResponse { code, status: status.text(), token }
    }
}

} // verus!
