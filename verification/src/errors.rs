//! The failures that the library reports.

use vstd::prelude::*;

verus! {

/// A login attempt was refused. The value carries nothing, so a caller
/// cannot tell an unknown login from a wrong password.
#[derive(Clone, Copy, Debug, PartialEq, Eq, Structural)]
pub struct AuthError;

impl AuthError {
    /// The text shown for a refused login.
    pub fn message(&self) -> (text: String)
        ensures
            text@ == "Authentication error"@,
    {
        "Authentication error".to_owned()
    }
}

/// Which fields of a registration were refused. At least one flag is set
/// in every value that the library returns.
#[derive(Clone, Copy, Debug, PartialEq, Eq, Structural)]
pub struct ValidationError {
    /// The login is not shaped like an e-mail address.
    pub login: bool,
    /// The e-mail address is not shaped like one.
    pub email: bool,
    /// The password is shorter or longer than allowed.
    pub password: bool,
    /// The session lifetime is zero.
    pub lifetime: bool,
}

/// Why an operation did not succeed.
#[derive(Clone, Copy, Debug, PartialEq, Eq, Structural)]
pub enum Failure {
    /// No matching active user, or no matching session.
    NotFound,
    /// Login unknown or password wrong.
    Auth(AuthError),
    /// The input breaks a rule on its shape or length.
    Validation(ValidationError),
    /// The login is already taken.
    Conflict,
    /// The table could not take the row.
    Store,
    /// No salt could be drawn, or the password could not be hashed.
    Crypto,
}

} // verus!
