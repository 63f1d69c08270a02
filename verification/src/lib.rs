//! Credentials and sessions for staff operators: password hashing and
//! verification, the table of staff users, the table of sessions with
//! their life cycle, and the two operations that tie them together,
//! `register` and `authenticate`.
//!
//! Time, tokens and salts come from outside and are passed in as plain
//! values, so every operation is a function of its arguments.

pub mod api_response;
pub mod auth;
pub mod errors;
pub mod password;
pub mod staff;
pub mod staff_session;

pub use api_response::{ApiAuthSuccessResponse, ApiResponse, ApiResponseStatus};
pub use auth::{login_decision, validate_registration, validation_of, AuthService};
pub use errors::{AuthError, Failure, ValidationError};
pub use password::{generate_random_salt, hash_password, verify_password, SALT_LEN};
pub use staff::{StaffRepo, StaffUser};
pub use staff_session::{Session, SessionRepo};
