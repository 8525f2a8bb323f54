//! The error taxonomy shared by every operation of the backend.

use vstd::prelude::*;

verus! {

/// Everything an operation of this backend can fail with.
///
/// `NotFound` is returned when a requested product, bundle or user does not
/// exist; `StorageFailure` wraps a constraint violation of the store
/// (a duplicate key, a missing foreign-key target); the remaining variants
/// belong to the authentication flows.
#[derive(Debug, PartialEq, Eq)]
pub enum AppError {
    InternalServerError,
    BadRequest(String),
    Unauthorized,
    NotFound,
    StorageFailure(String),
}

impl AppError {
    /// The HTTP status code each error maps to at the caller boundary.
    pub fn status_code(&self) -> (r: u16)
        ensures
            r == match *self {
                AppError::InternalServerError => 500u16,
                AppError::BadRequest(_) => 400u16,
                AppError::Unauthorized => 401u16,
                AppError::NotFound => 404u16,
                AppError::StorageFailure(_) => 500u16,
            },
    {
        match self {
            AppError::InternalServerError => 500,
            AppError::BadRequest(_) => 400,
            AppError::Unauthorized => 401,
            AppError::NotFound => 404,
            AppError::StorageFailure(_) => 500,
        }
    }

    /// The user-facing message each error carries.
    pub fn message(&self) -> (r: String)
        ensures
            r@ == match *self {
                AppError::InternalServerError => "Internal server error"@,
                AppError::BadRequest(m) => m@,
                AppError::Unauthorized => "Unauthorized"@,
                AppError::NotFound => "Not found"@,
                AppError::StorageFailure(m) => m@,
            },
    {
        match self {
            AppError::InternalServerError => "Internal server error".to_owned(),
            AppError::BadRequest(m) => m.clone(),
            AppError::Unauthorized => "Unauthorized".to_owned(),
            AppError::NotFound => "Not found".to_owned(),
            AppError::StorageFailure(m) => m.clone(),
        }
    }
}

} // verus!
