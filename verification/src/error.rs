//! The errors that the API answers with, and how each maps to an HTTP status.

use vstd::prelude::*;

verus! {

/// An error of a request; `BadRequest` and `Conflict` carry the message shown
/// to the member.
#[derive(Debug)]
pub enum AppError {
    Unauthorized,
    Forbidden,
    NotFound,
    BadRequest(String),
    Conflict(String),
    IdentityUnavailable,
    Database,
    Io,
}

impl AppError {
    pub open spec fn spec_status(&self) -> u16 {
        match self {
            AppError::Unauthorized => 401,
            AppError::Forbidden => 403,
            AppError::NotFound => 404,
            AppError::BadRequest(_) => 400,
            AppError::Conflict(_) => 409,
            AppError::IdentityUnavailable => 503,
            AppError::Database => 500,
            AppError::Io => 500,
        }
    }

    /// The HTTP status code of the error.
    pub fn status(&self) -> (r: u16)
        ensures
            r == self.spec_status(),
    {
        match self {
            AppError::Unauthorized => 401,
            AppError::Forbidden => 403,
            AppError::NotFound => 404,
            AppError::BadRequest(_) => 400,
            AppError::Conflict(_) => 409,
            AppError::IdentityUnavailable => 503,
            AppError::Database => 500,
            AppError::Io => 500,
        }
    }

    /// The machine-readable code of the response body, chosen by status.
    pub fn code(&self) -> (r: &'static str)
        ensures
            r@ == status_code_name(self.spec_status())@,
    {
        code_for_status(self.status())
    }

    /// The human-readable message of the response body.
    pub fn message(&self) -> (r: String)
        ensures
            r@ == match self {
                AppError::BadRequest(m) => m@,
                AppError::Conflict(m) => m@,
                _ => error_label(self)@,
            },
    {
        match self {
            AppError::BadRequest(m) => m.clone(),
            AppError::Conflict(m) => m.clone(),
            _ => {
                let label = error_label_exec(self);
                String::from_str(label)
            },
        }
    }
}

pub open spec fn status_code_name(status: u16) -> &'static str {
    if status == 401 {
        "unauthorized"
    } else if status == 404 {
        "not_found"
    } else if status == 503 {
        "identity_unavailable"
    } else {
        "internal_error"
    }
}

/// The code name that the response body carries for a status.
pub fn code_for_status(status: u16) -> (r: &'static str)
    ensures
        r == status_code_name(status),
{
    if status == 401 {
        "unauthorized"
    } else if status == 404 {
        "not_found"
    } else if status == 503 {
        "identity_unavailable"
    } else {
        "internal_error"
    }
}

pub open spec fn error_label(e: &AppError) -> &'static str {
    match e {
        AppError::Unauthorized => "unauthorized",
        AppError::Forbidden => "forbidden",
        AppError::NotFound => "not found",
        AppError::BadRequest(_) => "bad request",
        AppError::Conflict(_) => "conflict",
        AppError::IdentityUnavailable => "identity service unavailable",
        AppError::Database => "database error",
        AppError::Io => "io error",
    }
}

fn error_label_exec(e: &AppError) -> (r: &'static str)
    ensures
        r == error_label(e),
{
    match e {
        AppError::Unauthorized => "unauthorized",
        AppError::Forbidden => "forbidden",
        AppError::NotFound => "not found",
        AppError::BadRequest(_) => "bad request",
        AppError::Conflict(_) => "conflict",
        AppError::IdentityUnavailable => "identity service unavailable",
        AppError::Database => "database error",
        AppError::Io => "io error",
    }
}

} // verus!
