//! Errors the services report to their callers.
use vstd::prelude::*;

verus! {

#[derive(Debug, Clone)]
pub enum ApiError {
    /// The request was malformed.
    Validation(String),
    /// The requested record does not exist.
    NotFound(String),
    /// Compliance screening refused or could not run.
    Compliance(String),
}

impl ApiError {
    /// The message carried by the error.
    pub fn message(&self) -> (m: &String)
        ensures
            match self {
                ApiError::Validation(s) => m == s,
                ApiError::NotFound(s) => m == s,
                ApiError::Compliance(s) => m == s,
            },
    {
        match self {
            ApiError::Validation(s) => s,
            ApiError::NotFound(s) => s,
            ApiError::Compliance(s) => s,
        }
    }
}

} // verus!
