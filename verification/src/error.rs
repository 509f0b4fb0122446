//! The service's one error kind: a mandatory header was absent.

use vstd::prelude::*;

verus! {

/// A client error, carried to the boundary as an HTTP status code and a
/// message naming the missing header.
#[derive(Debug)]
pub struct ApiError {
    /// The HTTP status code the boundary should answer with.
    pub status: u16,
    /// The human-readable description of the failure.
    pub message: String,
}

impl ApiError {
    /// Build an error carrying `status` and `message`.
    pub fn new(status: u16, message: &str) -> (e: Self)
        ensures
            e.status == status,
            e.message@ == message@,
    {
        ApiError { status: status, message: message.to_owned() }
    }
}

} // verus!
