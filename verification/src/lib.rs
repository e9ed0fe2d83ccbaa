//! Handlers for a small gamified HTTP service, written as pure functions.
//!
//! Each request handler is a stateless transformation from plain request
//! values (path parameters, body bytes, a header) to a response value; the
//! HTTP plumbing around them lives outside this library.

use vstd::prelude::*;

pub mod arith;
pub mod cookie;
pub mod elf;
pub mod reindeer;
pub mod text;

verus! {

/// The error a handler reports when its input cannot be processed.
#[derive(Debug)]
pub struct AppError {}

impl AppError {
    /// Make a fresh handler error.
    pub fn new() -> (e: AppError)
        ensures
            e == (AppError {  }),
    {
        AppError {  }
    }

    /// The text that accompanies a handler error in a response.
    pub fn message(&self) -> (r: String)
        ensures
            r@ == "Something went wrong"@,
    {
        String::from_str("Something went wrong")
    }
}

/// The root route: a plain success with no body.
pub fn ok_response() -> (r: u16)
    ensures
        r == 200u16,
{
    200
}

/// The fixed failure route: always an internal server error.
pub fn respond_internal_server_error() -> (r: (u16, String))
    ensures
        r.0 == 500u16,
        r.1@ == "Internal Server Error"@,
{
    (500, String::from_str("Internal Server Error"))
}

} // verus!
