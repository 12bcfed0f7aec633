//! The error answers the HTTP layer gives.

use vstd::prelude::*;

verus! {

/// What a request is answered with when it cannot be served.
#[derive(Debug, Clone, PartialEq, Eq)]
pub enum AppError {
    /// 400: the input is well formed but refers to something it may not.
    BadRequest,
    /// 403: the caller may not do this.
    Forbidden,
    /// 404: the target does not exist (or is outside the caller's tenant).
    NotFound,
    /// 409: the request conflicts with the current state.
    Conflict,
    /// 409 with the reason in the body.
    ConflictDetail(String),
}

} // verus!
