//! The failure taxonomy for remote calls, and how the engine reacts to each.

use vstd::prelude::*;

verus! {

/// Classification of a failed remote call.
///
/// `Network` and `ServerError` are transient and retried with backoff.
/// `RateLimited` is retried after an engine-wide cooldown. `AuthFailed` halts
/// the whole engine: no credential differs lane to lane. `BadRequest` and
/// `MalformedResponse` are fatal for the one action only.
#[derive(Clone, Copy, PartialEq, Eq, Structural, Debug)]
pub enum RemoteError {
    Network,
    RateLimited,
    AuthFailed,
    BadRequest,
    ServerError,
    MalformedResponse,
}

impl RemoteError {
    /// Whether a failed action stays queued for another attempt.
    pub open spec fn spec_retryable(self) -> bool {
        self is Network || self is ServerError || self is RateLimited
    }

    /// Checks whether this failure is worth retrying.
    pub fn is_retryable(&self) -> (r: bool)
        ensures
            r == self.spec_retryable(),
    {
        match self {
            RemoteError::Network => true,
            RemoteError::ServerError => true,
            RemoteError::RateLimited => true,
            _ => false,
        }
    }
}

/// Maps an HTTP status code to its failure class: 401 and 403 are
/// authentication failures, 429 is a rate limit, any other 4xx is a bad
/// request (fatal for the one action), and the 5xx range is a server
/// error. Any other non-success status is treated as a transient
/// transport problem.
pub fn classify_status(status: u16) -> (r: RemoteError)
    ensures
        r == spec_classify_status(status),
{
    if status == 401 || status == 403 {
        RemoteError::AuthFailed
    } else if status == 429 {
        RemoteError::RateLimited
    } else if 400 <= status && status <= 499 {
        RemoteError::BadRequest
    } else if 500 <= status && status <= 599 {
        RemoteError::ServerError
    } else {
        RemoteError::Network
    }
}

/// The status-code classification, as a function.
pub open spec fn spec_classify_status(status: u16) -> RemoteError {
    if status == 401 || status == 403 {
        RemoteError::AuthFailed
    } else if status == 429 {
        RemoteError::RateLimited
    } else if 400 <= status <= 499 {
        RemoteError::BadRequest
    } else if 500 <= status <= 599 {
        RemoteError::ServerError
    } else {
        RemoteError::Network
    }
}

} // verus!
