//! The ways in which a request can fail.

use vstd::prelude::*;

verus! {

/// Why the scheduler could not name an account.
#[derive(Debug, Clone, Copy, PartialEq, Eq, Structural)]
pub enum SchedulingError {
    /// The pool holds no account that is active and may serve the model.
    NoEligibleAccount,
    /// Accounts are available, but none admits the estimated cost.
    QuotaExhausted,
    /// Every account that could serve is suspended, one of them at least
    /// for a token exchange that failed.
    TokenRefreshFailed,
}

/// Why a proxied request did not succeed.
#[derive(Debug, Clone, Copy, PartialEq, Eq, Structural)]
pub enum ProxyError {
    NoEligibleAccount,
    QuotaExhausted,
    TokenRefreshFailed,
    /// The upstream API could not be reached, or did not answer in time.
    UpstreamUnavailable,
    /// The upstream API answered with an error status.
    UpstreamRejected,
    /// The proxy is switched off.
    ConfigDisabled,
    /// The request did not present the configured key.
    Unauthorized,
    /// The caller went away before the upstream API had answered.
    Cancelled,
}

/// The request-level error that a scheduling error becomes.
pub open spec fn lifted(e: SchedulingError) -> ProxyError {
    match e {
        SchedulingError::NoEligibleAccount => ProxyError::NoEligibleAccount,
        SchedulingError::QuotaExhausted => ProxyError::QuotaExhausted,
        SchedulingError::TokenRefreshFailed => ProxyError::TokenRefreshFailed,
    }
}

/// The HTTP status that the caller gets for an error.
pub open spec fn status_of(e: ProxyError) -> u16 {
    match e {
        ProxyError::NoEligibleAccount => 503,
        ProxyError::QuotaExhausted => 429,
        ProxyError::TokenRefreshFailed => 502,
        ProxyError::UpstreamUnavailable => 504,
        ProxyError::UpstreamRejected => 502,
        ProxyError::ConfigDisabled => 503,
        ProxyError::Unauthorized => 401,
        ProxyError::Cancelled => 499,
    }
}

impl SchedulingError {
    /// The request-level error for this one.
    pub fn lift(self) -> (e: ProxyError)
        ensures
            e == lifted(self),
    {
        match self {
            SchedulingError::NoEligibleAccount => ProxyError::NoEligibleAccount,
            SchedulingError::QuotaExhausted => ProxyError::QuotaExhausted,
            SchedulingError::TokenRefreshFailed => ProxyError::TokenRefreshFailed,
        }
    }
}

impl ProxyError {
    /// The HTTP status that the caller gets for this error. An upstream
    /// error status is handed on as it came; this is the status for the
    /// case that none came.
    pub fn status(self) -> (code: u16)
        ensures
            code == status_of(self),
            code >= 400,
    {
        match self {
            ProxyError::NoEligibleAccount => 503,
            ProxyError::QuotaExhausted => 429,
            ProxyError::TokenRefreshFailed => 502,
            ProxyError::UpstreamUnavailable => 504,
            ProxyError::UpstreamRejected => 502,
            ProxyError::ConfigDisabled => 503,
            ProxyError::Unauthorized => 401,
            ProxyError::Cancelled => 499,
        }
    }

    /// A short name of the error, as it is written to the request log.
    pub fn name(self) -> (s: &'static str)
        ensures
            s@ == error_name(self),
    {
        match self {
            ProxyError::NoEligibleAccount => "no eligible account",
            ProxyError::QuotaExhausted => "quota exhausted",
            ProxyError::TokenRefreshFailed => "token refresh failed",
            ProxyError::UpstreamUnavailable => "upstream unavailable",
            ProxyError::UpstreamRejected => "upstream rejected the request",
            ProxyError::ConfigDisabled => "proxy disabled",
            ProxyError::Unauthorized => "invalid api key",
            ProxyError::Cancelled => "cancelled by the caller",
        }
    }
}

/// The text by which an error is named in the request log.
pub open spec fn error_name(e: ProxyError) -> Seq<char> {
    match e {
        ProxyError::NoEligibleAccount => "no eligible account"@,
        ProxyError::QuotaExhausted => "quota exhausted"@,
        ProxyError::TokenRefreshFailed => "token refresh failed"@,
        ProxyError::UpstreamUnavailable => "upstream unavailable"@,
        ProxyError::UpstreamRejected => "upstream rejected the request"@,
        ProxyError::ConfigDisabled => "proxy disabled"@,
        ProxyError::Unauthorized => "invalid api key"@,
        ProxyError::Cancelled => "cancelled by the caller"@,
    }
}

} // verus!
