//! The closed error taxonomy of the sentinel, and its mapping onto HTTP
//! status codes.

use vstd::prelude::*;
use vstd::string::StringExecFns;

verus! {

/// Everything that can go wrong while serving a request, driving a
/// container, or touching the session store.  Each variant carries a
/// human-readable detail string.
#[derive(Debug)]
pub enum SentinelError {
    /// Unknown function or container.
    NotFound(String),
    /// Bad request, or an unknown route in the system API.
    InvalidInput(String),
    /// Container is in a state (dead, being removed, unknown) that the
    /// wake path cannot drive back to running.
    Unrecoverable(String),
    /// Container failed to reach the running state within the startup
    /// budget.
    StartupTimeout(String),
    /// The function did not pass its health endpoint within the probe
    /// budget.
    HealthcheckTimeout(String),
    /// Container daemon transport or protocol error.
    DaemonError(String),
    /// Persistence failure in the session store.
    StoreError(String),
    /// Upstream I/O failure after a successful wake.
    ProxyError(String),
    /// Startup-only configuration failure.
    ConfigError(String),
}

impl SentinelError {
    /// The HTTP status code that a control endpoint answers with for this
    /// error.
    pub fn http_status(&self) -> (code: u16)
        ensures
            code == match self {
                SentinelError::NotFound(_) => 404u16,
                SentinelError::InvalidInput(_) => 400u16,
                SentinelError::Unrecoverable(_) => 410u16,
                SentinelError::StartupTimeout(_) => 504u16,
                SentinelError::HealthcheckTimeout(_) => 503u16,
                SentinelError::DaemonError(_) => 500u16,
                SentinelError::StoreError(_) => 500u16,
                SentinelError::ProxyError(_) => 502u16,
                SentinelError::ConfigError(_) => 500u16,
            },
    {
        match self {
            SentinelError::NotFound(_) => 404,
            SentinelError::InvalidInput(_) => 400,
            SentinelError::Unrecoverable(_) => 410,
            SentinelError::StartupTimeout(_) => 504,
            SentinelError::HealthcheckTimeout(_) => 503,
            SentinelError::DaemonError(_) => 500,
            SentinelError::StoreError(_) => 500,
            SentinelError::ProxyError(_) => 502,
            SentinelError::ConfigError(_) => 500,
        }
    }

    /// The HTTP status code the request gateway answers with when the wake
    /// step fails: a health-probe timeout is surfaced as service
    /// unavailable, everything else as an internal error.
    pub fn wake_status(&self) -> (code: u16)
        ensures
            code == 503u16 <==> self is HealthcheckTimeout,
            code == 503u16 || code == 500u16,
    {
        match self {
            SentinelError::HealthcheckTimeout(_) => 503,
            _ => 500,
        }
    }

    /// The HTTP status code the explicit start endpoint answers with
    /// when ensuring a function fails: an unknown function is the
    /// caller's mistake, everything else an internal error.
    pub fn start_status(&self) -> (code: u16)
        ensures
            code == 400u16 <==> (self is NotFound || self is InvalidInput),
            code == 400u16 || code == 500u16,
    {
        match self {
            SentinelError::NotFound(_) => 400,
            SentinelError::InvalidInput(_) => 400,
            _ => 500,
        }
    }

    /// The detail string carried by the variant.
    pub fn detail(&self) -> (s: &String)
        ensures
            s@ == self.spec_detail(),
    {
        match self {
            SentinelError::NotFound(m) => m,
            SentinelError::InvalidInput(m) => m,
            SentinelError::Unrecoverable(m) => m,
            SentinelError::StartupTimeout(m) => m,
            SentinelError::HealthcheckTimeout(m) => m,
            SentinelError::DaemonError(m) => m,
            SentinelError::StoreError(m) => m,
            SentinelError::ProxyError(m) => m,
            SentinelError::ConfigError(m) => m,
        }
    }

    /// The detail string at the specification level.
    pub open spec fn spec_detail(&self) -> Seq<char> {
        match self {
            SentinelError::NotFound(m) => m@,
            SentinelError::InvalidInput(m) => m@,
            SentinelError::Unrecoverable(m) => m@,
            SentinelError::StartupTimeout(m) => m@,
            SentinelError::HealthcheckTimeout(m) => m@,
            SentinelError::DaemonError(m) => m@,
            SentinelError::StoreError(m) => m@,
            SentinelError::ProxyError(m) => m@,
            SentinelError::ConfigError(m) => m@,
        }
    }

    /// A log- and response-friendly rendering: the category name, a colon,
    /// and the detail.
    pub fn message(&self) -> (s: String)
        ensures
            s@ == self.spec_category() + ": "@ + self.spec_detail(),
    {
        let mut out = String::new();
        out.append(self.category());
        out.append(": ");
        out.append(self.detail().as_str());
        out
    }

    /// The category name rendered into messages and logs.
    pub fn category(&self) -> (s: &'static str)
        ensures
            s@ == self.spec_category(),
    {
        match self {
            SentinelError::NotFound(_) => "not found",
            SentinelError::InvalidInput(_) => "invalid input",
            SentinelError::Unrecoverable(_) => "unrecoverable container state",
            SentinelError::StartupTimeout(_) => "container startup timeout",
            SentinelError::HealthcheckTimeout(_) => "healthcheck timeout",
            SentinelError::DaemonError(_) => "container daemon error",
            SentinelError::StoreError(_) => "session store error",
            SentinelError::ProxyError(_) => "proxy error",
            SentinelError::ConfigError(_) => "configuration error",
        }
    }

    /// The category name at the specification level.
    pub open spec fn spec_category(&self) -> Seq<char> {
        match self {
            SentinelError::NotFound(_) => "not found"@,
            SentinelError::InvalidInput(_) => "invalid input"@,
            SentinelError::Unrecoverable(_) => "unrecoverable container state"@,
            SentinelError::StartupTimeout(_) => "container startup timeout"@,
            SentinelError::HealthcheckTimeout(_) => "healthcheck timeout"@,
            SentinelError::DaemonError(_) => "container daemon error"@,
            SentinelError::StoreError(_) => "session store error"@,
            SentinelError::ProxyError(_) => "proxy error"@,
            SentinelError::ConfigError(_) => "configuration error"@,
        }
    }
}

} // verus!
