//! What can go wrong in a run.

use vstd::prelude::*;

verus! {

/// A header whose value the configuration sets.
#[derive(Debug, Clone, Copy, PartialEq, Eq, Structural)]
pub enum Header {
    /// `User-Agent`.
    UserAgent,
    /// `Cookie`.
    Cookie,
}

/// A rejected configuration. Configuration errors are found before any
/// request is made.
#[derive(Debug, PartialEq, Eq)]
pub enum ConfigError {
    /// An entry of the status-code list is not an unsigned 16-bit number.
    /// `position` counts the entries from zero; `entry` is its text.
    InvalidStatusCode { position: usize, entry: String },
    /// The value given for a header cannot be sent as a header value.
    InvalidHeader { header: Header },
    /// The concurrency limit is zero.
    ZeroConcurrency,
}

/// A `ConfigError` as a mathematical value.
pub enum ConfigErrorView {
    InvalidStatusCode { position: int, entry: Seq<char> },
    InvalidHeader { header: Header },
    ZeroConcurrency,
}

impl View for ConfigError {
    type V = ConfigErrorView;

    open spec fn view(&self) -> ConfigErrorView {
        match self {
            ConfigError::InvalidStatusCode { position, entry } => {
                ConfigErrorView::InvalidStatusCode { position: *position as int, entry: entry@ }
            },
            ConfigError::InvalidHeader { header } => ConfigErrorView::InvalidHeader {
                header: *header,
            },
            ConfigError::ZeroConcurrency => ConfigErrorView::ZeroConcurrency,
        }
    }
}

impl Clone for ConfigError {
    fn clone(&self) -> (copy: ConfigError)
        ensures
            copy == *self,
    {
        match self {
            ConfigError::InvalidStatusCode { position, entry } => {
                ConfigError::InvalidStatusCode { position: *position, entry: entry.clone() }
            },
            ConfigError::InvalidHeader { header } => ConfigError::InvalidHeader { header: *header },
            ConfigError::ZeroConcurrency => ConfigError::ZeroConcurrency,
        }
    }
}

/// Why a request brought no response.
#[derive(Debug, Clone, Copy, PartialEq, Eq, Structural)]
pub enum TransportFailure {
    /// The request ran out of time.
    Timeout,
    /// No connection could be made, or it was lost.
    Connection,
    /// The request was redirected more often than the policy allows.
    TooManyRedirects,
    /// Anything else that kept the response from arriving.
    Other,
}

/// Why a run ended before its time. Every such error is fatal: it is found
/// before the first candidate is probed, and no candidate is probed after it.
#[derive(Debug, PartialEq, Eq)]
pub enum RunError {
    /// The configuration was rejected.
    Config(ConfigError),
    /// The baseline request brought no response, so nothing is known about
    /// how the target answers a path that does not exist.
    BaselineNetwork { failure: TransportFailure },
    /// The target answered a path that does not exist with an accepted
    /// status, and the run was not told to go on regardless.
    WildcardDetected { url: String, status: u16 },
}

/// A `RunError` as a mathematical value.
pub enum RunErrorView {
    Config(ConfigErrorView),
    BaselineNetwork { failure: TransportFailure },
    WildcardDetected { url: Seq<char>, status: u16 },
}

impl View for RunError {
    type V = RunErrorView;

    open spec fn view(&self) -> RunErrorView {
        match self {
            RunError::Config(error) => RunErrorView::Config(error@),
            RunError::BaselineNetwork { failure } => RunErrorView::BaselineNetwork {
                failure: *failure,
            },
            RunError::WildcardDetected { url, status } => RunErrorView::WildcardDetected {
                url: url@,
                status: *status,
            },
        }
    }
}

impl Clone for RunError {
    fn clone(&self) -> (copy: RunError)
        ensures
            copy == *self,
    {
        match self {
            RunError::Config(error) => RunError::Config(error.clone()),
            RunError::BaselineNetwork { failure } => RunError::BaselineNetwork {
                failure: *failure,
            },
            RunError::WildcardDetected { url, status } => RunError::WildcardDetected {
                url: url.clone(),
                status: *status,
            },
        }
    }
}

/// The exit code of a process whose run ended as `ended`: zero after a run
/// that came to its end, one after a fatal error. Probes that failed on the
/// way do not count.
pub fn exit_code_of(ended: &Result<(), RunError>) -> (code: u8)
    ensures
        code == (if ended is Ok {
            0u8
        } else {
            1u8
        }),
{
    match ended {
        Ok(_) => 0,
        Err(_) => 1,
    }
}

} // verus!
