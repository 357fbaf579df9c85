//! Error kinds of the library.

use vstd::prelude::*;

verus! {

/// std's `io::Error`, carried opaquely inside the error values below:
/// nothing is assumed of what it holds.
#[verifier::external_type_specification]
#[verifier::external_body]
pub struct ExIoError(std::io::Error);

/// DNS resolution error.
#[derive(Debug)]
pub enum DnsError {
    /// The system DNS resolver returned an error.
    Resolve(std::io::Error),
    /// No addresses matched the requested IP version preference.
    AddrNotFound,
}

/// STUN protocol error.
#[derive(Debug)]
pub enum StunError {
    /// The STUN response could not be parsed (missing or invalid attributes).
    Malformed,
    /// The STUN response body exceeded the maximum allowed size.
    ResponseTooLarge,
    /// Network I/O error during the STUN exchange.
    Network(std::io::Error),
    /// The STUN response transaction ID did not match the request.
    TransactionIdMismatch,
}

/// Top-level error returned by mapping sessions.
///
/// Each variant is a distinct failure that callers can match on to decide
/// whether to retry or abort.
#[derive(Debug)]
pub enum Error {
    /// The STUN response could not be parsed.
    StunMalformed,
    /// The STUN response body exceeded the maximum allowed size.
    StunResponseTooLarge,
    /// Network I/O error during STUN operations.
    StunNetwork(std::io::Error),
    /// The STUN response transaction ID did not match the request.
    StunTransactionIdMismatch,
    /// The system DNS resolver returned an error.
    DnsResolve(std::io::Error),
    /// No addresses matched the requested IP version preference.
    AddrNotFound,
    /// Socket creation, option setting or binding failed.
    Socket(std::io::Error),
    /// Connecting to a remote endpoint failed.
    Connection(std::io::Error),
    /// Keepalive I/O failed (the connection is likely broken).
    Keepalive(std::io::Error),
}

/// The top-level error that a STUN error becomes.
pub open spec fn stun_error_kind(e: StunError) -> Error {
    match e {
        StunError::Malformed => Error::StunMalformed,
        StunError::ResponseTooLarge => Error::StunResponseTooLarge,
        StunError::Network(io) => Error::StunNetwork(io),
        StunError::TransactionIdMismatch => Error::StunTransactionIdMismatch,
    }
}

/// The top-level error that a DNS error becomes.
pub open spec fn dns_error_kind(e: DnsError) -> Error {
    match e {
        DnsError::Resolve(io) => Error::DnsResolve(io),
        DnsError::AddrNotFound => Error::AddrNotFound,
    }
}

impl From<StunError> for Error {
    fn from(e: StunError) -> (r: Error)
        ensures
            r == stun_error_kind(e),
    {
        match e {
            StunError::Malformed => Error::StunMalformed,
            StunError::ResponseTooLarge => Error::StunResponseTooLarge,
            StunError::Network(io) => Error::StunNetwork(io),
            StunError::TransactionIdMismatch => Error::StunTransactionIdMismatch,
        }
    }
}

impl vstd::std_specs::convert::FromSpecImpl<StunError> for Error {
    open spec fn obeys_from_spec() -> bool {
        true
    }

    open spec fn from_spec(e: StunError) -> Error {
        stun_error_kind(e)
    }
}

impl From<DnsError> for Error {
    fn from(e: DnsError) -> (r: Error)
        ensures
            r == dns_error_kind(e),
    {
        match e {
            DnsError::Resolve(io) => Error::DnsResolve(io),
            DnsError::AddrNotFound => Error::AddrNotFound,
        }
    }
}

impl vstd::std_specs::convert::FromSpecImpl<DnsError> for Error {
    open spec fn obeys_from_spec() -> bool {
        true
    }

    open spec fn from_spec(e: DnsError) -> Error {
        dns_error_kind(e)
    }
}

impl Error {
    /// Whether retrying the failed operation may succeed: every kind but a
    /// socket construction failure.
    pub open spec fn spec_is_recoverable(&self) -> bool {
        !(self is Socket)
    }

    #[verifier::when_used_as_spec(spec_is_recoverable)]
    pub fn is_recoverable(&self) -> (r: bool)
        ensures
            r == self.spec_is_recoverable(),
    {
        !matches!(self, Error::Socket(_))
    }
}

} // verus!
