//! Errors surfaced by the event handler.

use vstd::prelude::*;

verus! {

/// Everything that can go wrong in the event handler's own logic.
#[derive(Clone, Copy, Debug, PartialEq, Eq, Structural)]
pub enum Error {
    /// The connection cap or the numeric handle cap was hit.
    MaxHandlesExceeded,
    /// A callback was missing or a listener set did not match the workers.
    EventHandlerConfigurationError,
    /// The TLS configuration could not be built or a record was invalid.
    TLSError,
    /// An event arrived for a handle no longer in the registry.
    HandleNotFoundError,
    /// The connection was already closed.
    ConnectionClosedError,
    /// The operating system reported a write or read failure.
    IOError,
    /// The BSD selector returned an event of an unexpected kind.
    KqueueError,
    /// A wait duration could not be represented.
    TimespecError,
    /// An internal invariant was violated.
    InternalError,
    /// A record of the wrong variant was handed to a dispatch site.
    InvalidType,
    /// A listener record stood where a read-write record was required.
    WrongConnectionType,
    /// Building a trust store failed.
    SetupError,
}

impl Error {
    /// A short description, in place of a `Display` implementation.
    pub fn as_str(&self) -> (r: &'static str) {
        match self {
            Error::MaxHandlesExceeded => "maximum number of handles exceeded",
            Error::EventHandlerConfigurationError => "event handler configuration error",
            Error::TLSError => "tls error",
            Error::HandleNotFoundError => "handle not found",
            Error::ConnectionClosedError => "connection closed",
            Error::IOError => "i/o error",
            Error::KqueueError => "kqueue error",
            Error::TimespecError => "timespec error",
            Error::InternalError => "internal error",
            Error::InvalidType => "invalid type",
            Error::WrongConnectionType => "wrong connection type",
            Error::SetupError => "setup error",
        }
    }
}

} // verus!
