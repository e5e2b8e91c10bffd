//! Error types of the protocol layer and of the server built on it.

use vstd::prelude::*;

use crate::packet::MessageType;

verus! {

/// `std::io::Error`, carried through the library without being looked into.
#[verifier::external_type_specification]
#[verifier::external_body]
pub struct ExIoError(std::io::Error);

/// The kinds of I/O errors that the library reports by itself.
#[derive(Clone, Copy, Debug, PartialEq, Eq, Structural)]
pub enum IoErrorKind {
    /// A peer has sent less than was expected of it.
    UnexpectedEof,
    /// A stream has taken nothing of what was written to it.
    WriteZero,
}

/// The error that `std::io::Error::new` makes of a kind and a message.
pub uninterp spec fn io_error(kind: IoErrorKind, message: Seq<char>) -> std::io::Error;

/// `std::io::Error::new`: the error with the kind and the message. What the error holds is named,
/// not stated.
#[verifier::external_body]
pub(crate) fn new_io_error(kind: IoErrorKind, message: &str) -> (r: std::io::Error)
    ensures
        r == io_error(kind, message@),
{
    let kind = match kind {
        IoErrorKind::UnexpectedEof => std::io::ErrorKind::UnexpectedEof,
        IoErrorKind::WriteZero => std::io::ErrorKind::WriteZero,
    };
    std::io::Error::new(kind, message)
}

/// A failure reported by a cryptographic provider.
#[derive(Clone, Copy, Debug, PartialEq, Eq, Structural)]
pub enum CryptoError {
    /// The provider has no implementation of the requested algorithm.
    UnknownAlgorithm,
    /// A key was malformed or otherwise not acceptable.
    KeyRejected,
    /// A cryptographic operation failed, such as the authentication of a packet.
    Failed,
}

/// An error in the SSH protocol layer.
#[derive(Debug)]
pub enum ProtoError {
    /// A cryptographic operation failed.
    Crypto(CryptoError),
    /// The peer's identification string was malformed.
    Identification(IdentificationError),
    /// An I/O error occurred.
    Io(std::io::Error),
    /// The input was too short to decode a complete message.
    ///
    /// The payload, if known, is the number of additional bytes needed beyond the end of the
    /// current input (`required - available`).
    Incomplete(Option<usize>),
    /// An unknown or unsupported channel type was requested.
    InvalidChannelType(String),
    /// A host key file could not be used; the payload describes why.
    InvalidHostKey(&'static str),
    /// A packet violated the protocol; the payload describes how.
    InvalidPacket(&'static str),
    /// No host keys were found or specified.
    NoHostKeys,
    /// Algorithm negotiation failed for the named algorithm category.
    NoCommonAlgorithm(&'static str),
    /// Too many host keys were specified.
    TooManyHostKeys,
    /// Received message type was not expected in the current state.
    UnexpectedMessage(MessageType, &'static [MessageType]),
    /// An internal invariant was violated (this is a bug).
    Unreachable(&'static str),
    /// The requested service was not available in the current state.
    ServiceNotAvailable(&'static str),
}

/// An error parsing the peer's identification string.
#[derive(Debug, PartialEq)]
pub enum IdentificationError {
    /// The identification string contained invalid UTF-8.
    InvalidUtf8,
    /// The identification string did not start with `SSH-`.
    NoSsh,
    /// No protocol version was found after the `SSH-` prefix.
    NoVersion,
    /// The identification string exceeded the 255-byte maximum length.
    TooLong,
    /// The peer requested a protocol version other than `2.0`.
    UnsupportedVersion(String),
}

/// Errors that can occur during authentication.
#[derive(Clone, Copy, Debug, PartialEq, Eq, Structural)]
pub enum AuthError {
    /// The client canceled the authentication process.
    Canceled,
    /// Too many authentication attempts for a single connection.
    TooManyAttempts,
}

/// Error type for SSH connections.
#[derive(Debug)]
pub enum Error {
    /// Authentication errors.
    Auth(AuthError),
    /// Invalid state encountered during an SSH session.
    InvalidState(&'static str),
    /// Invalid username provided during authentication.
    InvalidUsername,
    /// I/O errors.
    Io(std::io::Error),
    /// Protocol errors.
    Proto(ProtoError),
}

impl From<CryptoError> for ProtoError {
    fn from(error: CryptoError) -> (r: Self) {
        ProtoError::Crypto(error)
    }
}

impl vstd::std_specs::convert::FromSpecImpl<CryptoError> for ProtoError {
    open spec fn obeys_from_spec() -> bool {
        true
    }

    open spec fn from_spec(error: CryptoError) -> Self {
        ProtoError::Crypto(error)
    }
}

impl From<IdentificationError> for ProtoError {
    fn from(error: IdentificationError) -> (r: Self) {
        ProtoError::Identification(error)
    }
}

impl vstd::std_specs::convert::FromSpecImpl<IdentificationError> for ProtoError {
    open spec fn obeys_from_spec() -> bool {
        true
    }

    open spec fn from_spec(error: IdentificationError) -> Self {
        ProtoError::Identification(error)
    }
}

impl From<AuthError> for Error {
    fn from(error: AuthError) -> (r: Self) {
        Error::Auth(error)
    }
}

impl vstd::std_specs::convert::FromSpecImpl<AuthError> for Error {
    open spec fn obeys_from_spec() -> bool {
        true
    }

    open spec fn from_spec(error: AuthError) -> Self {
        Error::Auth(error)
    }
}

impl From<std::io::Error> for Error {
    fn from(error: std::io::Error) -> (r: Self) {
        Error::Io(error)
    }
}

impl vstd::std_specs::convert::FromSpecImpl<std::io::Error> for Error {
    open spec fn obeys_from_spec() -> bool {
        true
    }

    open spec fn from_spec(error: std::io::Error) -> Self {
        Error::Io(error)
    }
}

impl From<ProtoError> for Error {
    fn from(error: ProtoError) -> (r: Self) {
        Error::Proto(error)
    }
}

impl vstd::std_specs::convert::FromSpecImpl<ProtoError> for Error {
    open spec fn obeys_from_spec() -> bool {
        true
    }

    open spec fn from_spec(error: ProtoError) -> Self {
        Error::Proto(error)
    }
}

impl From<CryptoError> for Error {
    fn from(error: CryptoError) -> (r: Self) {
        Error::Proto(ProtoError::Crypto(error))
    }
}

impl vstd::std_specs::convert::FromSpecImpl<CryptoError> for Error {
    open spec fn obeys_from_spec() -> bool {
        true
    }

    open spec fn from_spec(error: CryptoError) -> Self {
        Error::Proto(ProtoError::Crypto(error))
    }
}

} // verus!
