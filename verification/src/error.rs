//! Error types of the library.
use vstd::prelude::*;

verus! {

/// The operating system's I/O error, carried through unchanged.
#[verifier::external_type_specification]
#[verifier::external_body]
pub struct ExIoError(std::io::Error);

/// The configuration crate's error, carried through unchanged.
#[verifier::external_type_specification]
#[verifier::external_body]
pub struct ExConfigError(config::ConfigError);

/// The error type for the library's operations.
///
/// This encompasses all errors that can occur when using the library,
/// including network operations, message framing and TLS setup.
#[derive(Debug)]
pub enum Error {
    /// Low-level I/O error from the operating system.
    Io(std::io::Error),
    /// The provided socket address could not be parsed or resolved.
    InvalidAddress,
    /// Attempted to operate on a connection ID that doesn't exist.
    ConnectionNotFound {
        /// The connection ID that was not found.
        id: usize,
    },
    /// Attempted to operate on a listener ID that doesn't exist.
    ListenerNotFound {
        /// The listener ID that was not found.
        id: usize,
    },
    /// Internal polling mechanism encountered an error.
    PollError(String),
    /// Message header doesn't start with the expected magic bytes.
    InvalidMagicBytes,
    /// Message protocol version is incompatible with this library version.
    VersionMismatch {
        expected_major: u8,
        expected_minor: u8,
        received_major: u8,
        received_minor: u8,
    },
    /// Message data is corrupted or doesn't match the expected format.
    MalformedData(String),
    /// Received a message with an ID that hasn't been registered.
    UnknownMessageId(String),
    /// Failed to load TLS certificate file from disk.
    TlsCertificateLoad { path: String, source: std::io::Error },
    /// Failed to load TLS private key file from disk.
    TlsKeyLoad { path: String, source: std::io::Error },
    /// Certificate file format is invalid or unsupported.
    TlsInvalidCertificate(String),
    /// Private key file format is invalid or unsupported.
    TlsInvalidKey(String),
    /// Server name for TLS SNI is invalid.
    TlsInvalidServerName(String),
    /// TLS handshake failed during connection establishment.
    TlsHandshake(String),
    /// Attempted to listen with TLS but server configuration is missing.
    TlsServerConfigMissing,
    /// Attempted to connect with TLS but client configuration is missing.
    TlsClientConfigMissing,
    /// Failed to build TLS server configuration from provided settings.
    TlsServerConfigBuild(String),
    /// Failed to build TLS client configuration from provided settings.
    TlsClientConfigBuild(String),
    /// Configuration file parsing or key lookup failed.
    Config(config::ConfigError),
    /// Invalid value for the `transport_type` configuration key.
    InvalidTransportType { got: String, valid: Vec<String> },
}

/// Errors that can occur while awaiting the response to a request.
#[derive(Debug)]
pub enum RequestError {
    /// The connection was closed before receiving a response.
    ConnectionClosed,
    /// Received a response of the wrong type.
    WrongResponseType {
        /// The expected response type name.
        expected: &'static str,
    },
    /// The event loop was dropped unexpectedly.
    EventLoopTerminated,
}

} // verus!
