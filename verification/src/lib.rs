//! Verified core of a small peer-to-peer communication library.
//!
//! The library moves raw bytes between peers (transport layer), frames
//! typed messages on top of those bytes (messenger layer) and correlates
//! requests with responses (RPC layer). This crate holds the parts of those
//! layers that decide and compute: frame encoding and decoding, message
//! contexts, the message registry, per-connection reassembly of frames,
//! connection bookkeeping of the transports, the stream handling of QUIC
//! connections, TLS configuration from PEM text, configuration lookup and
//! the pending-request table of the RPC layer.
use vstd::prelude::*;

pub mod bytes;
pub mod connection;
pub mod context;
pub mod error;
pub mod frame;
pub mod messenger;
pub mod quic;
pub mod registry;
pub mod rpc;
pub mod settings;
pub mod tls;
pub mod transport;

pub use error::{Error, RequestError};
