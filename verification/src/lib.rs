//! A minimal mutually-authenticated, TLS-secured request/response protocol
//! ("MVRP") with a custom method set and a line-delimited wire format.
//!
//! The crate holds the protocol logic: request framing and parsing, response
//! serialization, method dispatch, identity loading and trust-context
//! construction.  Socket handling and the TLS handshake itself live with the
//! caller; the library works on plain values.

pub mod dispatch;
pub mod error;
pub mod framing;
pub mod headers;
pub mod identity;
pub mod text;
pub mod trust;
