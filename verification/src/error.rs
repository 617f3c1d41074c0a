//! The error taxonomy of the protocol core.
//!
//! Load and configuration failures are fatal at startup; framing failures are
//! contained to the one connection they occur on.  Socket and handshake
//! failures arise only in the I/O layer around this library and keep their
//! own types there.

use vstd::prelude::*;

verus! {

/// A request buffer could not be framed as a request.
#[derive(Clone, Copy, Debug, PartialEq, Eq, Structural)]
pub enum ParseError {
    /// The buffer held no lines at all.
    MalformedRequest,
    /// The request line held fewer than two whitespace-separated tokens.
    MalformedRequestLine,
}

/// Identity material could not be loaded from a PEM container.
#[derive(Clone, Copy, Debug, PartialEq, Eq, Structural)]
pub enum LoadError {
    /// The container was not decodable PEM.
    InvalidPem,
    /// The container held no object of the requested kind.
    Missing,
    /// The container held more than one object of the requested kind;
    /// an ambiguous identity is a configuration error, never resolved by
    /// picking the first.
    Ambiguous,
}

/// A trust context could not be built from the loaded identity material,
/// for instance because the key does not correspond to the certificate.
#[derive(Clone, Copy, Debug, PartialEq, Eq, Structural)]
pub enum ConfigError {
    /// The TLS backend rejected the identity material.
    Rejected,
}

/// A startup failure: either the identity material could not be loaded, or
/// the trust context could not be built from it.  Both are fatal before any
/// connection is accepted.
#[derive(Clone, Copy, Debug, PartialEq, Eq, Structural)]
pub enum SetupError {
    /// Loading the identity material failed.
    Load(LoadError),
    /// Building the trust context failed.
    Config(ConfigError),
}

} // verus!
