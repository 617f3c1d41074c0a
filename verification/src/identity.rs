//! The identity loader: decodes PEM containers into DER-encoded
//! certificates and private keys, and enforces the exactly-one cardinality
//! that identity material must have.  Reading the container bytes from
//! storage is the caller's part.

use vstd::prelude::*;

use crate::error::LoadError;

verus! {

/// What rustls_pemfile::certs decodes from a PEM container: the DER bytes
/// of every certificate block, in order, or nothing for a malformed
/// container.  The result depends on the container bytes alone.
pub uninterp spec fn pem_certificates(data: Seq<u8>) -> Option<Seq<Seq<u8>>>;

/// What rustls_pemfile::pkcs8_private_keys decodes from a PEM container:
/// the DER bytes of every PKCS#8 private-key block, in order, or nothing
/// for a malformed container.  The result depends on the container bytes
/// alone.
pub uninterp spec fn pem_pkcs8_keys(data: Seq<u8>) -> Option<Seq<Seq<u8>>>;

#[verifier::external_type_specification]
#[verifier::external_body]
pub struct ExIoError(std::io::Error);

/// The outcome that the exactly-one rule dictates for a decoded container:
/// the single object, or the load error naming what went wrong.
pub open spec fn single_outcome(v: Option<Seq<Seq<u8>>>) -> Result<Seq<u8>, LoadError> {
    match v {
        None => Err(LoadError::InvalidPem),
        Some(s) => if s.len() == 0 {
            Err(LoadError::Missing)
        } else if s.len() > 1 {
            Err(LoadError::Ambiguous)
        } else {
            Ok(s[0])
        },
    }
}

/// Relies on rustls_pemfile::certs: returns the DER contents of every
/// certificate block of the container, in order, and fails only on a
/// malformed container.
#[verifier::external_body]
fn pem_certs_raw(data: &[u8]) -> (r: Result<Vec<Vec<u8>>, std::io::Error>)
    ensures
        match r {
            Ok(v) => pem_certificates(data@) == Some(v.deep_view()),
            Err(_) => pem_certificates(data@) is None,
        },
{
    rustls_pemfile::certs(&mut &data[..])
}

/// Relies on rustls_pemfile::pkcs8_private_keys: returns the DER contents
/// of every PKCS#8 private-key block of the container, in order, and fails
/// only on a malformed container.
#[verifier::external_body]
fn pem_keys_raw(data: &[u8]) -> (r: Result<Vec<Vec<u8>>, std::io::Error>)
    ensures
        match r {
            Ok(v) => pem_pkcs8_keys(data@) == Some(v.deep_view()),
            Err(_) => pem_pkcs8_keys(data@) is None,
        },
{
    rustls_pemfile::pkcs8_private_keys(&mut &data[..])
}

/// Decodes the single certificate of a PEM container.  A container with no
/// certificate block, or with more than one, fails: an ambiguous identity
/// is a configuration error, never resolved by picking the first.
pub fn load_cert(pem: &[u8]) -> (r: Result<Vec<u8>, LoadError>)
    ensures
        match (r, single_outcome(pem_certificates(pem@))) {
            (Ok(c), Ok(s)) => c@ == s,
            (Err(e), Err(se)) => e == se,
            _ => false,
        },
{
    let mut certs = match pem_certs_raw(pem) {
        Ok(v) => v,
        Err(_) => {
            return Err(LoadError::InvalidPem);
        },
    };
    if certs.len() == 0 {
        Err(LoadError::Missing)
    } else if certs.len() > 1 {
        Err(LoadError::Ambiguous)
    } else {
        Ok(certs.remove(0))
    }
}

/// Decodes the single PKCS#8 private key of a PEM container, with the same
/// exactly-one rule as [`load_cert`].
pub fn load_private_key(pem: &[u8]) -> (r: Result<Vec<u8>, LoadError>)
    ensures
        match (r, single_outcome(pem_pkcs8_keys(pem@))) {
            (Ok(k), Ok(s)) => k@ == s,
            (Err(e), Err(se)) => e == se,
            _ => false,
        },
{
    let mut keys = match pem_keys_raw(pem) {
        Ok(v) => v,
        Err(_) => {
            return Err(LoadError::InvalidPem);
        },
    };
    if keys.len() == 0 {
        Err(LoadError::Missing)
    } else if keys.len() > 1 {
        Err(LoadError::Ambiguous)
    } else {
        Ok(keys.remove(0))
    }
}

} // verus!
