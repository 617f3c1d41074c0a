//! The trust context builder: turns loaded identity material into an
//! immutable TLS configuration.  A server configuration presents its
//! certificate and key to any connecting client; a client configuration
//! presents its own certificate and key and trusts exactly one CA
//! certificate.  The configuration is built once per process and shared
//! read-only across connections.

use vstd::prelude::*;

use crate::error::{ConfigError, LoadError, SetupError};
use crate::identity::{
    load_cert, load_private_key, pem_certificates, pem_pkcs8_keys, single_outcome,
};

verus! {

#[verifier::external_type_specification]
#[verifier::external_body]
pub struct ExServerConfig(rustls::ServerConfig);

#[verifier::external_type_specification]
#[verifier::external_body]
pub struct ExClientConfig(rustls::ClientConfig);

#[verifier::external_type_specification]
#[verifier::external_body]
pub struct ExRustlsError(rustls::Error);

/// Whether rustls accepts the given DER certificate chain and PKCS#8 key
/// as a server identity.  rustls decides this by parsing the key and chain
/// bytes, so the outcome is a function of the bytes alone.
pub uninterp spec fn server_build_accepted(chain: Seq<Seq<u8>>, key: Seq<u8>) -> bool;

/// Whether rustls accepts the given DER certificate, PKCS#8 key and CA
/// certificate as a client identity with that sole trust anchor.  rustls
/// decides this by parsing the three byte strings, so the outcome is a
/// function of the bytes alone.
pub uninterp spec fn client_build_accepted(cert: Seq<u8>, key: Seq<u8>, ca: Seq<u8>) -> bool;

/// Relies on rustls's ServerConfig builder with safe defaults,
/// with_no_client_auth and with_single_cert: the configuration presents the
/// given DER certificate chain and private key on every incoming handshake
/// and does not ask for a client certificate; building fails exactly when
/// rustls rejects the material, which depends on the bytes alone.
#[verifier::external_body]
fn rustls_server_config(cert_chain_der: &Vec<Vec<u8>>, key_der: &Vec<u8>) -> (r: Result<
    rustls::ServerConfig,
    rustls::Error,
>)
    ensures
        r is Ok <==> server_build_accepted(cert_chain_der.deep_view(), key_der@),
{
    let certs: Vec<rustls::Certificate> =
        cert_chain_der.iter().map(|c| rustls::Certificate(c.clone())).collect();
    rustls::ServerConfig::builder()
        .with_safe_defaults()
        .with_no_client_auth()
        .with_single_cert(certs, rustls::PrivateKey(key_der.clone()))
}

/// Relies on rustls's ClientConfig builder with safe defaults,
/// with_root_certificates and with_single_cert, and on
/// RootCertStore::add: the configuration presents the given DER certificate
/// and private key and trusts only the given CA certificate; building fails
/// exactly when rustls rejects the CA as a trust anchor or the
/// certificate/key material, which depends on the bytes alone.
#[verifier::external_body]
#[allow(deprecated)]
fn rustls_client_config(cert_der: &Vec<u8>, key_der: &Vec<u8>, ca_der: &Vec<u8>) -> (r: Result<
    rustls::ClientConfig,
    rustls::Error,
>)
    ensures
        r is Ok <==> client_build_accepted(cert_der@, key_der@, ca_der@),
{
    let mut roots = rustls::RootCertStore::empty();
    roots.add(&rustls::Certificate(ca_der.clone()))?;
    rustls::ClientConfig::builder()
        .with_safe_defaults()
        .with_root_certificates(roots)
        .with_single_cert(
            vec![rustls::Certificate(cert_der.clone())],
            rustls::PrivateKey(key_der.clone()),
        )
}

/// What building the server's trust context yields: the certificate and
/// key containers must each hold exactly one object, and rustls must
/// accept the pair; each failure names its cause.
pub open spec fn server_setup_outcome(key_pem: Seq<u8>, cert_pem: Seq<u8>) -> Result<
    (),
    SetupError,
> {
    match single_outcome(pem_certificates(cert_pem)) {
        Err(e) => Err(SetupError::Load(e)),
        Ok(cert) => match single_outcome(pem_pkcs8_keys(key_pem)) {
            Err(e) => Err(SetupError::Load(e)),
            Ok(key) => if server_build_accepted(seq![cert], key) {
                Ok(())
            } else {
                Err(SetupError::Config(ConfigError::Rejected))
            },
        },
    }
}

/// What building the client's trust context yields: the key, certificate
/// and CA containers must each hold exactly one object, checked in that
/// order, and rustls must accept the material; each failure names its
/// cause.
pub open spec fn client_setup_outcome(key_pem: Seq<u8>, cert_pem: Seq<u8>, ca_pem: Seq<u8>)
    -> Result<(), SetupError> {
    match single_outcome(pem_pkcs8_keys(key_pem)) {
        Err(e) => Err(SetupError::Load(e)),
        Ok(key) => match single_outcome(pem_certificates(cert_pem)) {
            Err(e) => Err(SetupError::Load(e)),
            Ok(cert) => match single_outcome(pem_certificates(ca_pem)) {
                Err(e) => Err(SetupError::Load(e)),
                Ok(ca) => if client_build_accepted(cert, key, ca) {
                    Ok(())
                } else {
                    Err(SetupError::Config(ConfigError::Rejected))
                },
            },
        },
    }
}

/// Builds the server's trust context from its PEM containers: the single
/// certificate, presented as a one-element chain, and the single private
/// key.  Succeeds exactly when both containers hold one object and rustls
/// accepts the pair.
pub fn server_config_from_pem(key_pem: &[u8], cert_pem: &[u8]) -> (r: Result<
    rustls::ServerConfig,
    SetupError,
>)
    ensures
        match (r, server_setup_outcome(key_pem@, cert_pem@)) {
            (Ok(_), Ok(_)) => true,
            (Err(e), Err(se)) => e == se,
            _ => false,
        },
{
    let cert = match load_cert(cert_pem) {
        Ok(c) => c,
        Err(e) => {
            return Err(SetupError::Load(e));
        },
    };
    let key = match load_private_key(key_pem) {
        Ok(k) => k,
        Err(e) => {
            return Err(SetupError::Load(e));
        },
    };
    let ghost cert_der = cert@;
    let mut chain: Vec<Vec<u8>> = Vec::new();
    chain.push(cert);
    proof {
        assert(chain@.len() == 1);
        assert(chain@[0].deep_view() =~= cert_der);
        assert(chain.deep_view() =~= seq![cert_der]);
    }
    match rustls_server_config(&chain, &key) {
        Ok(c) => Ok(c),
        Err(_) => Err(SetupError::Config(ConfigError::Rejected)),
    }
}

/// Builds the client's trust context from its PEM containers: the single
/// private key, the single leaf certificate and the single CA certificate,
/// which becomes the sole trust anchor.  Succeeds exactly when all three
/// containers hold one object and rustls accepts the material.
pub fn client_config_from_pem(key_pem: &[u8], cert_pem: &[u8], ca_pem: &[u8]) -> (r: Result<
    rustls::ClientConfig,
    SetupError,
>)
    ensures
        match (r, client_setup_outcome(key_pem@, cert_pem@, ca_pem@)) {
            (Ok(_), Ok(_)) => true,
            (Err(e), Err(se)) => e == se,
            _ => false,
        },
{
    let key = match load_private_key(key_pem) {
        Ok(k) => k,
        Err(e) => {
            return Err(SetupError::Load(e));
        },
    };
    let cert = match load_cert(cert_pem) {
        Ok(c) => c,
        Err(e) => {
            return Err(SetupError::Load(e));
        },
    };
    let ca = match load_cert(ca_pem) {
        Ok(c) => c,
        Err(e) => {
            return Err(SetupError::Load(e));
        },
    };
    match rustls_client_config(&cert, &key, &ca) {
        Ok(c) => Ok(c),
        Err(_) => Err(SetupError::Config(ConfigError::Rejected)),
    }
}

} // verus!
