//! Tests for identity loading and trust-context construction, against the
//! real PEM decoder and TLS backend: the exactly-one rule on certificates
//! and keys, and that loaded material builds a working configuration.
//!
//! All key and certificate material is generated afresh when the tests run;
//! none of it sits in the source.

use mvrps::error::{LoadError, SetupError};
use mvrps::identity::{load_cert, load_private_key};
use mvrps::trust::{client_config_from_pem, server_config_from_pem};

/// A fresh identity: a self-signed CA, a localhost leaf certificate signed
/// by it, and the leaf's PKCS#8 private key, each as PEM text.
fn test_identity() -> (String, String, String) {
    let mut ca_params = rcgen::CertificateParams::new(Vec::<String>::new());
    ca_params.is_ca = rcgen::IsCa::Ca(rcgen::BasicConstraints::Unconstrained);
    let ca = rcgen::Certificate::from_params(ca_params).expect("generate CA");
    let ca_pem = ca.serialize_pem().expect("serialize CA");

    let leaf_params = rcgen::CertificateParams::new(vec!["localhost".to_string()]);
    let leaf = rcgen::Certificate::from_params(leaf_params).expect("generate leaf");
    let cert_pem = leaf.serialize_pem_with_signer(&ca).expect("serialize leaf");
    let key_pem = leaf.serialize_private_key_pem();

    (key_pem, cert_pem, ca_pem)
}

#[test]
fn one_certificate_loads() {
    let (_, cert_pem, _) = test_identity();
    let der = load_cert(cert_pem.as_bytes()).unwrap();
    // Real DER came back, not the PEM text: shorter, and opening with the
    // ASN.1 sequence tag.
    assert!(!der.is_empty());
    assert!(der.len() < cert_pem.len());
    assert_eq!(der[0], 0x30);
}

#[test]
fn zero_certificates_fail_to_load() {
    let (key_pem, _, _) = test_identity();
    assert_eq!(load_cert(b""), Err(LoadError::Missing));
    assert_eq!(load_cert(key_pem.as_bytes()), Err(LoadError::Missing));
}

#[test]
fn two_certificates_fail_to_load() {
    let (_, cert_pem, ca_pem) = test_identity();
    let two = format!("{}{}", cert_pem, ca_pem);
    assert_eq!(load_cert(two.as_bytes()), Err(LoadError::Ambiguous));
}

#[test]
fn one_private_key_loads() {
    let (key_pem, _, _) = test_identity();
    let der = load_private_key(key_pem.as_bytes()).unwrap();
    assert!(!der.is_empty());
    assert!(der.len() < key_pem.len());
    assert_eq!(der[0], 0x30);
}

#[test]
fn no_private_key_in_certificate_container() {
    let (_, cert_pem, _) = test_identity();
    assert_eq!(load_private_key(cert_pem.as_bytes()), Err(LoadError::Missing));
}

#[test]
fn two_private_keys_fail_to_load() {
    let (key_pem, _, _) = test_identity();
    let two = format!("{}{}", key_pem, key_pem);
    assert_eq!(load_private_key(two.as_bytes()), Err(LoadError::Ambiguous));
}

#[test]
fn malformed_container_fails_to_load() {
    let garbage = "-----BEGIN CERTIFICATE-----\nnot!base64@@data\n-----END CERTIFICATE-----\n";
    assert_eq!(load_cert(garbage.as_bytes()), Err(LoadError::InvalidPem));
}

#[test]
fn loaded_identity_builds_server_context() {
    let (key_pem, cert_pem, _) = test_identity();
    let config = server_config_from_pem(key_pem.as_bytes(), cert_pem.as_bytes());
    assert!(config.is_ok());
}

#[test]
fn loaded_identity_builds_client_context() {
    let (key_pem, cert_pem, ca_pem) = test_identity();
    let config =
        client_config_from_pem(key_pem.as_bytes(), cert_pem.as_bytes(), ca_pem.as_bytes());
    assert!(config.is_ok());
}

#[test]
fn ambiguous_certificate_fails_server_context() {
    // The exactly-one rule holds for the server's certificate container
    // too: two certificates are an ambiguous identity.
    let (key_pem, cert_pem, ca_pem) = test_identity();
    let two = format!("{}{}", cert_pem, ca_pem);
    let r = server_config_from_pem(key_pem.as_bytes(), two.as_bytes());
    assert_eq!(r.err().map(|e| format!("{:?}", e)), Some("Load(Ambiguous)".to_string()));
}

#[test]
fn empty_certificate_container_fails_server_context() {
    let (key_pem, _, _) = test_identity();
    let r = server_config_from_pem(key_pem.as_bytes(), b"");
    assert_eq!(r.err().map(|e| format!("{:?}", e)), Some("Load(Missing)".to_string()));
}

#[test]
fn missing_key_fails_server_context() {
    let (_, cert_pem, _) = test_identity();
    let r = server_config_from_pem(cert_pem.as_bytes(), cert_pem.as_bytes());
    assert_eq!(r.err().map(|e| format!("{:?}", e)), Some("Load(Missing)".to_string()));
}

#[test]
fn undecodable_key_fails_config_build() {
    // A well-formed PEM block whose contents are not a usable key: loading
    // succeeds, building the trust context does not.  The block keeps the
    // generated key's framing but carries an unrelated payload.
    let (key_pem, cert_pem, _) = test_identity();
    let lines: Vec<&str> = key_pem.lines().collect();
    let bogus_key = format!(
        "{}\naGVsbG8gd29ybGQ=\n{}\n",
        lines.first().unwrap(),
        lines.last().unwrap()
    );
    let r = server_config_from_pem(bogus_key.as_bytes(), cert_pem.as_bytes());
    match r.err() {
        Some(SetupError::Config(_)) => {},
        other => panic!("expected a config failure, got {:?}", other),
    }
}
