//! End-to-end tests: a server task behind the library's trust context,
//! spoken to over a real TLS session by a real client, with per-connection
//! fault containment.  Each connection runs over an in-memory duplex byte
//! stream standing for one accepted socket, and all key and certificate
//! material is generated afresh when the tests run.

use std::sync::Arc;

use tokio::io::{duplex, AsyncReadExt, AsyncWriteExt, DuplexStream};
use tokio_rustls::{TlsAcceptor, TlsConnector};

use mvrps::dispatch::respond;
use mvrps::framing::{serialize_request, MAX_MESSAGE_SIZE};
use mvrps::trust::{client_config_from_pem, server_config_from_pem};

type AnyError = Box<dyn std::error::Error + Send + Sync>;

/// A fresh identity: a self-signed CA, a localhost leaf certificate signed
/// by it, and the leaf's PKCS#8 private key, each as PEM text.
fn test_identity() -> (String, String, String) {
    let mut ca_params = rcgen::CertificateParams::new(Vec::<String>::new());
    ca_params.is_ca = rcgen::IsCa::Ca(rcgen::BasicConstraints::Unconstrained);
    let ca = rcgen::Certificate::from_params(ca_params).expect("generate CA");
    let ca_pem = ca.serialize_pem().expect("serialize CA");

    let leaf_params = rcgen::CertificateParams::new(vec!["localhost".to_string()]);
    let leaf = rcgen::Certificate::from_params(leaf_params).expect("generate leaf");
    let cert_pem = leaf.serialize_pem_with_signer(&ca).expect("serialize leaf");
    let key_pem = leaf.serialize_private_key_pem();

    (key_pem, cert_pem, ca_pem)
}

fn make_acceptor(key_pem: &str, cert_pem: &str) -> TlsAcceptor {
    let config = server_config_from_pem(key_pem.as_bytes(), cert_pem.as_bytes())
        .expect("server trust context");
    TlsAcceptor::from(Arc::new(config))
}

fn make_connector(key_pem: &str, cert_pem: &str, ca_pem: &str) -> TlsConnector {
    let config = client_config_from_pem(key_pem.as_bytes(), cert_pem.as_bytes(), ca_pem.as_bytes())
        .expect("client trust context");
    TlsConnector::from(Arc::new(config))
}

/// One connection's server-side pipeline: handshake, one bounded read,
/// respond, write, close.  A failure anywhere ends only this connection.
async fn handle_connection(acceptor: TlsAcceptor, stream: DuplexStream) -> Result<(), AnyError> {
    let mut tls = acceptor.accept(stream).await?;
    let mut buffer = [0u8; MAX_MESSAGE_SIZE];
    let n = tls.read(&mut buffer).await?;
    let text = String::from_utf8_lossy(&buffer[..n]).to_string();
    let out = match respond(&text) {
        Ok(out) => out,
        // A framing failure drops the connection without a response.
        Err(_) => return Ok(()),
    };
    tls.write_all(out.as_bytes()).await?;
    tls.shutdown().await?;
    Ok(())
}

/// Stands for one accepted connection: the server side goes to its own
/// handler task, the client side is returned.
fn accept_one(acceptor: &TlsAcceptor) -> DuplexStream {
    let (client_end, server_end) = duplex(4096);
    let acceptor = acceptor.clone();
    tokio::spawn(async move {
        let _ = handle_connection(acceptor, server_end).await;
    });
    client_end
}

async fn send_request(
    acceptor: &TlsAcceptor,
    connector: &TlsConnector,
    method: &str,
    target: &str,
    body: &str,
) -> Result<String, AnyError> {
    let domain = tokio_rustls::rustls::ServerName::try_from("localhost")?;
    let stream = accept_one(acceptor);
    let mut tls = connector.connect(domain, stream).await?;
    let wire = serialize_request(method, target, body);
    tls.write_all(wire.as_bytes()).await?;
    let mut response = Vec::new();
    tls.read_to_end(&mut response).await?;
    Ok(String::from_utf8_lossy(&response).to_string())
}

#[test]
fn end_to_end_read() {
    let rt = tokio::runtime::Runtime::new().unwrap();
    rt.block_on(async {
        let (key_pem, cert_pem, ca_pem) = test_identity();
        let acceptor = make_acceptor(&key_pem, &cert_pem);
        let connector = make_connector(&key_pem, &cert_pem, &ca_pem);
        let response = send_request(&acceptor, &connector, "READ", "/foo/bar", "").await.unwrap();
        assert_eq!(
            response,
            "MVRP/1.0 200 OK\r\nContent-Type: text/plain\r\n\r\nResource read\n"
        );
    });
}

#[test]
fn end_to_end_unsupported_method() {
    let rt = tokio::runtime::Runtime::new().unwrap();
    rt.block_on(async {
        let (key_pem, cert_pem, ca_pem) = test_identity();
        let acceptor = make_acceptor(&key_pem, &cert_pem);
        let connector = make_connector(&key_pem, &cert_pem, &ca_pem);
        let response =
            send_request(&acceptor, &connector, "DELETE", "/foo/bar", "").await.unwrap();
        assert_eq!(
            response,
            "MVRP/1.0 405 Method Not Allowed\r\nContent-Type: text/plain\r\n\r\nMethod not allowed\n"
        );
    });
}

#[test]
fn end_to_end_wrong_trust_anchor_fails() {
    let rt = tokio::runtime::Runtime::new().unwrap();
    rt.block_on(async {
        let (key_pem, cert_pem, _) = test_identity();
        let acceptor = make_acceptor(&key_pem, &cert_pem);
        // A client that trusts only the server's leaf certificate, not the
        // CA that signed it, must refuse the handshake.
        let connector = make_connector(&key_pem, &cert_pem, &cert_pem);
        let domain = tokio_rustls::rustls::ServerName::try_from("localhost").unwrap();
        let stream = accept_one(&acceptor);
        assert!(connector.connect(domain, stream).await.is_err());
    });
}

#[test]
fn broken_handshake_does_not_poison_the_server() {
    let rt = tokio::runtime::Runtime::new().unwrap();
    rt.block_on(async {
        let (key_pem, cert_pem, ca_pem) = test_identity();
        let acceptor = make_acceptor(&key_pem, &cert_pem);
        let connector = make_connector(&key_pem, &cert_pem, &ca_pem);

        // One peer sends bytes that are no TLS handshake and goes away.
        let mut raw = accept_one(&acceptor);
        raw.write_all(b"this is not a handshake").await.unwrap();
        drop(raw);

        // Another peer connects and immediately hangs up mid-handshake.
        let raw = accept_one(&acceptor);
        drop(raw);

        // A well-formed request from a fresh client still succeeds.
        let response =
            send_request(&acceptor, &connector, "EMIT", "/events", "ping").await.unwrap();
        assert_eq!(
            response,
            "MVRP/1.0 200 OK\r\nContent-Type: text/plain\r\n\r\nEvent emitted\n"
        );
    });
}
