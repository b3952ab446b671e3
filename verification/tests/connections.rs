use std::sync::Arc;

use openshell_tls::{
    build_upstream_client_config, parse_pem_certs, upstream_handshake, CertCache, ProxyTlsState,
    SandboxCa, TlsError,
};
use rustls::pki_types::ServerName;
use rustls::{ClientConfig, ClientConnection, RootCertStore, ServerConfig, ServerConnection};

#[test]
fn upstream_config_alpn() {
    let _ = rustls::crypto::ring::default_provider().install_default();
    let config = build_upstream_client_config();
    assert_eq!(config.alpn_protocols, vec![b"http/1.1".to_vec()]);
}

/// A client that trusts the sandbox CA.
fn client(ca_pem: &str) -> Arc<ClientConfig> {
    let mut roots = RootCertStore::empty();
    for cert in parse_pem_certs(ca_pem.as_bytes()).unwrap() {
        roots.add(cert).unwrap();
    }
    let mut config = ClientConfig::builder().with_root_certificates(roots).with_no_client_auth();
    config.alpn_protocols = vec![b"h2".to_vec(), b"http/1.1".to_vec()];
    Arc::new(config)
}

/// Runs a handshake in memory; gives the protocol that was agreed on.
fn handshake(
    client: Arc<ClientConfig>,
    server: Arc<ServerConfig>,
    name: ServerName<'static>,
) -> Result<Option<Vec<u8>>, rustls::Error> {
    let mut client = ClientConnection::new(client, name)?;
    let mut server = ServerConnection::new(server)?;
    while client.is_handshaking() || server.is_handshaking() {
        let mut bytes: Vec<u8> = Vec::new();
        while client.wants_write() {
            client.write_tls(&mut bytes).unwrap();
        }
        let mut rest = &bytes[..];
        while !rest.is_empty() {
            server.read_tls(&mut rest).unwrap();
            server.process_new_packets()?;
        }
        bytes = Vec::new();
        while server.wants_write() {
            server.write_tls(&mut bytes).unwrap();
        }
        let mut rest = &bytes[..];
        while !rest.is_empty() {
            client.read_tls(&mut rest).unwrap();
            client.process_new_packets()?;
        }
    }
    Ok(client.alpn_protocol().map(|protocol| protocol.to_vec()))
}

#[test]
fn client_accepts_the_certificate_for_its_host() {
    let ca = SandboxCa::generate().unwrap();
    let client = client(ca.cert_pem());
    let mut state = ProxyTlsState::new(CertCache::new(ca), build_upstream_client_config());
    for host in ["example.com", "127.0.0.1"] {
        let acceptor = state.acceptor_for(host).unwrap();
        let agreed = handshake(
            Arc::clone(&client),
            Arc::clone(acceptor.config()),
            ServerName::try_from(host).unwrap(),
        );
        assert_eq!(agreed.unwrap(), Some(b"http/1.1".to_vec()));
    }
}

#[test]
fn client_refuses_the_certificate_of_another_host() {
    let ca = SandboxCa::generate().unwrap();
    let client = client(ca.cert_pem());
    let mut state = ProxyTlsState::new(CertCache::new(ca), build_upstream_client_config());
    let acceptor = state.acceptor_for("example.com").unwrap();
    let refused = handshake(
        client,
        Arc::clone(acceptor.config()),
        ServerName::try_from("other.example").unwrap(),
    );
    assert!(matches!(refused, Err(rustls::Error::InvalidCertificate(_))));
}

#[test]
fn client_of_another_authority_refuses() {
    let client = client(SandboxCa::generate().unwrap().cert_pem());
    let ca = SandboxCa::generate().unwrap();
    let mut state = ProxyTlsState::new(CertCache::new(ca), build_upstream_client_config());
    let acceptor = state.acceptor_for("example.com").unwrap();
    let refused = handshake(
        client,
        Arc::clone(acceptor.config()),
        ServerName::try_from("example.com").unwrap(),
    );
    assert!(refused.is_err());
}

#[test]
fn upstream_client_does_not_trust_the_sandbox() {
    let ca = SandboxCa::generate().unwrap();
    let mut state = ProxyTlsState::new(CertCache::new(ca), build_upstream_client_config());
    let acceptor = state.acceptor_for("example.com").unwrap();
    let upstream = Arc::clone(state.upstream_config());
    let (_, name) = upstream_handshake("example.com", &upstream).unwrap();
    assert!(handshake(upstream, Arc::clone(acceptor.config()), name).is_err());
}

#[test]
fn acceptors_offer_http_1_1_alone() {
    let ca = SandboxCa::generate().unwrap();
    let mut state = ProxyTlsState::new(CertCache::new(ca), build_upstream_client_config());
    let acceptor = state.acceptor_for("example.com").unwrap();
    assert_eq!(acceptor.config().alpn_protocols, vec![b"http/1.1".to_vec()]);
}

#[test]
fn acceptor_errors() {
    let ca = SandboxCa::generate().unwrap();
    let mut state = ProxyTlsState::new(CertCache::new(ca), build_upstream_client_config());
    assert!(matches!(state.acceptor_for("h\u{f6}st"), Err(TlsError::HostName(_))));
    let failed = ProxyTlsState::acceptor_from_config(Err(rustls::Error::NoCertificatesPresented));
    assert!(matches!(
        failed,
        Err(TlsError::ServerConfig(rustls::Error::NoCertificatesPresented))
    ));
}

#[test]
fn upstream_config_is_handed_on() {
    let config = build_upstream_client_config();
    let ca = SandboxCa::generate().unwrap();
    let state = ProxyTlsState::new(CertCache::new(ca), Arc::clone(&config));
    assert!(Arc::ptr_eq(state.upstream_config(), &config));
}

#[test]
fn upstream_names() {
    let config = build_upstream_client_config();
    let (_, name) = upstream_handshake("example.com", &config).unwrap();
    assert_eq!(name, ServerName::try_from("example.com").unwrap());
    let (_, name) = upstream_handshake("::1", &config).unwrap();
    assert!(matches!(name, ServerName::IpAddress(_)));
    let failed = upstream_handshake("not a host", &config);
    assert!(matches!(failed, Err(TlsError::ServerName(_))));
}
