//! TLS configurations as `rustls` and `tokio-rustls` take them.

use std::sync::Arc;

use rustls::pki_types::{
    CertificateDer, InvalidDnsNameError, PrivateKeyDer, ServerName, TrustAnchor,
};
use rustls::{ClientConfig, RootCertStore, ServerConfig};
use tokio_rustls::{TlsAcceptor, TlsConnector};
use vstd::prelude::*;
use vstd::utf8::encode_utf8;

use crate::pki::{chain_bytes, key_contents, KeyContents};

verus! {

/// What a TLS server is set to.
pub struct ServerSettings {
    /// The certificate chain that it presents to every client.
    pub chain: Seq<Seq<u8>>,
    /// The private key of the first certificate.
    pub key: KeyContents,
    /// Whether it asks clients for a certificate.
    pub client_auth: bool,
    /// Application protocols that it offers, in order of preference.
    pub alpn: Seq<Seq<u8>>,
}

/// What a TLS client is set to.
pub struct ClientSettings {
    /// The anchors by which it judges servers.
    pub roots: Seq<Anchor>,
    /// Whether it has a certificate to present.
    pub client_auth: bool,
    /// Application protocols that it offers, in order of preference.
    pub alpn: Seq<Seq<u8>>,
}

/// A root of trust.
pub struct Anchor {
    pub subject: Seq<u8>,
    pub public_key_info: Seq<u8>,
    pub name_constraints: Option<Seq<u8>>,
}

/// The name by which a client knows a server.
pub enum Target {
    Dns(Seq<char>),
    Ip(Seq<u8>),
}

/// `rustls::ServerConfig`, read through [`server_settings`].
#[verifier::external_type_specification]
#[verifier::external_body]
pub struct ExServerConfig(rustls::ServerConfig);

/// `rustls::ClientConfig`, read through [`client_settings`].
#[verifier::external_type_specification]
#[verifier::external_body]
pub struct ExClientConfig(rustls::ClientConfig);

/// `rustls::Error`, carried as it is.
#[verifier::external_type_specification]
#[verifier::external_body]
pub struct ExRustlsError(rustls::Error);

/// `rustls::RootCertStore`, read through [`root_anchors`].
#[verifier::external_type_specification]
#[verifier::external_body]
pub struct ExRootCertStore(rustls::RootCertStore);

/// `rustls::pki_types::TrustAnchor`, read through [`anchor_fields`].
#[verifier::external_type_specification]
#[verifier::external_body]
pub struct ExTrustAnchor<'a>(rustls::pki_types::TrustAnchor<'a>);

/// `rustls::pki_types::ServerName`, read through [`target_of`].
#[verifier::external_type_specification]
#[verifier::external_body]
pub struct ExServerName<'a>(rustls::pki_types::ServerName<'a>);

/// `rustls::pki_types::InvalidDnsNameError`, carried as it is.
#[verifier::external_type_specification]
#[verifier::external_body]
pub struct ExInvalidDnsNameError(rustls::pki_types::InvalidDnsNameError);

/// `tokio_rustls::TlsAcceptor`, read through [`acceptor_config`].
#[verifier::external_type_specification]
#[verifier::external_body]
pub struct ExTlsAcceptor(tokio_rustls::TlsAcceptor);

/// `tokio_rustls::TlsConnector`, read through [`connector_config`].
#[verifier::external_type_specification]
#[verifier::external_body]
pub struct ExTlsConnector(tokio_rustls::TlsConnector);

/// What the server configuration is set to.
pub uninterp spec fn server_settings(config: ServerConfig) -> ServerSettings;

/// What the client configuration is set to.
pub uninterp spec fn client_settings(config: ClientConfig) -> ClientSettings;

/// The fields of the trust anchor.
pub uninterp spec fn anchor_fields(anchor: TrustAnchor<'static>) -> Anchor;

/// The anchors in the store, in order.
pub uninterp spec fn root_anchors(store: RootCertStore) -> Seq<Anchor>;

/// The anchors are those of `webpki_roots::TLS_SERVER_ROOTS`, in its order.
pub uninterp spec fn are_mozilla_roots(anchors: Seq<Anchor>) -> bool;

/// The configuration that the acceptor works by.
pub uninterp spec fn acceptor_config(acceptor: TlsAcceptor) -> ServerConfig;

/// The configuration that the connector works by.
pub uninterp spec fn connector_config(connector: TlsConnector) -> ClientConfig;

/// The name that is held.
pub uninterp spec fn target_of(name: ServerName<'static>) -> Target;

/// The DNS name or IP address that the text writes, if it writes one, as
/// `ServerName::try_from` reads it.
pub uninterp spec fn parse_target(text: Seq<char>) -> Option<Target>;

/// The bytes of each protocol name.
pub open spec fn protocol_names(protocols: Seq<Vec<u8>>) -> Seq<Seq<u8>> {
    protocols.map_values(|protocol: Vec<u8>| protocol@)
}

/// The fields of each anchor.
pub open spec fn anchors_fields(anchors: Seq<TrustAnchor<'static>>) -> Seq<Anchor> {
    anchors.map_values(|anchor: TrustAnchor<'static>| anchor_fields(anchor))
}

/// The application protocol of inspected connections.
pub const HTTP_1_1: &'static str = "http/1.1";

/// HTTP/1.1 and no other protocol.
pub open spec fn http_only() -> Seq<Seq<u8>> {
    seq![encode_utf8(HTTP_1_1@)]
}

/// `ServerConfig::builder`, `with_no_client_auth` and `with_single_cert`: a
/// server that presents the chain and asks for no client certificate. It is
/// refused where the process's cryptography cannot use the key, or the key does
/// not go with the first certificate.
///
/// The cryptography is the one that the process installed, or `ring` where it
/// installed none. An installed one without usable cipher suites makes the
/// builder panic.
#[verifier::external_body]
pub(crate) fn single_cert_config(
    chain: Vec<CertificateDer<'static>>,
    key: PrivateKeyDer<'static>,
) -> (config: Result<ServerConfig, rustls::Error>)
    ensures
        config matches Ok(config) ==> server_settings(config) == (ServerSettings {
            chain: chain_bytes(chain@),
            key: key_contents(key),
            client_auth: false,
            alpn: Seq::empty(),
        }),
{
    ServerConfig::builder().with_no_client_auth().with_single_cert(chain, key)
}

/// Sets the `alpn_protocols` field of the server configuration.
#[verifier::external_body]
pub(crate) fn set_server_protocols(config: &mut ServerConfig, protocols: Vec<Vec<u8>>)
    ensures
        server_settings(*final(config)) == (ServerSettings {
            alpn: protocol_names(protocols@),
            ..server_settings(*old(config))
        }),
{
    config.alpn_protocols = protocols;
}

/// `TlsAcceptor::from`: accepts by the configuration.
#[verifier::external_body]
pub(crate) fn acceptor_from(config: Arc<ServerConfig>) -> (acceptor: TlsAcceptor)
    ensures
        acceptor_config(acceptor) == *config,
{
    TlsAcceptor::from(config)
}

/// `RootCertStore::empty`: a store without anchors.
pub assume_specification[ RootCertStore::empty ]() -> (store: RootCertStore)
    ensures
        root_anchors(store) == Seq::<Anchor>::empty(),
;

/// `webpki_roots::TLS_SERVER_ROOTS`: Mozilla's trust anchors.
#[verifier::external_body]
pub(crate) fn mozilla_roots() -> (anchors: &'static [TrustAnchor<'static>])
    ensures
        are_mozilla_roots(anchors_fields(anchors@)),
{
    webpki_roots::TLS_SERVER_ROOTS
}

/// `RootCertStore::extend` with copies of the anchors: adds them at the end.
#[verifier::external_body]
pub(crate) fn extend_roots(store: &mut RootCertStore, anchors: &[TrustAnchor<'static>])
    ensures
        root_anchors(*final(store)) == root_anchors(*old(store)) + anchors@.map_values(
            |anchor: TrustAnchor<'static>| anchor_fields(anchor),
        ),
{
    store.extend(anchors.iter().cloned());
}

/// `ClientConfig::builder`, `with_root_certificates` and `with_no_client_auth`:
/// a client that trusts what the anchors vouch for and presents no certificate.
///
/// The cryptography is the one that the process installed, or `ring` where it
/// installed none. An installed one without usable cipher suites makes the
/// builder panic.
#[verifier::external_body]
pub(crate) fn trusting_config(store: RootCertStore) -> (config: ClientConfig)
    ensures
        client_settings(config) == (ClientSettings {
            roots: root_anchors(store),
            client_auth: false,
            alpn: Seq::empty(),
        }),
{
    ClientConfig::builder().with_root_certificates(store).with_no_client_auth()
}

/// Sets the `alpn_protocols` field of the client configuration.
#[verifier::external_body]
pub(crate) fn set_client_protocols(config: &mut ClientConfig, protocols: Vec<Vec<u8>>)
    ensures
        client_settings(*final(config)) == (ClientSettings {
            alpn: protocol_names(protocols@),
            ..client_settings(*old(config))
        }),
{
    config.alpn_protocols = protocols;
}

/// `TlsConnector::from`: connects by the configuration.
#[verifier::external_body]
pub(crate) fn connector_from(config: Arc<ClientConfig>) -> (connector: TlsConnector)
    ensures
        connector_config(connector) == *config,
{
    TlsConnector::from(config)
}

/// `ServerName::try_from`: the DNS name, kept as it is written, or IP address
/// that the text writes.
#[verifier::external_body]
pub(crate) fn server_name_from(text: String) -> (name: Result<
    ServerName<'static>,
    InvalidDnsNameError,
>)
    ensures
        match name {
            Ok(name) => {
                &&& parse_target(text@) == Some(target_of(name))
                &&& target_of(name) matches Target::Dns(dns) ==> dns == text@
            },
            Err(_) => parse_target(text@) is None,
        },
{
    ServerName::try_from(text)
}

/// The list of the one protocol that inspected connections speak.
pub(crate) fn http_protocols() -> (protocols: Vec<Vec<u8>>)
    ensures
        protocol_names(protocols@) == http_only(),
{
    let protocols = vec![HTTP_1_1.as_bytes_vec()];
    assert(protocol_names(protocols@) =~= http_only());
    protocols
}

/// The only protocol that is offered is HTTP/1.1, by its registered name.
pub proof fn only_http_1_1_is_offered()
    ensures
        http_only().len() == 1,
        http_only()[0] == seq![0x68u8, 0x74, 0x74, 0x70, 0x2f, 0x31, 0x2e, 0x31],
{
    reveal_strlit("http/1.1");
    assert(vstd::string::is_ascii("http/1.1"));
    vstd::string::is_ascii_spec_bytes("http/1.1");
    assert(encode_utf8("http/1.1"@) =~= seq![0x68u8, 0x74, 0x74, 0x70, 0x2f, 0x31, 0x2e, 0x31]);
}

} // verus!
