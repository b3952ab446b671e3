//! Connections to upstream servers.

use std::sync::Arc;

use rustls::pki_types::ServerName;
use rustls::{ClientConfig, RootCertStore};
use tokio_rustls::TlsConnector;
use vstd::prelude::*;

use crate::error::TlsError;
use crate::tls_config::{
    anchors_fields, are_mozilla_roots, client_settings, connector_config, connector_from,
    extend_roots, http_only, http_protocols, mozilla_roots, parse_target, root_anchors,
    server_name_from, set_client_protocols, target_of, trusting_config, Target,
};

verus! {

/// Builds a `ClientConfig` with Mozilla root CAs for upstream connections.
///
/// Panics where the process installed cryptography without usable cipher
/// suites.
pub fn build_upstream_client_config() -> (config: Arc<ClientConfig>)
    ensures
        are_mozilla_roots(client_settings(*config).roots),
        !client_settings(*config).client_auth,
        client_settings(*config).alpn == http_only(),
{
    let mut root_store = RootCertStore::empty();
    let anchors = mozilla_roots();
    extend_roots(&mut root_store, anchors);
    assert(root_anchors(root_store) =~= anchors_fields(anchors@));
    let mut config = trusting_config(root_store);
    set_client_protocols(&mut config, http_protocols());
    Arc::new(config)
}

/// What a handshake with the upstream server `hostname` takes: a connector that
/// works by the configuration, and the name that the server has to prove.
pub fn upstream_handshake(hostname: &str, client_config: &Arc<ClientConfig>) -> (handshake: Result<
    (TlsConnector, ServerName<'static>),
    TlsError,
>)
    ensures
        match handshake {
            Ok((connector, name)) => {
                &&& connector_config(connector) == **client_config
                &&& parse_target(hostname@) == Some(target_of(name))
                &&& target_of(name) matches Target::Dns(dns) ==> dns == hostname@
            },
            Err(e) => e is ServerName && parse_target(hostname@) is None,
        },
{
    let connector = connector_from(Arc::clone(client_config));
    match server_name_from(hostname.to_string()) {
        Ok(name) => Ok((connector, name)),
        Err(e) => Err(TlsError::ServerName(e)),
    }
}

} // verus!
