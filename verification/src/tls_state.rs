//! TLS state shared across proxy connections.

use std::sync::Arc;

use rustls::pki_types::{CertificateDer, PrivateKeyDer};
use rustls::{ClientConfig, ServerConfig};
use tokio_rustls::TlsAcceptor;
use vstd::prelude::*;
use vstd::utf8::is_ascii_chars;

use crate::cert_cache::{answered, ask, CertCache, CertifiedLeaf};
use crate::error::TlsError;
use crate::pki::{certificate_bytes, chain_bytes, clone_chain, clone_key, key_contents};
use crate::tls_config::{
    acceptor_config, acceptor_from, http_only, http_protocols, only_http_1_1_is_offered,
    server_settings, set_server_protocols, single_cert_config, ServerSettings,
};

verus! {

/// What a server that presents the leaf is set to: no client certificates, and
/// HTTP/1.1 alone.
pub open spec fn leaf_settings(leaf: CertifiedLeaf) -> ServerSettings {
    ServerSettings {
        chain: chain_bytes(leaf.cert_chain@),
        key: key_contents(leaf.private_key),
        client_auth: false,
        alpn: http_only(),
    }
}

/// `single_cert_config` gave `config` for the chain and the key.
pub closed spec fn config_gave(
    chain: Vec<CertificateDer<'static>>,
    key: PrivateKeyDer<'static>,
    config: Result<ServerConfig, rustls::Error>,
) -> bool {
    call_ensures(single_cert_config, (chain, key), config)
}

/// A server configuration comes from the call of `single_cert_config` with the
/// same chain and key.
proof fn config_comes_from_chain_and_key(
    chain: Vec<CertificateDer<'static>>,
    key: PrivateKeyDer<'static>,
    config: Result<ServerConfig, rustls::Error>,
)
    ensures
        config_gave(chain, key, config) == call_ensures(single_cert_config, (chain, key), config),
{
}

/// `acceptor` is what a configuration of the leaf's own chain and key came to:
/// an acceptor by it, or the refusal of just these.
pub open spec fn presents(
    leaf: CertifiedLeaf,
    acceptor: Result<TlsAcceptor, TlsError>,
) -> bool {
    exists|
        chain: Vec<CertificateDer<'static>>,
        key: PrivateKeyDer<'static>,
        config: Result<ServerConfig, rustls::Error>,
    | #[trigger]
        config_gave(chain, key, config) && chain_bytes(chain@) == chain_bytes(leaf.cert_chain@)
            && key_contents(key) == key_contents(leaf.private_key) && match config {
            Ok(config) => acceptor matches Ok(acceptor) && server_settings(
                acceptor_config(acceptor),
            ) == leaf_settings(leaf),
            Err(e) => acceptor == Err::<TlsAcceptor, TlsError>(TlsError::ServerConfig(e)),
        }
}

/// TLS state shared across proxy connections.
pub struct ProxyTlsState {
    cert_cache: CertCache,
    upstream_config: Arc<ClientConfig>,
}

impl ProxyTlsState {
    /// The leaves that the proxy presents.
    pub closed spec fn certificates(&self) -> CertCache {
        self.cert_cache
    }

    /// The configuration of upstream connections.
    pub closed spec fn upstream(&self) -> Arc<ClientConfig> {
        self.upstream_config
    }

    /// Creates a new TLS state with the given cert cache and upstream config.
    pub fn new(cert_cache: CertCache, upstream_config: Arc<ClientConfig>) -> (state: Self)
        ensures
            state.certificates() == cert_cache,
            state.upstream() == upstream_config,
    {
        ProxyTlsState { cert_cache, upstream_config }
    }

    /// Gets or generates a leaf cert for the host and returns a TLS acceptor.
    ///
    /// Panics where the process installed cryptography without usable cipher
    /// suites.
    pub fn acceptor_for(&mut self, hostname: &str) -> (acceptor: Result<TlsAcceptor, TlsError>)
        ensures
            final(self).certificates().wf(),
            final(self).certificates().authority() == old(self).certificates().authority(),
            final(self).upstream() == old(self).upstream(),
            ({
                let before = old(self).certificates().leaves();
                let after = final(self).certificates().leaves();
                let found = if after.contains_key(hostname@) {
                    Some(after[hostname@])
                } else {
                    None
                };
                &&& (after, found) == ask(before, hostname@, found)
                &&& match acceptor {
                    Ok(acceptor) => {
                        &&& found matches Some(leaf)
                        &&& leaf.issued(hostname@, old(self).certificates().authority())
                        &&& server_settings(acceptor_config(acceptor)) == leaf_settings(*leaf)
                    },
                    Err(e) => if found is Some {
                        e is ServerConfig
                    } else {
                        ||| e is KeyGeneration
                        ||| e is HostName && !is_ascii_chars(hostname@)
                        ||| e is Signing && is_ascii_chars(hostname@)
                    },
                }
            }),
            exists|leaf: Result<Arc<CertifiedLeaf>, TlsError>|
                {
                    &&& #[trigger] answered(
                        old(self).certificates().leaves(),
                        final(self).certificates().leaves(),
                        hostname@,
                        old(self).certificates().authority(),
                        leaf,
                    )
                    &&& match leaf {
                        Ok(leaf) => presents(*leaf, acceptor),
                        Err(e) => acceptor == Err::<TlsAcceptor, TlsError>(e),
                    }
                },
    {
        match self.leaf_for(hostname) {
            Ok(leaf) => Self::acceptor_of(&leaf),
            Err(e) => Err(e),
        }
    }

    /// Gets or generates a leaf cert for the host. With [`Self::acceptor_of`] it
    /// does what [`Self::acceptor_for`] does, for callers that lock the state
    /// only while a leaf is looked up.
    pub fn leaf_for(&mut self, hostname: &str) -> (leaf: Result<Arc<CertifiedLeaf>, TlsError>)
        ensures
            final(self).certificates().wf(),
            final(self).certificates().authority() == old(self).certificates().authority(),
            final(self).upstream() == old(self).upstream(),
            (final(self).certificates().leaves(), leaf.ok()) == ask(
                old(self).certificates().leaves(),
                hostname@,
                leaf.ok(),
            ),
            answered(
                old(self).certificates().leaves(),
                final(self).certificates().leaves(),
                hostname@,
                old(self).certificates().authority(),
                leaf,
            ),
            match leaf {
                Ok(leaf) => leaf.issued(hostname@, old(self).certificates().authority()),
                Err(e) => {
                    ||| e is KeyGeneration
                    ||| e is HostName && !is_ascii_chars(hostname@)
                    ||| e is Signing && is_ascii_chars(hostname@)
                },
            },
    {
        self.cert_cache.get_or_generate(hostname)
    }

    /// Returns a TLS acceptor that presents the leaf.
    ///
    /// Panics where the process installed cryptography without usable cipher
    /// suites.
    pub fn acceptor_of(leaf: &CertifiedLeaf) -> (acceptor: Result<TlsAcceptor, TlsError>)
        ensures
            presents(*leaf, acceptor),
            match acceptor {
                Ok(acceptor) => server_settings(acceptor_config(acceptor)) == leaf_settings(*leaf),
                Err(e) => e is ServerConfig,
            },
    {
        let chain = clone_chain(&leaf.cert_chain);
        let key = clone_key(&leaf.private_key);
        let ghost asked = (chain, key);
        let config = single_cert_config(chain, key);
        assert(config_gave(asked.0, asked.1, config));
        Self::acceptor_from_config(config)
    }

    /// Makes an acceptor of HTTP/1.1 of a configuration that was asked for.
    pub fn acceptor_from_config(config: Result<ServerConfig, rustls::Error>) -> (acceptor: Result<
        TlsAcceptor,
        TlsError,
    >)
        ensures
            match config {
                Ok(config) => acceptor matches Ok(acceptor) && server_settings(
                    acceptor_config(acceptor),
                ) == (ServerSettings { alpn: http_only(), ..server_settings(config) }),
                Err(e) => acceptor == Err::<TlsAcceptor, TlsError>(TlsError::ServerConfig(e)),
            },
    {
        match config {
            Ok(mut config) => {
                set_server_protocols(&mut config, http_protocols());
                Ok(acceptor_from(Arc::new(config)))
            },
            Err(e) => Err(TlsError::ServerConfig(e)),
        }
    }

    /// Returns a reference to the upstream client config.
    pub fn upstream_config(&self) -> (config: &Arc<ClientConfig>)
        ensures
            *config == self.upstream(),
    {
        &self.upstream_config
    }
}

/// An acceptor for a leaf presents that leaf's chain with its private key, asks
/// clients for no certificate and offers HTTP/1.1 alone.
pub proof fn acceptor_presents_the_leaf(leaf: CertifiedLeaf, acceptor: TlsAcceptor)
    requires
        presents(leaf, Ok(acceptor)),
    ensures
        ({
            let settings = server_settings(acceptor_config(acceptor));
            &&& settings.chain.len() == leaf.cert_chain@.len()
            &&& forall|i: int|
                0 <= i < settings.chain.len() ==> #[trigger] settings.chain[i]
                    == certificate_bytes(leaf.cert_chain@[i])
            &&& settings.key == key_contents(leaf.private_key)
            &&& !settings.client_auth
            &&& settings.alpn == seq![seq![0x68u8, 0x74, 0x74, 0x70, 0x2f, 0x31, 0x2e, 0x31]]
        }),
{
    only_http_1_1_is_offered();
    assert(http_only() =~= seq![seq![0x68u8, 0x74, 0x74, 0x70, 0x2f, 0x31, 0x2e, 0x31]]);
}

/// No acceptor for a leaf means that the configuration of that leaf's own chain
/// and key was refused, with just this error.
pub proof fn only_the_leaf_itself_is_refused(leaf: CertifiedLeaf, error: TlsError)
    requires
        presents(leaf, Err(error)),
    ensures
        exists|
            chain: Vec<CertificateDer<'static>>,
            key: PrivateKeyDer<'static>,
            e: rustls::Error,
        |
            #![trigger config_gave(chain, key, Err(e))]
            {
                &&& config_gave(chain, key, Err(e))
                &&& error == TlsError::ServerConfig(e)
                &&& chain@.len() == leaf.cert_chain@.len()
                &&& forall|i: int|
                    0 <= i < chain@.len() ==> certificate_bytes(#[trigger] chain@[i])
                        == certificate_bytes(leaf.cert_chain@[i])
                &&& key_contents(key) == key_contents(leaf.private_key)
            },
{
    let (chain, key, config) = choose|
        chain: Vec<CertificateDer<'static>>,
        key: PrivateKeyDer<'static>,
        config: Result<ServerConfig, rustls::Error>,
    | #[trigger]
        config_gave(chain, key, config) && chain_bytes(chain@) == chain_bytes(leaf.cert_chain@)
            && key_contents(key) == key_contents(leaf.private_key) && match config {
            Ok(config) => false,
            Err(e) => error == TlsError::ServerConfig(e),
        };
    assert(config_gave(chain, key, Err(config->Err_0)));
    assert(chain_bytes(chain@).len() == chain@.len());
    assert(chain_bytes(leaf.cert_chain@).len() == leaf.cert_chain@.len());
    assert forall|i: int| 0 <= i < chain@.len() implies certificate_bytes(#[trigger] chain@[i])
        == certificate_bytes(leaf.cert_chain@[i]) by {
        assert(chain_bytes(chain@)[i] == chain_bytes(leaf.cert_chain@)[i]);
    }
}

/// Where the configuration of a leaf's own chain and key is never refused, every
/// acceptor for the leaf is one.
pub proof fn accepted_leaf_is_presented(
    leaf: CertifiedLeaf,
    acceptor: Result<TlsAcceptor, TlsError>,
)
    requires
        presents(leaf, acceptor),
        forall|chain: Vec<CertificateDer<'static>>, key: PrivateKeyDer<'static>, e: rustls::Error|
            chain_bytes(chain@) == chain_bytes(leaf.cert_chain@) && key_contents(key)
                == key_contents(leaf.private_key) ==> !#[trigger] config_gave(chain, key, Err(e)),
    ensures
        acceptor is Ok,
{
}

} // verus!
