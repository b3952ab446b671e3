//! TLS termination for HTTPS inspection.
//!
//! The proxy tells TLS from other traffic and reads the host that a client asks
//! for ([`client_hello`]), gives the bytes it read back ([`replay`]), presents a
//! certificate of the sandbox CA for that host ([`ca`], [`cert_cache`],
//! [`tls_state`]) and connects to the real server by Mozilla's root CAs
//! ([`upstream`]). [`trust_store`] makes the sandbox trust its CA.

pub mod ca;
pub mod cert_cache;
pub mod client_hello;
pub mod error;
pub mod hello_encoding;
pub mod hello_laws;
pub mod pki;
pub mod replay;
pub mod tls_config;
pub mod tls_state;
pub mod trust_store;
pub mod upstream;
pub mod x509;

pub use crate::ca::SandboxCa;
pub use crate::cert_cache::{CertCache, CertifiedLeaf, MAX_CACHED_CERTS};
pub use crate::client_hello::{extract_sni, looks_like_tls};
pub use crate::error::TlsError;
pub use crate::replay::PrefixedTcpStream;
pub use crate::tls_state::ProxyTlsState;
pub use crate::trust_store::{
    ca_bundle_file, ca_cert_file, combined_bundle, parse_pem_certs, BundleSearch,
};
pub use crate::upstream::{build_upstream_client_config, upstream_handshake};
