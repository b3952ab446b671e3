//! What can go wrong.

use rustls::pki_types::InvalidDnsNameError;
use vstd::prelude::*;

verus! {

/// Why TLS could not be terminated or set up.
#[derive(Debug)]
pub enum TlsError {
    /// No key pair could be generated.
    KeyGeneration(rcgen::Error),
    /// No certificate can be valid for the host.
    HostName(rcgen::Error),
    /// A certificate could not be signed.
    Signing(rcgen::Error),
    /// The key of a leaf certificate is not in an encoding that TLS can use.
    LeafKey(&'static str),
    /// A leaf certificate and its key cannot serve TLS.
    ServerConfig(rustls::Error),
    /// The host is neither a DNS name nor an IP address.
    ServerName(InvalidDnsNameError),
    /// A section of a PEM text cannot be read.
    Pem(std::io::Error),
}

} // verus!
