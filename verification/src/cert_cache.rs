//! Leaf certificates for the hosts that sandbox clients ask for.

use std::sync::Arc;

use rcgen::{Certificate, CertificateParams, KeyPair};
use rustls::pki_types::{CertificateDer, PrivateKeyDer};
use vstd::hash_map::StringHashMap;
use vstd::prelude::*;
use vstd::utf8::is_ascii_chars;

use crate::ca::SandboxCa;
use crate::error::TlsError;
use crate::pki::{
    certificate_bytes, certificate_from, chain_bytes, key_contents, key_format, private_key_from,
};
use crate::x509::{
    alt_name, certificate_contents, certificate_der, encodable, ip_octets, key_pair_der, params_for,
    params_profile, public_key, set_attribute, set_authority_key_id, AltName, Authority,
    CertProfile, NameField,
};

verus! {

/// How many leaf certificates are kept at most.
pub const MAX_CACHED_CERTS: usize = 256;

/// What is asked of the certificate for `host`.
pub open spec fn leaf_profile(host: Seq<char>) -> CertProfile {
    CertProfile {
        subject: seq![(NameField::CommonName, host)],
        alt_names: seq![alt_name(host)],
        authority: Authority::NotCa,
        key_usages: Seq::empty(),
        authority_key_id: true,
    }
}

/// A leaf certificate chain and private key for a specific host.
pub struct CertifiedLeaf {
    pub cert_chain: Vec<CertificateDer<'static>>,
    pub private_key: PrivateKeyDer<'static>,
}

impl CertifiedLeaf {
    /// The chain is `certificate` and then the authority's own, and the
    /// private key is that of `pair`.
    pub open spec fn holds(&self, certificate: Certificate, pair: KeyPair, ca: SandboxCa) -> bool {
        &&& chain_bytes(self.cert_chain@) == seq![
            certificate_contents(certificate).der,
            ca.certificate().der,
        ]
        &&& key_pair_der(pair) == Some(key_contents(self.private_key).der)
        &&& key_format(key_contents(self.private_key).der) == Some(
            key_contents(self.private_key).format,
        )
    }

    /// The leaf is one that `ca` issued for `host`: its certificate is for
    /// `host`, of the public key that goes with its private key, and signed by
    /// the authority.
    pub open spec fn issued(&self, host: Seq<char>, ca: SandboxCa) -> bool {
        &&& is_ascii_chars(host)
        &&& exists|certificate: Certificate, pair: KeyPair| #[trigger]
            self.holds(certificate, pair, ca) && issued_certificate(certificate, pair, host, ca)
    }

    /// Puts together a leaf from the certificate that was signed for it.
    pub fn from_signed(
        certificate: Result<Certificate, rcgen::Error>,
        pair: &KeyPair,
        ca: &SandboxCa,
    ) -> (leaf: Result<Self, TlsError>)
        requires
            key_pair_der(*pair) is Some,
        ensures
            match certificate {
                Ok(certificate) => match leaf {
                    Ok(leaf) => leaf.holds(certificate, *pair, *ca),
                    Err(e) => e is LeafKey && key_format(key_pair_der(*pair)->0) is None,
                },
                Err(e) => leaf == Err::<Self, TlsError>(TlsError::Signing(e)),
            },
    {
        match certificate {
            Ok(certificate) => {
                let leaf_der = certificate_from(certificate_der(&certificate));
                let ca_der = ca.certificate_der();
                match private_key_from(pair.serialize_der()) {
                    Ok(private_key) => {
                        let leaf = CertifiedLeaf {
                            cert_chain: vec![leaf_der, ca_der],
                            private_key,
                        };
                        assert(chain_bytes(leaf.cert_chain@) =~= seq![
                            certificate_contents(certificate).der,
                            ca.certificate().der,
                        ]);
                        Ok(leaf)
                    },
                    Err(e) => Err(TlsError::LeafKey(e)),
                }
            },
            Err(e) => Err(TlsError::Signing(e)),
        }
    }
}

/// `certificate` is one that `ca` issued for `host` to the holder of `pair`.
pub open spec fn issued_certificate(
    certificate: Certificate,
    pair: KeyPair,
    host: Seq<char>,
    ca: SandboxCa,
) -> bool {
    let contents = certificate_contents(certificate);
    &&& contents.profile == leaf_profile(host)
    &&& contents.subject_key == public_key(pair)
    &&& contents.issuer == ca.certificate().profile.subject
    &&& contents.signing_key == public_key(ca.key())
}

/// `params_for` gave `params` for the names.
pub closed spec fn params_gave(
    names: Vec<String>,
    params: Result<CertificateParams, rcgen::Error>,
) -> bool {
    call_ensures(params_for, (names,), params)
}

/// Parameters come from the call of `params_for` with the same names.
proof fn params_come_from_the_names(
    names: Vec<String>,
    params: Result<CertificateParams, rcgen::Error>,
)
    ensures
        params_gave(names, params) == call_ensures(params_for, (names,), params),
{
}

/// How a leaf for `host` came out that `ca` was asked to issue to `pair`: by
/// what signing a certificate for the host gave, or by the name where that is
/// not ASCII.
pub open spec fn issuing(
    host: Seq<char>,
    ca: SandboxCa,
    pair: KeyPair,
    leaf: Result<CertifiedLeaf, TlsError>,
) -> bool {
    if is_ascii_chars(host) {
        exists|params: CertificateParams, certificate: Result<Certificate, rcgen::Error>| #[trigger]
            ca.signing_gave(params, pair, certificate) && params_profile(params) == leaf_profile(
                host,
            ) && match certificate {
                Ok(certificate) => match leaf {
                    Ok(leaf) => leaf.holds(certificate, pair, ca) && issued_certificate(
                        certificate,
                        pair,
                        host,
                        ca,
                    ),
                    Err(e) => e is LeafKey && key_format(key_pair_der(pair)->0) is None,
                },
                Err(e) => leaf == Err::<CertifiedLeaf, TlsError>(TlsError::Signing(e)),
            }
    } else {
        exists|names: Vec<String>, e: rcgen::Error| #[trigger]
            params_gave(names, Err(e)) && names@.len() == 1 && names@[0]@ == host && leaf == Err::<
                CertifiedLeaf,
                TlsError,
            >(TlsError::HostName(e))
    }
}

/// How a leaf for `host` came out that `ca` was asked to generate: by the key
/// pair that was drawn for it, or because none could be drawn.
pub open spec fn generating(
    host: Seq<char>,
    ca: SandboxCa,
    key: Result<KeyPair, rcgen::Error>,
    leaf: Result<CertifiedLeaf, TlsError>,
) -> bool {
    &&& call_ensures(KeyPair::generate, (), key)
    &&& match key {
        Ok(pair) => issuing(host, ca, pair, leaf),
        Err(e) => leaf == Err::<CertifiedLeaf, TlsError>(TlsError::KeyGeneration(e)),
    }
}

/// `leaf` was generated for `host` by `ca`, or is the error that came instead.
pub open spec fn generated_for(
    host: Seq<char>,
    ca: SandboxCa,
    leaf: Result<Arc<CertifiedLeaf>, TlsError>,
) -> bool {
    exists|key: Result<KeyPair, rcgen::Error>, generated: Result<CertifiedLeaf, TlsError>| #[trigger]
        generating(host, ca, key, generated) && match generated {
            Ok(generated) => leaf matches Ok(leaf) && *leaf == generated,
            Err(e) => leaf == Err::<Arc<CertifiedLeaf>, TlsError>(e),
        }
}

/// Parameters of the certificate for `hostname`; there are none for a name
/// that is not ASCII.
pub fn leaf_params(hostname: &str) -> (params: Result<CertificateParams, TlsError>)
    ensures
        match params {
            Ok(params) => {
                &&& is_ascii_chars(hostname@)
                &&& params_profile(params) == leaf_profile(hostname@)
                &&& encodable(params)
            },
            Err(e) => !is_ascii_chars(hostname@) && e is HostName,
        },
        params matches Err(e) ==> exists|names: Vec<String>, error: rcgen::Error| #[trigger]
            params_gave(names, Err(error)) && names@.len() == 1 && names@[0]@ == hostname@ && e
                == TlsError::HostName(error),
{
    let name = hostname.to_string();
    let names = vec![name];
    assert(names@[0] == name);
    let ghost asked = names;
    let made = params_for(names);
    assert(params_gave(asked, made));
    match made {
        Ok(mut params) => {
            assert(params_profile(params).alt_names =~= seq![alt_name(hostname@)]);
            set_attribute(&mut params, NameField::CommonName, hostname);
            set_authority_key_id(&mut params, true);
            assert(params_profile(params).subject =~= leaf_profile(hostname@).subject);
            Ok(params)
        },
        Err(e) => Err(TlsError::HostName(e)),
    }
}

/// The leaf certificates that are kept, by host.
pub type Leaves = Map<Seq<char>, Arc<CertifiedLeaf>>;

/// The leaves after room was made for one more: all of them, or none where the
/// cache is full.
pub open spec fn with_room(leaves: Leaves) -> Leaves {
    if leaves.len() >= MAX_CACHED_CERTS {
        Map::empty()
    } else {
        leaves
    }
}

/// Asking for the leaf of `host`: the leaves afterwards and the answer.
/// `generated` is the new leaf, if one could be made; a kept leaf goes before it.
pub open spec fn ask(
    leaves: Leaves,
    host: Seq<char>,
    generated: Option<Arc<CertifiedLeaf>>,
) -> (Leaves, Option<Arc<CertifiedLeaf>>) {
    if leaves.contains_key(host) {
        (leaves, Some(leaves[host]))
    } else {
        match generated {
            Some(leaf) => (with_room(leaves).insert(host, leaf), Some(leaf)),
            None => (with_room(leaves), None),
        }
    }
}

/// Asking `ca` for the leaf of `host` was answered by `leaf`, and made the leaves
/// `after` of those `before`.
pub open spec fn answered(
    before: Leaves,
    after: Leaves,
    host: Seq<char>,
    ca: SandboxCa,
    leaf: Result<Arc<CertifiedLeaf>, TlsError>,
) -> bool {
    &&& (after, leaf.ok()) == ask(before, host, leaf.ok())
    &&& !before.contains_key(host) ==> generated_for(host, ca, leaf)
}

/// Cache of per-host leaf certificates signed by the sandbox CA.
pub struct CertCache {
    ca: SandboxCa,
    cache: StringHashMap<Arc<CertifiedLeaf>>,
}

impl CertCache {
    /// The authority that signs the leaves.
    pub closed spec fn authority(&self) -> SandboxCa {
        self.ca
    }

    /// The leaves that are kept.
    pub closed spec fn leaves(&self) -> Leaves {
        self.cache@
    }

    /// At most [`MAX_CACHED_CERTS`] leaves are kept, and each is one that the
    /// authority issued for the host it is kept for.
    #[verifier::type_invariant]
    pub open spec fn wf(&self) -> bool {
        &&& self.leaves().dom().finite()
        &&& self.leaves().len() <= MAX_CACHED_CERTS
        &&& forall|host: Seq<char>| #[trigger]
            self.leaves().contains_key(host) ==> self.leaves()[host].issued(host, self.authority())
    }

    /// Creates a new cert cache with the given CA.
    pub fn new(ca: SandboxCa) -> (cache: Self)
        ensures
            cache.wf(),
            cache.authority() == ca,
            cache.leaves() == Leaves::empty(),
    {
        CertCache { ca, cache: StringHashMap::new() }
    }

    /// How many leaves are kept.
    pub fn len(&self) -> (n: usize)
        ensures
            n == self.leaves().len(),
    {
        self.cache.len()
    }

    /// The leaf that is kept for the host, if there is one.
    pub fn lookup(&self, hostname: &str) -> (leaf: Option<Arc<CertifiedLeaf>>)
        ensures
            leaf == (if self.leaves().contains_key(hostname@) {
                Some(self.leaves()[hostname@])
            } else {
                None
            }),
    {
        match self.cache.get(hostname) {
            Some(leaf) => Some(Arc::clone(leaf)),
            None => None,
        }
    }

    /// Makes room for one more leaf: drops all of them where the cache is full.
    pub fn make_room(&mut self)
        ensures
            final(self).authority() == old(self).authority(),
            final(self).leaves() == with_room(old(self).leaves()),
            final(self).wf(),
    {
        proof {
            use_type_invariant(&*self);
        }
        if self.cache.len() >= MAX_CACHED_CERTS {
            self.cache = StringHashMap::new();
        }
    }

    /// Keeps a leaf that was generated for the host, where there is room for
    /// it, and hands it on.
    pub fn record(&mut self, hostname: &str, generated: Result<CertifiedLeaf, TlsError>) -> (leaf:
        Result<Arc<CertifiedLeaf>, TlsError>)
        requires
            generated matches Ok(leaf) ==> {
                &&& old(self).leaves().len() < MAX_CACHED_CERTS
                &&& leaf.issued(hostname@, old(self).authority())
            },
        ensures
            final(self).wf(),
            final(self).authority() == old(self).authority(),
            match generated {
                Ok(generated) => {
                    &&& leaf matches Ok(leaf)
                    &&& *leaf == generated
                    &&& final(self).leaves() == old(self).leaves().insert(hostname@, leaf)
                },
                Err(e) => {
                    &&& leaf == Err::<Arc<CertifiedLeaf>, TlsError>(e)
                    &&& final(self).leaves() == old(self).leaves()
                },
            },
    {
        proof {
            use_type_invariant(&*self);
        }
        match generated {
            Ok(generated) => {
                let leaf = Arc::new(generated);
                let mut leaves = StringHashMap::new();
                std::mem::swap(&mut leaves, &mut self.cache);
                leaves.insert(hostname.to_string(), Arc::clone(&leaf));
                self.cache = leaves;
                Ok(leaf)
            },
            Err(e) => Err(e),
        }
    }

    /// Gets or generates a leaf certificate for the given host.
    pub fn get_or_generate(&mut self, hostname: &str) -> (leaf: Result<
        Arc<CertifiedLeaf>,
        TlsError,
    >)
        ensures
            final(self).wf(),
            final(self).authority() == old(self).authority(),
            (final(self).leaves(), leaf.ok()) == ask(old(self).leaves(), hostname@, leaf.ok()),
            answered(
                old(self).leaves(),
                final(self).leaves(),
                hostname@,
                old(self).authority(),
                leaf,
            ),
            match leaf {
                Ok(leaf) => leaf.issued(hostname@, old(self).authority()),
                Err(e) => {
                    ||| e is KeyGeneration
                    ||| e is HostName && !is_ascii_chars(hostname@)
                    ||| e is Signing && is_ascii_chars(hostname@)
                },
            },
    {
        proof {
            use_type_invariant(&*self);
        }
        if let Some(leaf) = self.lookup(hostname) {
            return Ok(leaf);
        }
        self.make_room();
        let generated = self.generate_leaf(hostname);
        self.record(hostname, generated)
    }

    /// Generates a new leaf certificate for the given host.
    pub fn generate_leaf(&self, hostname: &str) -> (leaf: Result<CertifiedLeaf, TlsError>)
        ensures
            exists|key: Result<KeyPair, rcgen::Error>| #[trigger]
                generating(hostname@, self.authority(), key, leaf),
            match leaf {
                Ok(leaf) => leaf.issued(hostname@, self.authority()),
                Err(e) => {
                    ||| e is KeyGeneration
                    ||| e is HostName && !is_ascii_chars(hostname@)
                    ||| e is Signing && is_ascii_chars(hostname@)
                },
            },
    {
        let key = KeyPair::generate();
        let ghost drawn = key;
        let leaf = self.issue_leaf(hostname, key);
        assert(generating(hostname@, self.authority(), drawn, leaf));
        leaf
    }

    /// Issues a leaf certificate for the host to the holder of a key pair that
    /// was asked for.
    pub fn issue_leaf(&self, hostname: &str, key: Result<KeyPair, rcgen::Error>) -> (leaf: Result<
        CertifiedLeaf,
        TlsError,
    >)
        requires
            key matches Ok(pair) ==> key_pair_der(pair) is Some,
        ensures
            match key {
                Ok(pair) => match leaf {
                    Ok(leaf) => {
                        &&& leaf.issued(hostname@, self.authority())
                        &&& exists|certificate: Certificate| #[trigger]
                            leaf.holds(certificate, pair, self.authority())
                                && issued_certificate(
                                certificate,
                                pair,
                                hostname@,
                                self.authority(),
                            )
                    },
                    Err(e) => {
                        ||| e is HostName && !is_ascii_chars(hostname@)
                        ||| e is Signing && is_ascii_chars(hostname@)
                        ||| e is LeafKey && is_ascii_chars(hostname@) && key_format(
                            key_pair_der(pair)->0,
                        ) is None
                    },
                },
                Err(e) => leaf == Err::<CertifiedLeaf, TlsError>(TlsError::KeyGeneration(e)),
            },
            key matches Ok(pair) ==> issuing(hostname@, self.authority(), pair, leaf),
    {
        match key {
            Ok(pair) => match leaf_params(hostname) {
                Ok(params) => {
                    let certificate = self.ca.sign(params, &pair);
                    CertifiedLeaf::from_signed(certificate, &pair, &self.ca)
                },
                Err(e) => Err(e),
            },
            Err(e) => Err(TlsError::KeyGeneration(e)),
        }
    }
}

/// The chain of an issued leaf is its own certificate and the authority's.
pub proof fn issued_leaf_chains_to_authority(leaf: CertifiedLeaf, host: Seq<char>, ca: SandboxCa)
    requires
        leaf.issued(host, ca),
    ensures
        leaf.cert_chain@.len() == 2,
        certificate_bytes(leaf.cert_chain@[1]) == ca.certificate().der,
{
    let (certificate, pair) = choose|certificate: Certificate, pair: KeyPair| #[trigger]
        leaf.holds(certificate, pair, ca) && issued_certificate(certificate, pair, host, ca);
    let chain = chain_bytes(leaf.cert_chain@);
    assert(chain.len() == 2 && chain[1] == ca.certificate().der);
}

/// Asking twice for the same host gives the same leaf, and the second time
/// changes nothing, whatever else could have been generated.
pub proof fn asking_again_gives_same_leaf(
    leaves: Leaves,
    host: Seq<char>,
    leaf: Arc<CertifiedLeaf>,
    generated: Option<Arc<CertifiedLeaf>>,
)
    ensures
        ({
            let (kept, answer) = ask(leaves, host, Some(leaf));
            ask(kept, host, generated) == (kept, answer)
        }),
{
}

/// The cache never grows beyond its limit.
pub proof fn asking_keeps_limit(
    leaves: Leaves,
    host: Seq<char>,
    generated: Option<Arc<CertifiedLeaf>>,
)
    requires
        leaves.dom().finite(),
        leaves.len() <= MAX_CACHED_CERTS,
    ensures
        ask(leaves, host, generated).0.dom().finite(),
        ask(leaves, host, generated).0.len() <= MAX_CACHED_CERTS,
{
}

/// Asking a full cache for a new host leaves that host's leaf alone in it.
pub proof fn asking_full_cache_clears_it(
    leaves: Leaves,
    host: Seq<char>,
    leaf: Arc<CertifiedLeaf>,
)
    requires
        leaves.len() >= MAX_CACHED_CERTS,
        !leaves.contains_key(host),
    ensures
        ask(leaves, host, Some(leaf)).0 == map![host => leaf],
        ask(leaves, host, Some(leaf)).0.len() == 1,
{
}

/// While there is room, asking for one host keeps the leaves of the others.
pub proof fn asking_keeps_other_hosts(
    leaves: Leaves,
    host: Seq<char>,
    other: Seq<char>,
    generated: Option<Arc<CertifiedLeaf>>,
)
    requires
        leaves.len() < MAX_CACHED_CERTS,
        other != host,
    ensures
        ({
            let kept = ask(leaves, host, generated).0;
            &&& kept.contains_key(other) == leaves.contains_key(other)
            &&& kept.contains_key(other) ==> kept[other] == leaves[other]
        }),
{
}

/// A certificate that is issued for a host is valid for that host and no other
/// name: for the address where the host writes one, for the DNS name as it is
/// written otherwise. The host is also its common name. It may not sign others,
/// and it is signed by the authority, under the authority's name.
pub proof fn issued_certificate_is_for_the_host(
    certificate: Certificate,
    pair: KeyPair,
    host: Seq<char>,
    ca: SandboxCa,
)
    requires
        issued_certificate(certificate, pair, host, ca),
    ensures
        ({
            let contents = certificate_contents(certificate);
            &&& ip_octets(host) matches Some(octets) ==> contents.profile.alt_names == seq![
                AltName::Ip(octets),
            ]
            &&& ip_octets(host) is None ==> contents.profile.alt_names == seq![AltName::Dns(host)]
            &&& contents.profile.subject == seq![(NameField::CommonName, host)]
            &&& contents.profile.authority == Authority::NotCa
            &&& contents.profile.key_usages.len() == 0
            &&& contents.profile.authority_key_id
            &&& contents.subject_key == public_key(pair)
            &&& contents.issuer == ca.certificate().profile.subject
            &&& contents.signing_key == public_key(ca.key())
        }),
{
}

/// What is asked of a certificate tells the hosts apart: it is the same for two
/// hosts only where they are the same.
pub proof fn hosts_do_not_share_a_profile(a: Seq<char>, b: Seq<char>)
    requires
        leaf_profile(a) == leaf_profile(b),
    ensures
        a == b,
{
    assert(leaf_profile(a).subject[0] == (NameField::CommonName, a));
    assert(leaf_profile(b).subject[0] == (NameField::CommonName, b));
}

/// What is issued for a host is a certificate for it, then the authority's, and
/// the private key that goes with the public key in the first.
pub proof fn issued_leaf_holds_certificate_and_key(
    leaf: CertifiedLeaf,
    host: Seq<char>,
    ca: SandboxCa,
) -> (held: (Certificate, KeyPair))
    requires
        leaf.issued(host, ca),
    ensures
        ({
            let contents = certificate_contents(held.0);
            &&& leaf.cert_chain@.len() == 2
            &&& certificate_bytes(leaf.cert_chain@[0]) == contents.der
            &&& certificate_bytes(leaf.cert_chain@[1]) == ca.certificate().der
            &&& key_pair_der(held.1) == Some(key_contents(leaf.private_key).der)
            &&& key_format(key_contents(leaf.private_key).der) == Some(
                key_contents(leaf.private_key).format,
            )
            &&& contents.subject_key == public_key(held.1)
            &&& contents.signing_key == public_key(ca.key())
            &&& contents.profile.subject == seq![(NameField::CommonName, host)]
            &&& contents.profile.alt_names == seq![
                match ip_octets(host) {
                    Some(octets) => AltName::Ip(octets),
                    None => AltName::Dns(host),
                },
            ]
        }),
        forall|i: int| 0 <= i < host.len() ==> (#[trigger] host[i]) as u32 <= 0x7f,
{
    let (certificate, pair) = choose|certificate: Certificate, pair: KeyPair| #[trigger]
        leaf.holds(certificate, pair, ca) && issued_certificate(certificate, pair, host, ca);
    issued_certificate_is_for_the_host(certificate, pair, host, ca);
    let chain = chain_bytes(leaf.cert_chain@);
    assert(chain.len() == 2 && chain[0] == certificate_contents(certificate).der && chain[1]
        == ca.certificate().der);
    (certificate, pair)
}

/// Issuing fails only by the name, where that is not ASCII, by what signing a
/// certificate for this host and this key gave, or by a key that is in no known
/// encoding.
pub proof fn issuing_fails_by_name_signing_or_key_only(
    host: Seq<char>,
    ca: SandboxCa,
    pair: KeyPair,
    error: TlsError,
)
    requires
        issuing(host, ca, pair, Err(error)),
    ensures
        !is_ascii_chars(host) ==> exists|names: Vec<String>, e: rcgen::Error| #[trigger]
            params_gave(names, Err(e)) && names@.len() == 1 && names@[0]@ == host && error
                == TlsError::HostName(e),
        is_ascii_chars(host) && !(error is LeafKey && key_format(key_pair_der(pair)->0) is None)
            ==> exists|params: CertificateParams, e: rcgen::Error| #[trigger]
            ca.signing_gave(params, pair, Err(e)) && error == TlsError::Signing(e)
                && params_profile(params).subject == seq![(NameField::CommonName, host)]
                && params_profile(params).alt_names == seq![
                match ip_octets(host) {
                    Some(octets) => AltName::Ip(octets),
                    None => AltName::Dns(host),
                },
            ],
{
    if is_ascii_chars(host) && !(error is LeafKey && key_format(key_pair_der(pair)->0) is None) {
        let (params, certificate) = choose|
            params: CertificateParams,
            certificate: Result<Certificate, rcgen::Error>,
        | #[trigger]
            ca.signing_gave(params, pair, certificate) && params_profile(params) == leaf_profile(
                host,
            ) && match certificate {
                Ok(certificate) => false,
                Err(e) => error == TlsError::Signing(e),
            };
        assert(ca.signing_gave(params, pair, Err(certificate->Err_0)));
    }
}

/// A leaf that is issued to a pair is what signing a certificate for this host
/// and this pair gave, and holds the pair's own private key.
pub proof fn issued_leaf_is_what_was_signed(
    host: Seq<char>,
    ca: SandboxCa,
    pair: KeyPair,
    leaf: CertifiedLeaf,
)
    requires
        issuing(host, ca, pair, Ok(leaf)),
    ensures
        is_ascii_chars(host),
        key_pair_der(pair) == Some(key_contents(leaf.private_key).der),
        leaf.cert_chain@.len() == 2,
        certificate_bytes(leaf.cert_chain@[1]) == ca.certificate().der,
        exists|params: CertificateParams, certificate: Certificate| #[trigger]
            ca.signing_gave(params, pair, Ok(certificate)) && params_profile(params).subject
                == seq![(NameField::CommonName, host)] && certificate_bytes(leaf.cert_chain@[0])
                == certificate_contents(certificate).der,
{
    let (params, certificate) = choose|
        params: CertificateParams,
        certificate: Result<Certificate, rcgen::Error>,
    | #[trigger]
        ca.signing_gave(params, pair, certificate) && params_profile(params) == leaf_profile(host)
            && match certificate {
            Ok(certificate) => leaf.holds(certificate, pair, ca),
            Err(e) => false,
        };
    assert(ca.signing_gave(params, pair, Ok(certificate->Ok_0)));
    let chain = chain_bytes(leaf.cert_chain@);
    assert(chain.len() == 2 && chain[0] == certificate_contents(certificate->Ok_0).der && chain[1]
        == ca.certificate().der);
}

/// Every leaf that is generated has a key pair drawn for it, and an error comes
/// only where none could be drawn, or from issuing to the one that was.
pub proof fn leaf_has_a_drawn_key(
    host: Seq<char>,
    ca: SandboxCa,
    leaf: Result<Arc<CertifiedLeaf>, TlsError>,
) -> (key: Result<KeyPair, rcgen::Error>)
    requires
        generated_for(host, ca, leaf),
    ensures
        call_ensures(KeyPair::generate, (), key),
        key matches Err(e) ==> leaf == Err::<Arc<CertifiedLeaf>, TlsError>(
            TlsError::KeyGeneration(e),
        ),
        key matches Ok(pair) ==> match leaf {
            Ok(leaf) => {
                &&& issuing(host, ca, pair, Ok(*leaf))
                &&& key_pair_der(pair) == Some(key_contents(leaf.private_key).der)
            },
            Err(e) => issuing(host, ca, pair, Err(e)) && !(e is KeyGeneration),
        },
{
    let (key, generated) = choose|
        key: Result<KeyPair, rcgen::Error>,
        generated: Result<CertifiedLeaf, TlsError>,
    | #[trigger]
        generating(host, ca, key, generated) && match generated {
            Ok(generated) => leaf matches Ok(leaf) && *leaf == generated,
            Err(e) => leaf == Err::<Arc<CertifiedLeaf>, TlsError>(e),
        };
    if let Ok(pair) = key {
        if generated is Ok {
            issued_leaf_is_what_was_signed(host, ca, pair, generated->Ok_0);
        }
    }
    key
}

/// An answer is the kept leaf, with nothing changed, or one that was generated.
pub proof fn answer_is_kept_or_generated(
    before: Leaves,
    after: Leaves,
    host: Seq<char>,
    ca: SandboxCa,
    leaf: Result<Arc<CertifiedLeaf>, TlsError>,
)
    requires
        answered(before, after, host, ca, leaf),
    ensures
        before.contains_key(host) ==> leaf == Ok::<Arc<CertifiedLeaf>, TlsError>(before[host])
            && after == before,
        !before.contains_key(host) ==> generated_for(host, ca, leaf),
        leaf matches Ok(leaf) ==> after.contains_key(host) && after[host] == leaf,
        leaf is Err ==> !after.contains_key(host),
{
}

/// A host whose leaf is kept gets that leaf, and the kept leaves stay as they
/// are, also where the cache is full.
pub proof fn kept_host_gets_its_leaf(
    leaves: Leaves,
    host: Seq<char>,
    generated: Option<Arc<CertifiedLeaf>>,
)
    requires
        leaves.contains_key(host),
    ensures
        ask(leaves, host, generated) == (leaves, Some(leaves[host])),
{
}

/// A host whose leaf is not kept gets the one that was generated, which is kept
/// from then on, beside all others while there are fewer than 256.
pub proof fn new_host_gets_generated_leaf(
    leaves: Leaves,
    host: Seq<char>,
    leaf: Arc<CertifiedLeaf>,
)
    requires
        leaves.dom().finite(),
        !leaves.contains_key(host),
    ensures
        ({
            let (kept, answer) = ask(leaves, host, Some(leaf));
            &&& answer == Some(leaf)
            &&& kept.contains_key(host) && kept[host] == leaf
            &&& leaves.len() < 256 ==> kept.len() == leaves.len() + 1 && leaves.submap_of(kept)
            &&& leaves.len() >= 256 ==> kept.len() == 1
        }),
{
}

/// Where no leaf could be generated there is no answer, and none is kept for
/// the host; the others stay while there are fewer than 256.
pub proof fn failure_keeps_nothing(leaves: Leaves, host: Seq<char>)
    requires
        !leaves.contains_key(host),
    ensures
        ({
            let (kept, answer) = ask(leaves, host, None);
            &&& answer is None
            &&& leaves.len() < 256 ==> kept == leaves
            &&& leaves.len() >= 256 ==> kept == Map::<Seq<char>, Arc<CertifiedLeaf>>::empty()
        }),
{
}

/// Making room empties the cache from 256 leaves on, and else leaves it alone.
pub proof fn room_is_made_at_the_limit(leaves: Leaves)
    ensures
        leaves.len() < 256 ==> with_room(leaves) == leaves,
        leaves.len() >= 256 ==> with_room(leaves) == Map::<Seq<char>, Arc<CertifiedLeaf>>::empty(),
{
}

/// Whatever is kept was issued by the authority for the host it is kept for, and
/// there are never more than 256 leaves.
pub proof fn kept_leaves_are_issued(cache: CertCache, host: Seq<char>)
    requires
        cache.wf(),
    ensures
        cache.leaves().dom().finite(),
        cache.leaves().len() <= 256,
        cache.leaves().contains_key(host) ==> {
            let leaf = cache.leaves()[host];
            &&& leaf.issued(host, cache.authority())
            &&& leaf.cert_chain@.len() == 2
            &&& certificate_bytes(leaf.cert_chain@[1]) == cache.authority().certificate().der
        },
{
    assert forall|leaf: CertifiedLeaf| #[trigger]
        leaf.issued(host, cache.authority()) implies leaf.cert_chain@.len() == 2
        && certificate_bytes(leaf.cert_chain@[1]) == cache.authority().certificate().der by {
        issued_leaf_chains_to_authority(leaf, host, cache.authority());
    }
}

} // verus!
