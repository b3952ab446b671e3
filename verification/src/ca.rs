//! The ephemeral certificate authority of a sandbox.

use rcgen::{Certificate, CertificateParams, KeyPair};
use rustls::pki_types::CertificateDer;
use vstd::prelude::*;
use vstd::utf8::encode_utf8;

use crate::error::TlsError;
use crate::pki::{
    certificate_bytes, certificate_from, pem_certificates, reads_as, MAX_PEM_TEXT,
};
use crate::x509::{
    certificate_contents, certificate_der, default_params, encodable, framed_as_certificate,
    key_pair_der, params_profile, pem_encoding, public_key, set_attribute, set_authority,
    set_key_usages, signed_by, with_attribute, Authority, CertContents, CertProfile, KeyUsage, NameField,
};

verus! {

/// Common name of the authority.
pub const CA_COMMON_NAME: &'static str = "OpenShell Sandbox CA";

/// Organization of the authority.
pub const CA_ORGANIZATION: &'static str = "OpenShell";

/// What is asked of the authority's certificate: it may sign certificates and
/// revocation lists, without a limit on the chain below it.
pub open spec fn ca_profile() -> CertProfile {
    CertProfile {
        subject: seq![
            (NameField::CommonName, CA_COMMON_NAME@),
            (NameField::OrganizationName, CA_ORGANIZATION@),
        ],
        alt_names: Seq::empty(),
        authority: Authority::Unconstrained,
        key_usages: seq![KeyUsage::KeyCertSign, KeyUsage::CrlSign],
        authority_key_id: false,
    }
}

/// `text` is the PEM text of a certificate with the given DER: between the
/// lines that mark its beginning and end, with one line ending throughout. It
/// reads as the certificate, where it is not too long to be read.
pub open spec fn is_pem_of(text: Seq<char>, der: Seq<u8>) -> bool {
    &&& {
        ||| text == pem_encoding(der, "\n"@) && framed_as_certificate(text, "\n"@)
        ||| text == pem_encoding(der, "\r\n"@) && framed_as_certificate(text, "\r\n"@)
    }
    &&& text.len() <= MAX_PEM_TEXT ==> reads_as(encode_utf8(text), der)
}

/// Ephemeral CA certificate and key.
pub struct SandboxCa {
    ca_cert: Certificate,
    ca_key: KeyPair,
    ca_cert_pem: String,
}

impl SandboxCa {
    /// What the authority's certificate holds.
    pub closed spec fn certificate(&self) -> CertContents {
        certificate_contents(self.ca_cert)
    }

    /// The authority's key pair.
    pub closed spec fn key(&self) -> KeyPair {
        self.ca_key
    }

    /// The authority's certificate in PEM.
    pub closed spec fn pem(&self) -> Seq<char> {
        self.ca_cert_pem@
    }

    /// The private key is at hand, and the PEM text is that of the certificate.
    #[verifier::type_invariant]
    spec fn valid(self) -> bool {
        &&& key_pair_der(self.key()) is Some
        &&& is_pem_of(self.pem(), self.certificate().der)
    }

    /// `signed_by` gave `certificate` for the parameters and the pair, with the
    /// authority as the issuer.
    pub closed spec fn signing_gave(
        &self,
        params: CertificateParams,
        pair: KeyPair,
        certificate: Result<Certificate, rcgen::Error>,
    ) -> bool {
        call_ensures(signed_by, (params, &pair, &self.ca_cert, &self.ca_key), certificate)
    }

    /// Signing is the call of `signed_by` with the authority's own certificate and
    /// key, and nothing else.
    proof fn signing_is_by_the_authority(
        self,
        params: CertificateParams,
        pair: KeyPair,
        certificate: Result<Certificate, rcgen::Error>,
    )
        ensures
            self.signing_gave(params, pair, certificate) == call_ensures(
                signed_by,
                (params, &pair, &self.ca_cert, &self.ca_key),
                certificate,
            ),
            self.certificate() == certificate_contents(self.ca_cert),
            self.key() == self.ca_key,
            self.pem() == self.ca_cert_pem@,
    {
    }

    /// Generates a new ephemeral CA key pair and certificate.
    pub fn generate() -> (ca: Result<Self, TlsError>)
        ensures
            exists|key: Result<KeyPair, rcgen::Error>| #[trigger]
                call_ensures(KeyPair::generate, (), key) && match key {
                    Ok(key) => exists|
                        params: CertificateParams,
                        certificate: Result<Certificate, rcgen::Error>,
                    | #[trigger]
                        call_ensures(CertificateParams::self_signed, (params, &key), certificate)
                            && params_profile(params) == ca_profile() && match certificate {
                            Ok(certificate) => {
                                &&& ca matches Ok(ca)
                                &&& ca.key() == key
                                &&& ca.certificate() == certificate_contents(certificate)
                            },
                            Err(e) => ca == Err::<Self, TlsError>(TlsError::Signing(e)),
                        },
                    Err(e) => ca == Err::<Self, TlsError>(TlsError::KeyGeneration(e)),
                },
            match ca {
                Ok(ca) => {
                    &&& is_pem_of(ca.pem(), ca.certificate().der)
                    &&& ca.certificate().profile == ca_profile()
                    &&& ca.certificate().subject_key == public_key(ca.key())
                    &&& ca.certificate().issuer == ca_profile().subject
                    &&& ca.certificate().signing_key == public_key(ca.key())
                },
                Err(e) => e is KeyGeneration || e is Signing,
            },
    {
        Self::generate_with(KeyPair::generate())
    }

    /// Makes an authority of a key pair that was asked for.
    pub fn generate_with(key: Result<KeyPair, rcgen::Error>) -> (ca: Result<Self, TlsError>)
        requires
            key matches Ok(key) ==> key_pair_der(key) is Some,
        ensures
            match key {
                Ok(key) => match ca {
                    Ok(ca) => {
                        &&& ca.key() == key
                        &&& is_pem_of(ca.pem(), ca.certificate().der)
                        &&& ca.certificate().profile == ca_profile()
                        &&& ca.certificate().subject_key == public_key(key)
                        &&& ca.certificate().issuer == ca_profile().subject
                        &&& ca.certificate().signing_key == public_key(key)
                    },
                    Err(e) => e is Signing,
                },
                Err(e) => ca == Err::<Self, TlsError>(TlsError::KeyGeneration(e)),
            },
            key matches Ok(key) ==> exists|
                params: CertificateParams,
                certificate: Result<Certificate, rcgen::Error>,
            | #[trigger]
                call_ensures(CertificateParams::self_signed, (params, &key), certificate)
                    && params_profile(params) == ca_profile() && match certificate {
                    Ok(certificate) => {
                        &&& ca matches Ok(ca)
                        &&& ca.key() == key
                        &&& ca.certificate() == certificate_contents(certificate)
                    },
                    Err(e) => ca == Err::<Self, TlsError>(TlsError::Signing(e)),
                },
    {
        match key {
            Ok(key) => {
                let certificate = Self::params().self_signed(&key);
                Self::from_signed(key, certificate)
            },
            Err(e) => Err(TlsError::KeyGeneration(e)),
        }
    }

    /// Parameters of the authority's certificate.
    pub fn params() -> (params: CertificateParams)
        ensures
            params_profile(params) == ca_profile(),
            encodable(params),
    {
        let mut params = default_params();
        set_authority(&mut params, Authority::Unconstrained);
        set_attribute(&mut params, NameField::CommonName, CA_COMMON_NAME);
        set_attribute(&mut params, NameField::OrganizationName, CA_ORGANIZATION);
        set_key_usages(&mut params, vec![KeyUsage::KeyCertSign, KeyUsage::CrlSign]);
        proof {
            reveal_with_fuel(with_attribute, 3);
            assert(params_profile(params).subject =~= ca_profile().subject);
            assert(params_profile(params).key_usages =~= ca_profile().key_usages);
        }
        params
    }

    /// Makes an authority of its key pair and the certificate that was signed
    /// for it.
    pub fn from_signed(key: KeyPair, certificate: Result<Certificate, rcgen::Error>) -> (ca: Result<
        Self,
        TlsError,
    >)
        requires
            key_pair_der(key) is Some,
        ensures
            match certificate {
                Ok(certificate) => {
                    &&& ca matches Ok(ca)
                    &&& ca.key() == key
                    &&& ca.certificate() == certificate_contents(certificate)
                    &&& is_pem_of(ca.pem(), ca.certificate().der)
                },
                Err(e) => ca == Err::<Self, TlsError>(TlsError::Signing(e)),
            },
    {
        match certificate {
            Ok(ca_cert) => {
                let ca_cert_pem = ca_cert.pem();
                Ok(SandboxCa { ca_cert, ca_key: key, ca_cert_pem })
            },
            Err(e) => Err(TlsError::Signing(e)),
        }
    }

    /// Returns the CA certificate in DER format.
    pub(crate) fn certificate_der(&self) -> (der: CertificateDer<'static>)
        ensures
            certificate_bytes(der) == self.certificate().der,
    {
        certificate_from(certificate_der(&self.ca_cert))
    }

    /// Signs a leaf certificate of `pair`'s public key.
    pub(crate) fn sign(&self, params: CertificateParams, pair: &KeyPair) -> (certificate: Result<
        Certificate,
        rcgen::Error,
    >)
        requires
            encodable(params),
            key_pair_der(*pair) is Some,
        ensures
            certificate matches Ok(certificate) ==> {
                let contents = certificate_contents(certificate);
                &&& contents.profile == params_profile(params)
                &&& contents.subject_key == public_key(*pair)
                &&& contents.issuer == self.certificate().profile.subject
                &&& contents.signing_key == public_key(self.key())
            },
            self.signing_gave(params, *pair, certificate),
    {
        proof {
            use_type_invariant(self);
        }
        signed_by(params, pair, &self.ca_cert, &self.ca_key)
    }

    /// Returns the CA certificate in PEM format.
    pub fn cert_pem(&self) -> (pem: &str)
        ensures
            pem@ == self.pem(),
            is_pem_of(self.pem(), self.certificate().der),
    {
        proof {
            use_type_invariant(self);
        }
        self.ca_cert_pem.as_str()
    }

    /// Whether the CA certificate in PEM format is short enough to be read.
    pub fn pem_fits(&self) -> (fits: bool)
        ensures
            fits == (self.pem().len() <= MAX_PEM_TEXT),
            fits ==> reads_as(encode_utf8(self.pem()), self.certificate().der),
    {
        proof {
            use_type_invariant(self);
        }
        self.ca_cert_pem.as_str().unicode_len() <= MAX_PEM_TEXT
    }
}

/// The authority is named as the sandbox's, is valid for no host, may sign
/// certificates and revocation lists and nothing else, and sets no limit to the
/// chain below it.
pub proof fn authority_is_the_sandbox_ca(certificate: CertContents)
    requires
        certificate.profile == ca_profile(),
    ensures
        certificate.profile.subject == seq![
            (NameField::CommonName, "OpenShell Sandbox CA"@),
            (NameField::OrganizationName, "OpenShell"@),
        ],
        certificate.profile.alt_names.len() == 0,
        certificate.profile.authority == Authority::Unconstrained,
        certificate.profile.key_usages == seq![KeyUsage::KeyCertSign, KeyUsage::CrlSign],
        !certificate.profile.authority_key_id,
{
}

/// The PEM text of a certificate stands between the two lines that PEM has for
/// certificates, and reading it gives the certificate back.
pub proof fn pem_text_is_of_one_certificate(text: Seq<char>, der: Seq<u8>)
    requires
        is_pem_of(text, der),
    ensures
        "-----BEGIN CERTIFICATE-----"@.is_prefix_of(text),
        ("-----END CERTIFICATE-----"@ + "\n"@).is_suffix_of(text) || (
        "-----END CERTIFICATE-----"@ + "\r\n"@).is_suffix_of(text),
        text.len() <= 0x1000_0036 ==> pem_certificates(encode_utf8(text)) == seq![Some(der)],
{
    let begin = "-----BEGIN CERTIFICATE-----"@;
    assert((begin + "\n"@).subrange(0, begin.len() as int) =~= begin);
    assert((begin + "\r\n"@).subrange(0, begin.len() as int) =~= begin);
    assert(text.subrange(0, begin.len() as int) =~= begin);
}

} // verus!
