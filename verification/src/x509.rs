//! Certificates and keys as `rcgen` makes them.
//!
//! What the library sets in a certificate is modelled by [`CertProfile`]; the
//! calls into `rcgen` state their effect on it.

use rcgen::{Certificate, CertificateParams, KeyPair};
use vstd::prelude::*;
use vstd::utf8::{encode_utf8, is_ascii_chars};

use crate::pki::{key_format, reads_as, KeyFormat, MAX_PEM_TEXT};

verus! {

/// Attribute types of the names that the library writes.
#[derive(Clone, Copy, PartialEq, Eq, Structural, Debug)]
pub enum NameField {
    CommonName,
    OrganizationName,
}

/// Purposes that a certificate's key may be restricted to.
#[derive(Clone, Copy, PartialEq, Eq, Structural, Debug)]
pub enum KeyUsage {
    DigitalSignature,
    ContentCommitment,
    KeyEncipherment,
    DataEncipherment,
    KeyAgreement,
    KeyCertSign,
    CrlSign,
    EncipherOnly,
    DecipherOnly,
}

/// Whether a certificate may sign others, and how long a chain may grow below it.
#[derive(Clone, Copy, PartialEq, Eq, Structural, Debug)]
pub enum Authority {
    NotCa,
    ExplicitlyNotCa,
    Unconstrained,
    Constrained(u8),
}

/// A name that a certificate is valid for.
pub enum AltName {
    Dns(Seq<char>),
    Ip(Seq<u8>),
}

/// What is asked of a certificate. The rest (its validity, its serial number,
/// the way keys are identified) is as `rcgen` sets it by default.
pub struct CertProfile {
    /// Attributes of the subject, in order; no type occurs twice.
    pub subject: Seq<(NameField, Seq<char>)>,
    pub alt_names: Seq<AltName>,
    pub authority: Authority,
    pub key_usages: Seq<KeyUsage>,
    /// Whether the certificate identifies the key that signed it.
    pub authority_key_id: bool,
}

/// What an issued certificate holds.
pub struct CertContents {
    pub der: Seq<u8>,
    pub profile: CertProfile,
    /// Public key of the subject.
    pub subject_key: Seq<u8>,
    /// Attributes of the issuer's name, in order.
    pub issuer: Seq<(NameField, Seq<char>)>,
    /// Public key of the pair that signed the certificate.
    pub signing_key: Seq<u8>,
}

/// `rcgen::KeyPair`, carried as it is.
#[verifier::external_type_specification]
#[verifier::external_body]
pub struct ExKeyPair(rcgen::KeyPair);

/// `rcgen::Certificate`, carried as it is.
#[verifier::external_type_specification]
#[verifier::external_body]
pub struct ExCertificate(rcgen::Certificate);

/// `rcgen::CertificateParams`, read through [`params_profile`].
#[verifier::external_type_specification]
#[verifier::external_body]
pub struct ExCertificateParams(rcgen::CertificateParams);

/// `rcgen::Error`, carried as it is.
#[verifier::external_type_specification]
#[verifier::external_body]
pub struct ExRcgenError(rcgen::Error);

/// What the parameters ask of a certificate.
pub uninterp spec fn params_profile(params: CertificateParams) -> CertProfile;

/// Nothing that the parameters hold, whether or not it is part of the profile,
/// is beyond what DER can write: its dates lie in the years 0 to 9999, each
/// identifier has two components at least, and the like.
pub uninterp spec fn encodable(params: CertificateParams) -> bool;

/// What the certificate holds.
pub uninterp spec fn certificate_contents(certificate: Certificate) -> CertContents;

/// The public half of the pair, as `KeyPair::public_key_raw` gives it.
pub uninterp spec fn public_key(pair: KeyPair) -> Seq<u8>;

/// The pair in DER, as `KeyPair::serialize_der` gives it, where the private
/// half is at hand.
pub uninterp spec fn key_pair_der(pair: KeyPair) -> Option<Seq<u8>>;

/// The octets of the IP address that the text writes, if it writes one, as
/// `IpAddr::from_str` reads it.
pub uninterp spec fn ip_octets(text: Seq<char>) -> Option<Seq<u8>>;

/// The PEM text of a certificate, with the given line ending.
pub uninterp spec fn pem_encoding(der: Seq<u8>, newline: Seq<char>) -> Seq<char>;

/// What freshly made parameters ask for.
pub open spec fn default_profile() -> CertProfile {
    CertProfile {
        subject: seq![(NameField::CommonName, "rcgen self signed cert"@)],
        alt_names: Seq::empty(),
        authority: Authority::NotCa,
        key_usages: Seq::empty(),
        authority_key_id: false,
    }
}

/// The subject with an attribute set: in its place where the type occurs, at
/// the end where it does not.
pub open spec fn with_attribute(
    subject: Seq<(NameField, Seq<char>)>,
    field: NameField,
    value: Seq<char>,
) -> Seq<(NameField, Seq<char>)>
    decreases subject.len(),
{
    if subject.len() == 0 {
        seq![(field, value)]
    } else if subject[0].0 == field {
        subject.update(0, (field, value))
    } else {
        seq![subject[0]] + with_attribute(subject.skip(1), field, value)
    }
}

/// The name that a certificate for `host` is valid for: an IP address where
/// `host` writes one, a DNS name otherwise.
pub open spec fn alt_name(host: Seq<char>) -> AltName {
    match ip_octets(host) {
        Some(octets) => AltName::Ip(octets),
        None => AltName::Dns(host),
    }
}

/// `KeyPair::generate`: a fresh key pair, whose private half is at hand and is
/// written as PKCS#8. Whether one can be had depends on chance.
pub assume_specification[ KeyPair::generate ]() -> (pair: Result<KeyPair, rcgen::Error>)
    ensures
        pair matches Ok(pair) ==> key_pair_der(pair) matches Some(der) && key_format(der) == Some(
            KeyFormat::Pkcs8,
        ),
;

/// `KeyPair::serialize_der`: the pair in DER. It panics on a pair whose
/// private half is not at hand.
pub assume_specification[ KeyPair::serialize_der ](pair: &KeyPair) -> (der: Vec<u8>)
    requires
        key_pair_der(*pair) is Some,
    ensures
        Some(der@) == key_pair_der(*pair),
;

/// `CertificateParams::default`: parameters that ask for a placeholder common
/// name and nothing else.
#[verifier::external_body]
pub(crate) fn default_params() -> (params: CertificateParams)
    ensures
        params_profile(params) == default_profile(),
        encodable(params),
{
    CertificateParams::default()
}

/// `CertificateParams::new`: as the default, and valid for the given names.
/// It refuses a name that is not ASCII.
#[verifier::external_body]
pub(crate) fn params_for(names: Vec<String>) -> (params: Result<CertificateParams, rcgen::Error>)
    ensures
        params is Ok <==> forall|i: int|
            0 <= i < names@.len() ==> is_ascii_chars((#[trigger] names@[i])@),
        params matches Ok(params) ==> params_profile(params) == (CertProfile {
            alt_names: names@.map_values(
                |name: String|
                    match ip_octets(name@) {
                        Some(octets) => AltName::Ip(octets),
                        None => AltName::Dns(name@),
                    },
            ),
            ..default_profile()
        }),
        params matches Ok(params) ==> encodable(params),
{
    CertificateParams::new(names)
}

/// `DistinguishedName::push` on the subject's name: sets an attribute.
#[verifier::external_body]
pub(crate) fn set_attribute(params: &mut CertificateParams, field: NameField, value: &str)
    ensures
        params_profile(*final(params)) == (CertProfile {
            subject: with_attribute(params_profile(*old(params)).subject, field, value@),
            ..params_profile(*old(params))
        }),
        encodable(*final(params)) == encodable(*old(params)),
{
    let ty = match field {
        NameField::CommonName => rcgen::DnType::CommonName,
        NameField::OrganizationName => rcgen::DnType::OrganizationName,
    };
    params.distinguished_name.push(ty, value);
}

/// Sets the `is_ca` field of the parameters.
#[verifier::external_body]
pub(crate) fn set_authority(params: &mut CertificateParams, authority: Authority)
    ensures
        params_profile(*final(params)) == (CertProfile {
            authority,
            ..params_profile(*old(params))
        }),
        encodable(*final(params)) == encodable(*old(params)),
{
    params.is_ca = match authority {
        Authority::NotCa => rcgen::IsCa::NoCa,
        Authority::ExplicitlyNotCa => rcgen::IsCa::ExplicitNoCa,
        Authority::Unconstrained => rcgen::IsCa::Ca(rcgen::BasicConstraints::Unconstrained),
        Authority::Constrained(n) => rcgen::IsCa::Ca(rcgen::BasicConstraints::Constrained(n)),
    };
}

/// Sets the `key_usages` field of the parameters.
#[verifier::external_body]
pub(crate) fn set_key_usages(params: &mut CertificateParams, usages: Vec<KeyUsage>)
    ensures
        params_profile(*final(params)) == (CertProfile {
            key_usages: usages@,
            ..params_profile(*old(params))
        }),
        encodable(*final(params)) == encodable(*old(params)),
{
    params.key_usages = usages.iter().map(|usage| match usage {
        KeyUsage::DigitalSignature => rcgen::KeyUsagePurpose::DigitalSignature,
        KeyUsage::ContentCommitment => rcgen::KeyUsagePurpose::ContentCommitment,
        KeyUsage::KeyEncipherment => rcgen::KeyUsagePurpose::KeyEncipherment,
        KeyUsage::DataEncipherment => rcgen::KeyUsagePurpose::DataEncipherment,
        KeyUsage::KeyAgreement => rcgen::KeyUsagePurpose::KeyAgreement,
        KeyUsage::KeyCertSign => rcgen::KeyUsagePurpose::KeyCertSign,
        KeyUsage::CrlSign => rcgen::KeyUsagePurpose::CrlSign,
        KeyUsage::EncipherOnly => rcgen::KeyUsagePurpose::EncipherOnly,
        KeyUsage::DecipherOnly => rcgen::KeyUsagePurpose::DecipherOnly,
    }).collect();
}

/// Sets the `use_authority_key_identifier_extension` field of the parameters.
#[verifier::external_body]
pub(crate) fn set_authority_key_id(params: &mut CertificateParams, used: bool)
    ensures
        params_profile(*final(params)) == (CertProfile {
            authority_key_id: used,
            ..params_profile(*old(params))
        }),
        encodable(*final(params)) == encodable(*old(params)),
{
    params.use_authority_key_identifier_extension = used;
}

/// `CertificateParams::self_signed`: a certificate of the pair's public key
/// that the pair itself signs. The DER depends on chance, and signing may fail.
/// It panics on parameters that DER cannot write, and it runs foreign code where
/// the private half of the pair is not at hand.
pub assume_specification[ CertificateParams::self_signed ](
    params: CertificateParams,
    pair: &KeyPair,
) -> (certificate: Result<Certificate, rcgen::Error>)
    requires
        encodable(params),
        key_pair_der(*pair) is Some,
    ensures
        certificate matches Ok(certificate) ==> {
            let contents = certificate_contents(certificate);
            &&& contents.profile == params_profile(params)
            &&& contents.subject_key == public_key(*pair)
            &&& contents.issuer == params_profile(params).subject
            &&& contents.signing_key == public_key(*pair)
        },
;

/// `CertificateParams::signed_by`: a certificate of `pair`'s public key, issued
/// under the name of `issuer` and signed by `issuer_pair`. The DER depends on
/// chance, and signing may fail. It panics on parameters that DER cannot write,
/// and it runs foreign code where the private half of a pair is not at hand.
#[verifier::external_body]
pub(crate) fn signed_by(
    params: CertificateParams,
    pair: &KeyPair,
    issuer: &Certificate,
    issuer_pair: &KeyPair,
) -> (certificate: Result<Certificate, rcgen::Error>)
    requires
        encodable(params),
        key_pair_der(*pair) is Some,
        key_pair_der(*issuer_pair) is Some,
    ensures
        certificate matches Ok(certificate) ==> {
            let contents = certificate_contents(certificate);
            &&& contents.profile == params_profile(params)
            &&& contents.subject_key == public_key(*pair)
            &&& contents.issuer == certificate_contents(*issuer).profile.subject
            &&& contents.signing_key == public_key(*issuer_pair)
        },
{
    params.signed_by(pair, issuer, issuer_pair)
}

/// `Certificate::der`: the certificate in DER.
#[verifier::external_body]
pub(crate) fn certificate_der(certificate: &Certificate) -> (der: Vec<u8>)
    ensures
        der@ == certificate_contents(*certificate).der,
{
    certificate.der().to_vec()
}

/// `text` stands between the lines that mark the beginning and the end of a
/// certificate, with the given line ending.
pub open spec fn framed_as_certificate(text: Seq<char>, newline: Seq<char>) -> bool {
    &&& ("-----BEGIN CERTIFICATE-----"@ + newline).is_prefix_of(text)
    &&& ("-----END CERTIFICATE-----"@ + newline).is_suffix_of(text)
}

/// `Certificate::pem`: the certificate in PEM, between the lines that mark its
/// beginning and end. The line ending is that of the platform. Reading the text
/// with `rustls_pemfile::certs` gives the certificate back, where the text is not
/// too long to be read.
pub assume_specification[ Certificate::pem ](certificate: &Certificate) -> (pem: String)
    ensures
        ({
            &&& pem@ == pem_encoding(certificate_contents(*certificate).der, "\n"@)
            &&& framed_as_certificate(pem@, "\n"@)
        }) || ({
            &&& pem@ == pem_encoding(certificate_contents(*certificate).der, "\r\n"@)
            &&& framed_as_certificate(pem@, "\r\n"@)
        }),
        pem@.len() <= MAX_PEM_TEXT ==> reads_as(
            encode_utf8(pem@),
            certificate_contents(*certificate).der,
        ),
;

} // verus!
