//! Certificates and private keys in the form that `rustls` takes them, and
//! certificates in PEM.

use rustls::pki_types::{CertificateDer, PrivateKeyDer};
use vstd::prelude::*;

verus! {

/// Encodings of a private key.
#[derive(Clone, Copy, PartialEq, Eq, Structural, Debug)]
pub enum KeyFormat {
    Pkcs1,
    Sec1,
    Pkcs8,
}

/// A private key: its encoding and its bytes.
pub struct KeyContents {
    pub format: KeyFormat,
    pub der: Seq<u8>,
}

/// `rustls::pki_types::CertificateDer`, read through [`certificate_bytes`].
#[verifier::external_type_specification]
#[verifier::external_body]
pub struct ExCertificateDer<'a>(rustls::pki_types::CertificateDer<'a>);

/// `rustls::pki_types::PrivateKeyDer`, read through [`key_contents`].
#[verifier::external_type_specification]
#[verifier::external_body]
pub struct ExPrivateKeyDer<'a>(rustls::pki_types::PrivateKeyDer<'a>);

/// The bytes of the certificate.
pub uninterp spec fn certificate_bytes(certificate: CertificateDer<'static>) -> Seq<u8>;

/// The encoding and the bytes of the private key.
pub uninterp spec fn key_contents(key: PrivateKeyDer<'static>) -> KeyContents;

/// The encoding that the bytes of a private key are taken for, if any. All of
/// them open with a sequence, whose first element is a version of one byte; the
/// version, or that a sequence follows it, tells them apart.
pub open spec fn key_format(der: Seq<u8>) -> Option<KeyFormat> {
    let start = if der[1] < 0x80 {
        2
    } else {
        2 + (der[1] - 0x80)
    };
    if der.len() < 2 || der[0] != 0x30 || der.len() < start + 3 || der[start] != 0x02
        || der[start + 1] != 0x01 {
        None
    } else if der.len() > start + 3 && der[start + 3] == 0x30 {
        Some(KeyFormat::Pkcs8)
    } else if der[start + 2] == 0x00 {
        Some(KeyFormat::Pkcs1)
    } else if der[start + 2] == 0x01 {
        Some(KeyFormat::Sec1)
    } else {
        None
    }
}

/// The bytes of each certificate of a chain.
pub open spec fn chain_bytes(chain: Seq<CertificateDer<'static>>) -> Seq<Seq<u8>> {
    chain.map_values(|certificate: CertificateDer<'static>| certificate_bytes(certificate))
}

/// `std::io::Error`, carried as it is.
#[verifier::external_type_specification]
#[verifier::external_body]
pub struct ExIoError(std::io::Error);

/// The certificates of a PEM text, in order: the DER of each, or nothing where
/// a section could not be read, as `rustls_pemfile::certs` reads them.
pub uninterp spec fn pem_certificates(pem: Seq<u8>) -> Seq<Option<Seq<u8>>>;

/// Each section of the PEM text can be read.
pub open spec fn readable(pem: Seq<u8>) -> bool {
    !pem_certificates(pem).contains(None)
}

/// The text, ended by a line break unless it is empty or has one there.
pub open spec fn up_to_new_line(text: Seq<u8>) -> Seq<u8> {
    if text.len() > 0 && text.last() != 0x0a {
        text.push(0x0a)
    } else {
        text
    }
}

/// Reading `pem` gives the certificate with the given DER and no other, also on
/// a new line after a PEM text that can be read, whose certificates come first.
pub open spec fn reads_as(pem: Seq<u8>, der: Seq<u8>) -> bool {
    &&& pem_certificates(pem) == seq![Some(der)]
    &&& forall|before: Seq<u8>|
        readable(before) ==> pem_certificates(#[trigger] up_to_new_line(before) + pem)
            == pem_certificates(before).push(Some(der))
}

/// The longest PEM text of one certificate that can be read: `rustls_pemfile`
/// refuses more than 256 MiB between the first and the last line, and those take
/// up 54 characters at least.
pub const MAX_PEM_TEXT: usize = 0x1000_0036;

/// The DER of a certificate that was read.
pub open spec fn der_read(item: Result<CertificateDer<'static>, std::io::Error>) -> Option<
    Seq<u8>,
> {
    match item {
        Ok(certificate) => Some(certificate_bytes(certificate)),
        Err(_) => None,
    }
}

/// `rustls_pemfile::certs`: the certificates of a PEM text, sections of other
/// kinds left out, with an error for each section that cannot be read.
#[verifier::external_body]
pub(crate) fn read_pem(pem: &[u8]) -> (items: Vec<Result<CertificateDer<'static>, std::io::Error>>)
    ensures
        pem_certificates(pem@) == items@.map_values(
            |item: Result<CertificateDer<'static>, std::io::Error>| der_read(item),
        ),
{
    let mut reader = pem;
    rustls_pemfile::certs(&mut reader).collect()
}

/// `CertificateDer::from`: takes the bytes as they are.
#[verifier::external_body]
pub(crate) fn certificate_from(der: Vec<u8>) -> (certificate: CertificateDer<'static>)
    ensures
        certificate_bytes(certificate) == der@,
{
    CertificateDer::from(der)
}

/// `CertificateDer::clone`: keeps the bytes.
#[verifier::external_body]
pub(crate) fn clone_certificate(certificate: &CertificateDer<'static>) -> (copy: CertificateDer<
    'static,
>)
    ensures
        certificate_bytes(copy) == certificate_bytes(*certificate),
{
    certificate.clone()
}

/// `PrivateKeyDer::try_from`: tells the encoding by the first bytes and keeps
/// the bytes as they are, or refuses bytes that open like no private key.
#[verifier::external_body]
pub(crate) fn private_key_from(der: Vec<u8>) -> (key: Result<PrivateKeyDer<'static>, &'static str>)
    ensures
        match key {
            Ok(key) => key_format(der@) == Some(key_contents(key).format) && key_contents(key).der
                == der@,
            Err(_) => key_format(der@) is None,
        },
{
    PrivateKeyDer::try_from(der)
}

/// `PrivateKeyDer::clone_key`: keeps the encoding and the bytes.
#[verifier::external_body]
pub(crate) fn clone_key(key: &PrivateKeyDer<'static>) -> (copy: PrivateKeyDer<'static>)
    ensures
        key_contents(copy) == key_contents(*key),
{
    key.clone_key()
}

/// Copies a certificate chain.
pub(crate) fn clone_chain(chain: &Vec<CertificateDer<'static>>) -> (copy: Vec<
    CertificateDer<'static>,
>)
    ensures
        chain_bytes(copy@) == chain_bytes(chain@),
{
    let mut copy: Vec<CertificateDer<'static>> = Vec::new();
    for i in 0..chain.len()
        invariant
            copy@.len() == i,
            forall|j: int|
                0 <= j < i ==> certificate_bytes(#[trigger] copy@[j]) == certificate_bytes(
                    chain@[j],
                ),
    {
        copy.push(clone_certificate(&chain[i]));
    }
    assert(chain_bytes(copy@) =~= chain_bytes(chain@));
    copy
}

} // verus!
