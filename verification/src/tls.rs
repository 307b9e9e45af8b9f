//! Trust decisions for outbound downloads: reading extra CA certificates
//! from PEM text, and how each trust source is treated when it fails.

use std::io::Cursor;

use vstd::prelude::*;

verus! {

/// The DER certificates `rustls_pemfile::certs` finds in PEM text, in
/// order, or nothing when a section cannot be read.
pub uninterp spec fn pem_certificates(pem: Seq<u8>) -> Option<Seq<Seq<u8>>>;

/// `rustls_pemfile::certs` over the whole input, collected up to the first
/// error: each certificate section's DER bytes, other sections skipped, or
/// nothing on a malformed section. The result is named by
/// [`pem_certificates`]; what it holds is not stated here.
#[verifier::external_body]
fn pem_certs(pem: &[u8]) -> (r: Option<Vec<Vec<u8>>>)
    ensures
        r is Some <==> pem_certificates(pem@) is Some,
        r matches Some(v) ==> pem_certificates(pem@) == Some(v@.map_values(|c: Vec<u8>| c@)),
{
    let mut reader = Cursor::new(pem);
    rustls_pemfile::certs(&mut reader)
        .map(|item| item.map(|der| der.as_ref().to_vec()))
        .collect::<Result<Vec<Vec<u8>>, _>>()
        .ok()
}

/// Why PEM text gave no certificates.
#[derive(Debug, Clone, Copy, PartialEq, Eq, Structural)]
pub enum PemError {
    /// A PEM section could not be read.
    Malformed,
}

pub open spec fn ders_view(v: Seq<Vec<u8>>) -> Seq<Seq<u8>> {
    v.map_values(|c: Vec<u8>| c@)
}

/// The outcome of a PEM read: the certificates, or [`PemError::Malformed`].
pub fn certificates_from(parsed: Option<Vec<Vec<u8>>>) -> (r: Result<Vec<Vec<u8>>, PemError>)
    ensures
        match parsed {
            Some(v) => r == Ok::<Vec<Vec<u8>>, PemError>(v),
            None => r == Err::<Vec<Vec<u8>>, PemError>(PemError::Malformed),
        },
{
    match parsed {
        Some(v) => Ok(v),
        None => Err(PemError::Malformed),
    }
}

/// Reads the certificates in the contents of a PEM file.
pub fn parse_pem_certificates(pem: &[u8]) -> (r: Result<Vec<Vec<u8>>, PemError>)
    ensures
        match pem_certificates(pem@) {
            Some(certs) => (r matches Ok(v) && ders_view(v@) == certs),
            None => r == Err::<Vec<Vec<u8>>, PemError>(PemError::Malformed),
        },
{
    certificates_from(pem_certs(pem))
}

/// Where extra trusted certificates come from.
#[derive(Debug, Clone, Copy, PartialEq, Eq, Structural)]
pub enum CertSource {
    /// The file named by `SSL_CERT_FILE`.
    SslCertFile,
    /// A file given with `--ca-cert`.
    CaCertFlag,
}

/// What a source that cannot be read or parsed leads to.
#[derive(Debug, Clone, Copy, PartialEq, Eq, Structural)]
pub enum CertFailure {
    /// Warn on stderr and go on without it.
    Skip,
    /// Stop with an error: the user asked for it explicitly.
    Abort,
}

/// A bad `SSL_CERT_FILE` is skipped with a warning; a bad `--ca-cert` is a
/// hard error.
pub fn on_cert_failure(source: CertSource) -> (r: CertFailure)
    ensures
        r == (match source {
            CertSource::SslCertFile => CertFailure::Skip,
            CertSource::CaCertFlag => CertFailure::Abort,
        }),
{
    match source {
        CertSource::SslCertFile => CertFailure::Skip,
        CertSource::CaCertFlag => CertFailure::Abort,
    }
}

/// The bundled Mozilla roots are added exactly when the OS trust store
/// yielded no usable certificate.
pub fn needs_bundled_roots(os_roots_added: usize) -> (r: bool)
    ensures
        r == (os_roots_added == 0),
{
    os_roots_added == 0
}

} // verus!
