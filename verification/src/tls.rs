//! The TLS termination layer: classifies the PEM material the certificate
//! authority returned and builds the per-hostname server acceptor and the
//! public-roots client connector.
//!
//! The certificate PEM must open with an X.509 certificate entry; any
//! other entry kind is an error. The key PEM may carry any of the three
//! common private-key encodings (PKCS#1, PKCS#8, SEC1); anything else is
//! an error. rustls then decides whether the carried material itself is
//! acceptable — a decision that depends on the bytes alone.

use vstd::prelude::*;
use rustls_pemfile::Item;
use crate::error::{ProxyError, ProxyResult};

verus! {

#[verifier::external_type_specification]
#[verifier::external_body]
pub struct ExTlsAcceptor(tokio_rustls::TlsAcceptor);

#[verifier::external_type_specification]
#[verifier::external_body]
pub struct ExTlsConnector(tokio_rustls::TlsConnector);

/// The first recognised entry of a PEM text, its DER payload kept as
/// plain bytes.
pub enum PemItem {
    /// An X.509 certificate entry.
    Certificate(Vec<u8>),
    /// A PKCS#1 private key entry.
    Pkcs1(Vec<u8>),
    /// A PKCS#8 private key entry.
    Pkcs8(Vec<u8>),
    /// A SEC1 private key entry.
    Sec1(Vec<u8>),
    /// A recognised entry of any other kind.
    OtherItem,
    /// No entry at all.
    NoItem,
    /// Malformed PEM text.
    Unreadable,
}

/// The kind of a classified PEM entry, payload dropped.
#[derive(Clone, Copy, PartialEq, Eq, Structural, Debug)]
pub enum PemItemKind {
    Certificate,
    Pkcs1,
    Pkcs8,
    Sec1,
    OtherItem,
    NoItem,
    Unreadable,
}

/// The kind of a classified entry.
pub open spec fn kind_of(i: PemItem) -> PemItemKind {
    match i {
        PemItem::Certificate(_) => PemItemKind::Certificate,
        PemItem::Pkcs1(_) => PemItemKind::Pkcs1,
        PemItem::Pkcs8(_) => PemItemKind::Pkcs8,
        PemItem::Sec1(_) => PemItemKind::Sec1,
        PemItem::OtherItem => PemItemKind::OtherItem,
        PemItem::NoItem => PemItemKind::NoItem,
        PemItem::Unreadable => PemItemKind::Unreadable,
    }
}

/// The DER payload of a classified entry; empty for the kinds that carry
/// none.
pub open spec fn payload_of(i: PemItem) -> Seq<u8> {
    match i {
        PemItem::Certificate(d) => d@,
        PemItem::Pkcs1(d) => d@,
        PemItem::Pkcs8(d) => d@,
        PemItem::Sec1(d) => d@,
        PemItem::OtherItem => Seq::empty(),
        PemItem::NoItem => Seq::empty(),
        PemItem::Unreadable => Seq::empty(),
    }
}

/// The kind and DER payload of the first entry that
/// `rustls_pemfile::read_one` recognises in a PEM text: a function of the
/// bytes alone.
pub uninterp spec fn pem_first_entry(pem: Seq<u8>) -> (PemItemKind, Seq<u8>);

/// `k` is one of the three supported private-key encodings.
pub open spec fn is_supported_key_kind(k: PemItemKind) -> bool {
    k == PemItemKind::Pkcs1 || k == PemItemKind::Pkcs8 || k == PemItemKind::Sec1
}

/// Relies on rustls_pemfile::read_one: reads the first recognised PEM
/// section of the text (sections with unrecognised labels are skipped)
/// and classifies it; the entry kinds are the crate's own, and the
/// result depends on the bytes alone.
#[verifier::external_body]
fn read_first_pem_item(pem: &[u8]) -> (r: PemItem)
    ensures
        kind_of(r) == pem_first_entry(pem@).0,
        payload_of(r) == pem_first_entry(pem@).1,
{
    let mut reader = std::io::BufReader::new(pem);
    match rustls_pemfile::read_one(&mut reader) {
        Ok(Some(Item::X509Certificate(c))) => PemItem::Certificate(c.as_ref().to_vec()),
        Ok(Some(Item::Pkcs1Key(k))) => PemItem::Pkcs1(k.secret_pkcs1_der().to_vec()),
        Ok(Some(Item::Pkcs8Key(k))) => PemItem::Pkcs8(k.secret_pkcs8_der().to_vec()),
        Ok(Some(Item::Sec1Key(k))) => PemItem::Sec1(k.secret_sec1_der().to_vec()),
        Ok(Some(_)) => PemItem::OtherItem,
        Ok(None) => PemItem::NoItem,
        Err(_) => PemItem::Unreadable,
    }
}

/// A private key as DER bytes, in one of the three supported encodings.
pub enum KeyDer {
    Pkcs1(Vec<u8>),
    Pkcs8(Vec<u8>),
    Sec1(Vec<u8>),
}

/// The encoding of a key.
pub open spec fn key_kind(k: KeyDer) -> PemItemKind {
    match k {
        KeyDer::Pkcs1(_) => PemItemKind::Pkcs1,
        KeyDer::Pkcs8(_) => PemItemKind::Pkcs8,
        KeyDer::Sec1(_) => PemItemKind::Sec1,
    }
}

/// The DER bytes of a key.
pub open spec fn key_bytes(k: KeyDer) -> Seq<u8> {
    match k {
        KeyDer::Pkcs1(d) => d@,
        KeyDer::Pkcs8(d) => d@,
        KeyDer::Sec1(d) => d@,
    }
}

/// Whether rustls accepts the certificate and key material: a function
/// of the DER bytes and the key encoding alone, since the configuration
/// is otherwise built from compile-time constants.
pub uninterp spec fn tls_build_ok(cert_der: Seq<u8>, key_kind: PemItemKind, key_der: Seq<u8>) -> bool;

/// Relies on rustls's ServerConfig builder and tokio-rustls's TlsAcceptor:
/// builds a configuration over all protocol versions, requiring no client
/// certificate and presenting the single certificate with the key.
/// `with_single_cert` alone can reject the material, deterministically in
/// the bytes.
#[verifier::external_body]
fn build_tls_acceptor(cert_der: Vec<u8>, key: KeyDer) -> (r: Result<
    tokio_rustls::TlsAcceptor,
    ProxyError,
>)
    ensures
        r is Ok <==> tls_build_ok(cert_der@, key_kind(key), key_bytes(key)),
{
    let k = match key {
        KeyDer::Pkcs1(b) => rustls_pki_types::PrivateKeyDer::Pkcs1(b.into()),
        KeyDer::Pkcs8(b) => rustls_pki_types::PrivateKeyDer::Pkcs8(b.into()),
        KeyDer::Sec1(b) => rustls_pki_types::PrivateKeyDer::Sec1(b.into()),
    };
    let config = rustls::ServerConfig::builder_with_protocol_versions(&rustls::ALL_VERSIONS)
        .with_no_client_auth()
        .with_single_cert(vec![cert_der.into()], k)
        .map_err(|e| ProxyError::new(format!("{}", e)))?;
    Ok(tokio_rustls::TlsAcceptor::from(std::sync::Arc::new(config)))
}

/// Relies on webpki_roots::TLS_SERVER_ROOTS and rustls's ClientConfig
/// builder: a client-side connector trusting the public root bundle, with
/// no client authentication.
#[verifier::external_body]
pub fn connector_with_public_roots() -> tokio_rustls::TlsConnector {
    let mut roots = rustls::RootCertStore::empty();
    roots.extend(webpki_roots::TLS_SERVER_ROOTS.iter().cloned());
    let config = rustls::ClientConfig::builder()
        .with_root_certificates(roots)
        .with_no_client_auth();
    tokio_rustls::TlsConnector::from(std::sync::Arc::new(config))
}

/// Builds a server-side acceptor from the PEM material issued for one
/// hostname: it succeeds exactly when the certificate text opens with an
/// X.509 certificate entry, the key text with one of the three supported
/// key encodings, and rustls accepts what the two entries carry.
pub fn acceptor_for(cert_pem: &[u8], key_pem: &[u8]) -> (r: ProxyResult<tokio_rustls::TlsAcceptor>)
    ensures
        r is Ok <==> ({
            &&& pem_first_entry(cert_pem@).0 == PemItemKind::Certificate
            &&& is_supported_key_kind(pem_first_entry(key_pem@).0)
            &&& tls_build_ok(
                pem_first_entry(cert_pem@).1,
                pem_first_entry(key_pem@).0,
                pem_first_entry(key_pem@).1,
            )
        }),
{
    let cert = match read_first_pem_item(cert_pem) {
        PemItem::Certificate(c) => c,
        _ => {
            return Err(ProxyError::from_msg("unsupported certificate"));
        },
    };
    let key = match read_first_pem_item(key_pem) {
        PemItem::Pkcs1(k) => KeyDer::Pkcs1(k),
        PemItem::Pkcs8(k) => KeyDer::Pkcs8(k),
        PemItem::Sec1(k) => KeyDer::Sec1(k),
        _ => {
            return Err(ProxyError::from_msg("unsupported key type"));
        },
    };
    build_tls_acceptor(cert, key)
}

} // verus!
