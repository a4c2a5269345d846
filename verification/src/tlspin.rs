//! TLS material and certificate pinning for the QUIC and WSS transports.
//!
//! There is no CA in the picture: the server presents its persisted
//! self-signed certificate, and the client accepts it only when its SHA-256
//! fingerprint matches the pinned value. This is the same pinning model the
//! `client-config` command bakes into `server_cert_fingerprint`.

use vstd::prelude::*;
use vstd::string::*;

use crate::identity::{self, cert_fingerprint_from_der};
use crate::text::{self, same_text};

verus! {

// ---------------------------------------------------------------------------
// What the server presents
// ---------------------------------------------------------------------------

/// A private key in DER, whichever of the three encodings it has.
#[verifier::external_type_specification]
#[verifier::external_body]
pub struct ExPrivateKeyDer<'a>(rustls::pki_types::PrivateKeyDer<'a>);

/// What went wrong while reading PEM.
#[verifier::external_type_specification]
#[verifier::external_body]
pub struct ExIoError(std::io::Error);

/// The DER bytes of every certificate in a PEM text, in order; `None` if the text
/// is malformed.
pub uninterp spec fn pem_certificates(pem: Seq<char>) -> Option<Seq<Seq<u8>>>;

/// The first private key in a PEM text, if it holds one; `None` if the text is
/// malformed in front of it.
pub uninterp spec fn pem_private_key(pem: Seq<char>) -> Option<
    Option<rustls::pki_types::PrivateKeyDer<'static>>,
>;

/// Extracts the certificates from a PEM text: `rustls_pemfile::certs`.
///
/// Claims that success and the certificates depend on the text alone.
#[verifier::external_body]
fn certificates(pem: &str) -> (r: Result<Vec<Vec<u8>>, std::io::Error>)
    ensures
        r is Ok <==> pem_certificates(pem@) is Some,
        r matches Ok(certs) ==> pem_certificates(pem@) == Some(
            certs@.map_values(|c: Vec<u8>| c@),
        ),
{
    rustls_pemfile::certs(&mut pem.as_bytes()).map(|cert| Ok(cert?.to_vec())).collect()
}

/// Extracts the first private key from a PEM text: `rustls_pemfile::private_key`.
///
/// Claims that success and the key depend on the text alone.
#[verifier::external_body]
fn private_key(
    pem: &str,
) -> (r: Result<Option<rustls::pki_types::PrivateKeyDer<'static>>, std::io::Error>)
    ensures
        r is Ok <==> pem_private_key(pem@) is Some,
        r matches Ok(key) ==> pem_private_key(pem@) == Some(key),
{
    rustls_pemfile::private_key(&mut pem.as_bytes())
}

/// Whether a PEM text holds a private key; `None` if the text is malformed.
pub open spec fn pem_has_key(pem: Seq<char>) -> Option<bool> {
    match pem_private_key(pem) {
        Some(key) => Some(key is Some),
        None => None,
    }
}

/// Why a certificate and its key cannot be presented.
#[derive(Debug)]
pub enum MaterialError {
    /// The certificate's PEM is malformed.
    Certificate(std::io::Error),
    /// The private key's PEM is malformed.
    Key(std::io::Error),
    /// There is no private key.
    NoKey,
}

impl MaterialError {
    /// What is said of the error.
    pub open spec fn text(self) -> Seq<char> {
        match self {
            MaterialError::Certificate(_) => "parsing certificate PEM"@,
            MaterialError::Key(_) => "parsing private key PEM"@,
            MaterialError::NoKey => "no private key found in PEM"@,
        }
    }

    /// What is said of the error.
    pub fn message(&self) -> (s: String)
        ensures
            s@ == self.text(),
            s@ == match *self {
                MaterialError::Certificate(_) => "parsing certificate PEM"@,
                MaterialError::Key(_) => "parsing private key PEM"@,
                MaterialError::NoKey => "no private key found in PEM"@,
            },
    {
        match self {
            MaterialError::Certificate(_) => "parsing certificate PEM".to_owned(),
            MaterialError::Key(_) => "parsing private key PEM".to_owned(),
            MaterialError::NoKey => "no private key found in PEM".to_owned(),
        }
    }
}

/// What a server presents: the certificates in `cert_pem`, and the first private
/// key in `key_pem`. Fails if one of the two is malformed, the certificates first,
/// or if there is no key.
pub fn server_material(cert_pem: &str, key_pem: &str) -> (r: Result<
    (Vec<Vec<u8>>, rustls::pki_types::PrivateKeyDer<'static>),
    MaterialError,
>)
    ensures
        (r matches Err(e) && e is Certificate) <==> pem_certificates(cert_pem@) is None,
        (r matches Err(e) && e is Key) <==> pem_certificates(cert_pem@) is Some && pem_has_key(
            key_pem@,
        ) is None,
        (r matches Err(e) && e is NoKey) <==> pem_certificates(cert_pem@) is Some && pem_has_key(
            key_pem@,
        ) == Some(false),
        r matches Ok((certs, key)) ==> {
            &&& pem_certificates(cert_pem@) == Some(certs@.map_values(|c: Vec<u8>| c@))
            &&& pem_private_key(key_pem@) == Some(Some(key))
        },
        (r matches Err(e) && e is Key) <==> pem_certificates(cert_pem@) is Some && pem_private_key(
            key_pem@,
        ) is None,
        (r matches Err(e) && e is NoKey) <==> pem_certificates(cert_pem@) is Some
            && pem_private_key(key_pem@) is Some && pem_private_key(key_pem@)->0 is None,
{
    match certificates(cert_pem) {
        Ok(certs) => present(certs, private_key(key_pem)),
        Err(e) => Err(MaterialError::Certificate(e)),
    }
}

/// What a server presents, where its certificates are `certs` and looking for a
/// private key came to `key`.
pub fn present(
    certs: Vec<Vec<u8>>,
    key: Result<Option<rustls::pki_types::PrivateKeyDer<'static>>, std::io::Error>,
) -> (r: Result<(Vec<Vec<u8>>, rustls::pki_types::PrivateKeyDer<'static>), MaterialError>)
    ensures
        r == match key {
            Ok(Some(key)) => Ok((certs, key)),
            Ok(None) => Err(MaterialError::NoKey),
            Err(e) => Err(MaterialError::Key(e)),
        },
{
    match key {
        Ok(Some(key)) => Ok((certs, key)),
        Ok(None) => Err(MaterialError::NoKey),
        Err(e) => Err(MaterialError::Key(e)),
    }
}

// ---------------------------------------------------------------------------
// What the client accepts
// ---------------------------------------------------------------------------

/// What is said of a certificate whose fingerprint is not the pinned one.
pub open spec fn mismatch_text(actual: Seq<char>, pinned: Seq<char>) -> Seq<char> {
    "server certificate fingerprint "@ + actual + " does not match pinned "@ + pinned
}

/// A verifier that trusts one certificate, identified by its SHA-256
/// fingerprint. Hostname and CA chain are intentionally irrelevant — the pinned
/// fingerprint is the whole identity check.
#[derive(Debug)]
pub struct PinnedVerifier {
    /// The fingerprint, formatted `sha256:<hex>`.
    pub pinned: String,
}

impl PinnedVerifier {
    /// Accepts exactly the certificates whose fingerprint equals the pinned one;
    /// of any other, says what its fingerprint is.
    pub fn verify_server_cert(&self, end_entity: &[u8]) -> (r: Result<(), String>)
        ensures
            r is Ok <==> identity::fingerprint(end_entity@) == self.pinned@,
            r is Ok <==> self.pinned@ == "sha256:"@ + text::hex(
                identity::sha256_digest(end_entity@),
            ),
            r matches Err(text) ==> text@ == mismatch_text(
                identity::fingerprint(end_entity@),
                self.pinned@,
            ),
            r matches Err(text) ==> text@ == "server certificate fingerprint "@ + ("sha256:"@
                + text::hex(identity::sha256_digest(end_entity@))) + " does not match pinned "@
                + self.pinned@,
    {
        self.verify_fingerprint(cert_fingerprint_from_der(end_entity).as_str())
    }

    /// Accepts exactly the pinned fingerprint.
    pub fn verify_fingerprint(&self, actual: &str) -> (r: Result<(), String>)
        ensures
            r is Ok <==> actual@ == self.pinned@,
            r matches Err(text) ==> text@ == mismatch_text(actual@, self.pinned@),
            r matches Err(text) ==> text@ == "server certificate fingerprint "@ + actual@
                + " does not match pinned "@ + self.pinned@,
    {
        if same_text(actual, self.pinned.as_str()) {
            return Ok(());
        }
        let mut text = "server certificate fingerprint ".to_owned();
        text.append(actual);
        text.append(" does not match pinned ");
        text.append(self.pinned.as_str());
        Err(text)
    }
}

} // verus!
