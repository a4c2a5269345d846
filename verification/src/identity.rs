//! Server identity: a self-signed TLS certificate (shared by the QUIC and WSS
//! transports) and a Noise static keypair (used by the `NKpsk0` handshake on
//! every transport).
//!
//! Both artifacts are generated once and then persisted under the server's
//! state directory, so the fingerprints a client pins stay stable across
//! restarts. The directory appears here as a [`StateDir`], the contents of its
//! files.

use vstd::prelude::*;
use vstd::slice::slice_to_vec;
use vstd::string::*;

use crate::noise::{self, generate_keypair, parse_params, NOISE_PARAMS};
use crate::text::{self, append_hex, find_char, starts_with, to_chars, trim};

verus! {

/// The file that holds the TLS certificate.
pub const TLS_CERT_FILE: &'static str = "tls_cert.pem";

/// The file that holds the TLS private key, a secret.
pub const TLS_KEY_FILE: &'static str = "tls_key.pem";

/// The file that holds the Noise static private key, a secret.
pub const NOISE_PRIV_FILE: &'static str = "noise_static_priv.bin";

/// The file that holds the Noise static public key.
pub const NOISE_PUB_FILE: &'static str = "noise_static_pub.bin";

/// The name the self-signed certificate is made out to.
pub const CERT_NAME: &'static str = "rs_srp";

// ---------------------------------------------------------------------------
// Base64 and SHA-256
// ---------------------------------------------------------------------------

/// What went wrong inside `base64`.
#[verifier::external_type_specification]
#[verifier::external_body]
pub struct ExDecodeError(base64::DecodeError);

/// `data` in base64, standard alphabet, with padding.
pub uninterp spec fn base64_text(data: Seq<u8>) -> Seq<char>;

/// The bytes that `text` stands for in base64, standard alphabet, with padding.
pub uninterp spec fn base64_bytes(text: Seq<char>) -> Option<Seq<u8>>;

/// Whether `c` can occur in base64 text.
pub open spec fn is_base64_char(c: char) -> bool {
    ||| 'A' <= c <= 'Z'
    ||| 'a' <= c <= 'z'
    ||| '0' <= c <= '9'
    ||| c == '+'
    ||| c == '/'
    ||| c == '='
}

/// Whether `len` bytes in base64 fit in a string: four characters stand for every
/// three bytes, and no string is longer than `isize::MAX`.
pub open spec fn encodable(len: nat) -> bool {
    len <= isize::MAX / 4 * 3
}

/// Encodes bytes: `base64::Engine::encode` of the standard engine.
///
/// Claims that the text depends on the bytes alone, is made of the standard
/// alphabet and padding, four characters for every three bytes begun, and decodes
/// to the bytes. Encoding more than a string can hold panics.
#[verifier::external_body]
fn base64_encode(data: &[u8]) -> (r: String)
    requires
        encodable(data@.len()),
    ensures
        r@ == base64_text(data@),
        r@.len() == (data@.len() + 2) / 3 * 4,
        forall|i: int| 0 <= i < r@.len() ==> is_base64_char(#[trigger] r@[i]),
        base64_bytes(r@) == Some(data@),
{
    base64::Engine::encode(&base64::engine::general_purpose::STANDARD, data)
}

/// Decodes text: `base64::Engine::decode` of the standard engine.
///
/// Claims that success and the bytes depend on the text alone.
#[verifier::external_body]
fn base64_decode(text: &str) -> (r: Result<Vec<u8>, base64::DecodeError>)
    ensures
        r is Ok <==> base64_bytes(text@) is Some,
        r matches Ok(data) ==> base64_bytes(text@) == Some(data@),
{
    base64::Engine::decode(&base64::engine::general_purpose::STANDARD, text)
}

/// The SHA-256 digest of `data`.
pub uninterp spec fn sha256_digest(data: Seq<u8>) -> Seq<u8>;

/// Hashes bytes: `sha2::Sha256::digest`.
///
/// Claims that the digest depends on the bytes alone; its length is in the type.
#[verifier::external_body]
fn sha256(data: &[u8]) -> (r: [u8; 32])
    ensures
        r@ == sha256_digest(data@),
{
    <sha2::Sha256 as sha2::Digest>::digest(data).into()
}

// ---------------------------------------------------------------------------
// PEM
// ---------------------------------------------------------------------------

/// Why no DER could be extracted from a PEM text.
pub enum PemError {
    /// There is no block, or nothing in it.
    NoBlock,
    /// The body of the block is not base64.
    Base64(base64::DecodeError),
}

/// The first line of `s`, without the whitespace around it.
pub open spec fn first_line(s: Seq<char>) -> Seq<char> {
    text::trimmed(s.take(text::index_of(s, '\n') as int))
}

/// What follows the first line of `s`.
pub open spec fn after_first_line(s: Seq<char>) -> Seq<char> {
    s.skip(vstd::math::min(text::index_of(s, '\n') as int + 1, s.len() as int))
}

/// The lines between the first begin line and the end line that follows, without
/// their ends; `inside` says whether the begin line has been passed.
pub open spec fn pem_body(s: Seq<char>, inside: bool) -> Seq<char>
    decreases s.len(),
{
    if s.len() == 0 {
        Seq::empty()
    } else {
        let line = first_line(s);
        let rest = after_first_line(s);
        if text::has_prefix(line, "-----BEGIN "@) {
            pem_body(rest, true)
        } else if text::has_prefix(line, "-----END "@) {
            Seq::empty()
        } else if inside {
            line + pem_body(rest, inside)
        } else {
            pem_body(rest, inside)
        }
    }
}

/// A PEM text is read line by line: a begin line starts the body, an end line stops
/// it, and the lines in between make it up, each without the whitespace around it.
pub proof fn pem_is_read_line_by_line(line: Seq<char>, rest: Seq<char>, inside: bool)
    requires
        !line.contains('\n'),
    ensures
        ({
            let s = line + seq!['\n'] + rest;
            let t = text::trimmed(line);
            let begins = text::has_prefix(t, "-----BEGIN "@);
            let ends = text::has_prefix(t, "-----END "@);
            &&& !(begins && ends)
            &&& begins ==> pem_body(s, inside) == pem_body(rest, true)
            &&& ends ==> pem_body(s, inside) == Seq::<char>::empty()
            &&& !begins && !ends && inside ==> pem_body(s, inside) == t + pem_body(rest, true)
            &&& !begins && !ends && !inside ==> pem_body(s, inside) == pem_body(rest, false)
        }),
{
    let s = line + seq!['\n'] + rest;
    let t = text::trimmed(line);
    let n = line.len() as int;
    assert forall|k: int| 0 <= k < n implies s[k] != '\n' by {
        assert(s[k] == line[k]);
        assert(line.contains(line[k]));
    }
    assert(s[n] == '\n');
    text::lemma_index_of_unique(s, '\n', n);
    assert(s.take(n) =~= line);
    assert(s.skip(n + 1) =~= rest);
    reveal_strlit("-----BEGIN ");
    reveal_strlit("-----END ");
    if text::has_prefix(t, "-----BEGIN "@) && text::has_prefix(t, "-----END "@) {
        assert(t.take(11)[5] == 'B');
        assert(t.take(9)[5] == 'E');
    }
}

/// What stands between the first begin line and the end line behind it is the body:
/// neither what comes in front of the block nor what follows it matters.
pub proof fn the_first_block_counts(
    front: Seq<char>,
    begin: Seq<char>,
    line: Seq<char>,
    end: Seq<char>,
    rest: Seq<char>,
)
    requires
        !front.contains('\n') && !begin.contains('\n') && !line.contains('\n') && !end.contains(
            '\n',
        ),
        text::has_prefix(text::trimmed(begin), "-----BEGIN "@),
        text::has_prefix(text::trimmed(end), "-----END "@),
        !text::has_prefix(text::trimmed(front), "-----BEGIN "@) && !text::has_prefix(
            text::trimmed(front),
            "-----END "@,
        ),
        !text::has_prefix(text::trimmed(line), "-----BEGIN "@) && !text::has_prefix(
            text::trimmed(line),
            "-----END "@,
        ),
    ensures
        pem_body(
            front + seq!['\n'] + (begin + seq!['\n'] + (line + seq!['\n'] + (end + seq!['\n']
                + rest))),
            false,
        ) == text::trimmed(line),
{
    let last = end + seq!['\n'] + rest;
    let body = line + seq!['\n'] + last;
    let block = begin + seq!['\n'] + body;
    pem_is_read_line_by_line(end, rest, true);
    pem_is_read_line_by_line(line, last, true);
    pem_is_read_line_by_line(begin, body, false);
    pem_is_read_line_by_line(front, block, false);
    assert(text::trimmed(line) + Seq::<char>::empty() =~= text::trimmed(line));
}

/// The DER bytes of the first block in a PEM text, if there are any.
pub open spec fn pem_der(pem: Seq<char>) -> Option<Seq<u8>> {
    if pem_body(pem, false).len() == 0 {
        None
    } else {
        base64_bytes(pem_body(pem, false))
    }
}

/// Collects the body of the first PEM block in `pem`: its lines, each without the
/// whitespace around it.
pub fn pem_body_of(pem: &str) -> (body: String)
    ensures
        body@ == pem_body(pem@, false),
{
    let v = to_chars(pem);
    let mut body = String::new();
    let mut inside = false;
    let mut i: usize = 0;
    let mut done = false;
    assert(v@.skip(0) =~= v@);
    assert(body@ + pem_body(v@, false) =~= pem_body(v@, false));
    while i < v.len() && !done
        invariant
            i <= v@.len(),
            v@ == pem@,
            !done ==> body@ + pem_body(v@.skip(i as int), inside) == pem_body(v@, false),
            done ==> body@ == pem_body(v@, false),
        decreases v@.len() - i,
    {
        let ghost s = v@.skip(i as int);
        let end: usize = find_char(&v, i, '\n');
        let line = trim(pem.substring_char(i, end));
        assert(pem@.subrange(i as int, end as int) =~= s.take(end - i));
        let next: usize = if end < v.len() {
            end + 1
        } else {
            end
        };
        assert(v@.skip(next as int) =~= after_first_line(s));
        if starts_with(line, "-----BEGIN ") {
            inside = true;
        } else if starts_with(line, "-----END ") {
            done = true;
            assert(body@ + Seq::<char>::empty() =~= body@);
        } else if inside {
            assert(body@ + (line@ + pem_body(after_first_line(s), inside)) =~= body@ + line@
                + pem_body(after_first_line(s), inside));
            body.append(line);
        }
        i = next;
    }
    if !done {
        assert(body@ + pem_body(v@.skip(i as int), inside) =~= body@);
    }
    body
}

/// Extracts the DER bytes of the first PEM block in `pem`.
pub fn pem_to_der(pem: &str) -> (r: Result<Vec<u8>, PemError>)
    ensures
        r is Ok <==> pem_der(pem@) is Some,
        r matches Ok(der) ==> pem_der(pem@) == Some(der@),
        (r matches Err(e) && e is NoBlock) <==> pem_body(pem@, false).len() == 0,
        r is Ok <==> pem_body(pem@, false).len() > 0 && base64_bytes(
            pem_body(pem@, false),
        ) is Some,
        r matches Ok(der) ==> base64_bytes(pem_body(pem@, false)) == Some(der@),
{
    let body = pem_body_of(pem);
    if body.as_str().is_empty() {
        return Err(PemError::NoBlock);
    }
    match base64_decode(body.as_str()) {
        Ok(der) => Ok(der),
        Err(e) => Err(PemError::Base64(e)),
    }
}

// ---------------------------------------------------------------------------
// Fingerprints and published keys
// ---------------------------------------------------------------------------

/// A SHA-256 digest, formatted `sha256:<hex>`.
pub open spec fn digest_text(digest: Seq<u8>) -> Seq<char> {
    "sha256:"@ + text::hex(digest)
}

/// The `sha256:<hex>` fingerprint of a DER-encoded certificate.
pub open spec fn fingerprint(der: Seq<u8>) -> Seq<char> {
    digest_text(sha256_digest(der))
}

/// Whether `s` looks like a fingerprint: `sha256:` and 64 lowercase hexadecimal
/// digits.
pub open spec fn fingerprint_shape(s: Seq<char>) -> bool {
    &&& s.len() == 71
    &&& text::has_prefix(s, "sha256:"@)
    &&& forall|i: int| 7 <= i < s.len() ==> text::is_hex_digit(#[trigger] s[i])
}

proof fn lemma_fingerprint_shape(digest: Seq<u8>)
    requires
        digest.len() == 32,
    ensures
        fingerprint_shape(digest_text(digest)),
{
    reveal_strlit("sha256:");
    text::lemma_hex(digest);
    let s = digest_text(digest);
    assert(s.take(7) =~= "sha256:"@);
    assert forall|i: int| 7 <= i < s.len() implies text::is_hex_digit(#[trigger] s[i]) by {
        assert(s[i] == text::hex(digest)[i - 7]);
    }
}

/// Formats a SHA-256 digest as `sha256:<hex>`.
pub fn format_digest(digest: &[u8]) -> (r: String)
    ensures
        r@ == digest_text(digest@),
        r@ == "sha256:"@ + text::hex(digest@),
{
    let mut out = "sha256:".to_owned();
    append_hex(&mut out, digest);
    out
}

/// Formats the `sha256:<hex>` fingerprint of a DER-encoded certificate. Both the
/// server (when reporting) and the client (when verifying a pinned cert) must
/// use this so the strings compare equal.
pub fn cert_fingerprint_from_der(der: &[u8]) -> (r: String)
    ensures
        r@ == fingerprint(der@),
        r@ == "sha256:"@ + text::hex(sha256_digest(der@)),
        fingerprint_shape(r@),
{
    let digest = sha256(der);
    let r = format_digest(digest.as_slice());
    proof {
        lemma_fingerprint_shape(digest@);
    }
    r
}

/// The key that a published `server_noise_pubkey` stands for.
pub open spec fn published_key(b64: Seq<char>) -> Option<Seq<u8>> {
    base64_bytes(text::trimmed(b64))
}

/// Decodes a base64-encoded Noise public key — the `server_noise_pubkey` value
/// a client pins in its config. Whitespace around it does not matter.
pub fn decode_noise_public_key(b64: &str) -> (r: Result<Vec<u8>, base64::DecodeError>)
    ensures
        r is Ok <==> published_key(b64@) is Some,
        r matches Ok(key) ==> published_key(b64@) == Some(key@),
        r is Ok <==> base64_bytes(text::trimmed(b64@)) is Some,
        r matches Ok(key) ==> base64_bytes(text::trimmed(b64@)) == Some(key@),
{
    base64_decode(trim(b64))
}

/// Text made of base64 characters has no whitespace to trim.
proof fn lemma_base64_is_trimmed(s: Seq<char>)
    requires
        forall|i: int| 0 <= i < s.len() ==> is_base64_char(#[trigger] s[i]),
    ensures
        text::trimmed(s) == s,
{
    if s.len() > 0 {
        assert(is_base64_char(s[0]));
        assert(is_base64_char(s[s.len() - 1]));
    }
}

// ---------------------------------------------------------------------------
// The identity
// ---------------------------------------------------------------------------

/// What went wrong inside `rcgen`.
#[verifier::external_type_specification]
#[verifier::external_body]
pub struct ExRcgenError(rcgen::Error);

/// Whether `cert_pem` is a self-signed certificate that is made out to `name` and
/// whose private key is `key_pem`.
pub uninterp spec fn certifies(cert_pem: Seq<char>, key_pem: Seq<char>, name: Seq<char>) -> bool;

/// Generates a self-signed certificate and its key, both PEM-encoded:
/// `rcgen::generate_simple_self_signed`, `Certificate::pem` and
/// `KeyPair::serialize_pem`.
///
/// The key is random and generating it can fail. Claims that the certificate is a
/// PEM block that decodes, that it is made out to `name`, and that the key is the
/// one it was signed with.
#[verifier::external_body]
fn generate_certificate(name: &str) -> (r: Result<(String, String), rcgen::Error>)
    ensures
        r matches Ok(pair) ==> pem_der(pair.0@) is Some && certifies(pair.0@, pair.1@, name@),
{
    let certified = rcgen::generate_simple_self_signed(vec![name.to_string()])?;
    Ok((certified.cert.pem(), certified.signing_key.serialize_pem()))
}

/// The files of a state directory, as far as they exist.
#[derive(Debug, Clone)]
pub struct StateDir {
    /// The contents of [`TLS_CERT_FILE`].
    pub tls_cert: Option<String>,
    /// The contents of [`TLS_KEY_FILE`].
    pub tls_key: Option<String>,
    /// The contents of [`NOISE_PRIV_FILE`].
    pub noise_priv: Option<Vec<u8>>,
    /// The contents of [`NOISE_PUB_FILE`].
    pub noise_pub: Option<Vec<u8>>,
}

/// A [`StateDir`] by the pairs that are complete in it.
pub struct DirView {
    /// The certificate and its key, if both files exist.
    pub tls: Option<(Seq<char>, Seq<char>)>,
    /// The Noise private and public key, if both files exist.
    pub noise: Option<(Seq<u8>, Seq<u8>)>,
}

impl View for StateDir {
    type V = DirView;

    open spec fn view(&self) -> DirView {
        DirView {
            tls: match (self.tls_cert, self.tls_key) {
                (Some(cert), Some(key)) => Some((cert@, key@)),
                _ => None,
            },
            noise: match (self.noise_priv, self.noise_pub) {
                (Some(private), Some(public)) => Some((private@, public@)),
                _ => None,
            },
        }
    }
}

/// The server's long-lived cryptographic identity.
#[derive(Debug, Clone)]
pub struct ServerIdentity {
    tls_cert_pem: String,
    tls_key_pem: String,
    noise_private: Vec<u8>,
    noise_public: Vec<u8>,
}

/// A [`ServerIdentity`] by its values.
pub struct IdentityView {
    pub tls: (Seq<char>, Seq<char>),
    pub noise: (Seq<u8>, Seq<u8>),
}

impl View for ServerIdentity {
    type V = IdentityView;

    closed spec fn view(&self) -> IdentityView {
        IdentityView {
            tls: (self.tls_cert_pem@, self.tls_key_pem@),
            noise: (self.noise_private@, self.noise_public@),
        }
    }
}

/// The artifact that could not be generated.
pub enum IdentityError {
    /// Generating the self-signed certificate.
    Tls(rcgen::Error),
    /// Parsing the Noise parameters.
    Params(snow::Error),
    /// Generating the Noise static keypair.
    Noise(snow::Error),
}

/// Whether loading from `before` gives `id` and leaves `after`: each pair that is
/// complete is taken as it is, each other pair is made anew, and the directory
/// then holds the identity.
pub open spec fn loads_to(before: DirView, after: DirView, id: IdentityView) -> bool {
    &&& before.tls matches Some(tls) ==> id.tls == tls
    &&& before.tls is None ==> pem_der(id.tls.0) is Some && certifies(
        id.tls.0,
        id.tls.1,
        CERT_NAME@,
    )
    &&& before.noise matches Some(noise) ==> id.noise == noise
    &&& before.noise is None ==> id.noise.0.len() == 32 && id.noise.1.len() == 32 && id.noise.1
        == noise::public_half(id.noise.0)
    &&& after.tls == Some(id.tls)
    &&& after.noise == Some(id.noise)
}

impl StateDir {
    /// The certificate and its key, if both files exist.
    pub fn tls(&self) -> (r: Option<(String, String)>)
        ensures
            r is Some <==> self@.tls is Some,
            r matches Some(pair) ==> self@.tls == Some((pair.0@, pair.1@)),
            r is Some <==> self.tls_cert is Some && self.tls_key is Some,
            r matches Some(pair) ==> pair.0@ == self.tls_cert->0@ && pair.1@ == self.tls_key->0@,
    {
        match (&self.tls_cert, &self.tls_key) {
            (Some(cert), Some(key)) => Some((cert.clone(), key.clone())),
            _ => None,
        }
    }

    /// The Noise private and public key, if both files exist.
    pub fn noise(&self) -> (r: Option<(Vec<u8>, Vec<u8>)>)
        ensures
            r is Some <==> self@.noise is Some,
            r matches Some(pair) ==> self@.noise == Some((pair.0@, pair.1@)),
            r is Some <==> self.noise_priv is Some && self.noise_pub is Some,
            r matches Some(pair) ==> pair.0@ == self.noise_priv->0@ && pair.1@
                == self.noise_pub->0@,
    {
        match (&self.noise_priv, &self.noise_pub) {
            (Some(private), Some(public)) => Some((private.clone(), public.clone())),
            _ => None,
        }
    }

    /// Stores a certificate and its key, in place of what is there.
    pub fn store_tls(&mut self, cert: &str, key: &str)
        ensures
            final(self)@.tls == Some((cert@, key@)),
            final(self).tls_cert is Some && final(self).tls_cert->0@ == cert@,
            final(self).tls_key is Some && final(self).tls_key->0@ == key@,
            final(self).noise_priv == old(self).noise_priv,
            final(self).noise_pub == old(self).noise_pub,
    {
        self.tls_cert = Some(cert.to_owned());
        self.tls_key = Some(key.to_owned());
    }

    /// Stores a Noise keypair, in place of what is there.
    pub fn store_noise(&mut self, private: &[u8], public: &[u8])
        ensures
            final(self)@.noise == Some((private@, public@)),
            final(self).noise_priv is Some && final(self).noise_priv->0@ == private@,
            final(self).noise_pub is Some && final(self).noise_pub->0@ == public@,
            final(self).tls_cert == old(self).tls_cert,
            final(self).tls_key == old(self).tls_key,
    {
        self.noise_priv = Some(slice_to_vec(private));
        self.noise_pub = Some(slice_to_vec(public));
    }
}

/// The certificate and key in `dir`, generated and stored there unless both are
/// there already.
fn load_or_create_tls(dir: &mut StateDir) -> (r: Result<(String, String), rcgen::Error>)
    ensures
        final(dir).noise_priv == old(dir).noise_priv,
        final(dir).noise_pub == old(dir).noise_pub,
        old(dir)@.tls is Some ==> r is Ok && *final(dir) == *old(dir),
        r matches Ok(pair) ==> {
            &&& final(dir)@.tls == Some((pair.0@, pair.1@))
            &&& old(dir)@.tls is Some ==> old(dir)@.tls == Some((pair.0@, pair.1@))
            &&& old(dir)@.tls is None ==> pem_der(pair.0@) is Some && certifies(
                pair.0@,
                pair.1@,
                CERT_NAME@,
            )
        },
        r is Err ==> *final(dir) == *old(dir),
{
    if let Some(pair) = dir.tls() {
        return Ok(pair);
    }
    let (cert, key) = match generate_certificate(CERT_NAME) {
        Ok(pair) => pair,
        Err(e) => return Err(e),
    };
    dir.store_tls(cert.as_str(), key.as_str());
    Ok((cert, key))
}

/// The Noise keys in `dir`, private and public, generated and stored there unless
/// both are there already.
fn load_or_create_noise(dir: &mut StateDir) -> (r: Result<(Vec<u8>, Vec<u8>), IdentityError>)
    ensures
        final(dir).tls_cert == old(dir).tls_cert,
        final(dir).tls_key == old(dir).tls_key,
        old(dir)@.noise is Some ==> r is Ok && *final(dir) == *old(dir),
        r matches Ok(pair) ==> {
            &&& final(dir)@.noise == Some((pair.0@, pair.1@))
            &&& old(dir)@.noise is Some ==> old(dir)@.noise == Some((pair.0@, pair.1@))
            &&& old(dir)@.noise is None ==> pair.0@.len() == 32 && pair.1@.len() == 32 && pair.1@
                == noise::public_half(pair.0@)
        },
        r matches Err(e) ==> *final(dir) == *old(dir) && e is Noise,
{
    if let Some(pair) = dir.noise() {
        return Ok(pair);
    }
    let params = match parse_params(NOISE_PARAMS) {
        Ok(params) => params,
        Err(e) => return Err(IdentityError::Params(e)),
    };
    let (private, public) = match generate_keypair(&snow::Builder::new(params)) {
        Ok(pair) => pair,
        Err(e) => return Err(IdentityError::Noise(e)),
    };
    dir.store_noise(private.as_slice(), public.as_slice());
    Ok((private, public))
}

impl ServerIdentity {
    /// Loads the identity from `dir`, generating and storing any artifact that is
    /// missing.
    ///
    /// The TLS keypair and the Noise keypair are handled independently, so a
    /// missing file is regenerated without rotating the other (already-pinned)
    /// artifact. Only generating can fail; a certificate generated before the
    /// Noise keypair failed stays.
    pub fn load_or_create(dir: &mut StateDir) -> (r: Result<ServerIdentity, IdentityError>)
        ensures
            r matches Ok(id) ==> loads_to(old(dir)@, final(dir)@, id@),
            r matches Ok(id) ==> {
                let (cert, key) = id@.tls;
                let (private, public) = id@.noise;
                &&& final(dir).tls_cert is Some && final(dir).tls_cert->0@ == cert
                &&& final(dir).tls_key is Some && final(dir).tls_key->0@ == key
                &&& final(dir).noise_priv is Some && final(dir).noise_priv->0@ == private
                &&& final(dir).noise_pub is Some && final(dir).noise_pub->0@ == public
                &&& if old(dir).tls_cert is Some && old(dir).tls_key is Some {
                    cert == old(dir).tls_cert->0@ && key == old(dir).tls_key->0@
                } else {
                    certifies(cert, key, "rs_srp"@) && pem_der(cert) is Some
                }
                &&& if old(dir).noise_priv is Some && old(dir).noise_pub is Some {
                    private == old(dir).noise_priv->0@ && public == old(dir).noise_pub->0@
                } else {
                    private.len() == 32 && public.len() == 32 && public == noise::public_half(
                        private,
                    )
                }
            },
            r matches Err(e) ==> {
                &&& e is Tls ==> old(dir)@.tls is None && *final(dir) == *old(dir)
                &&& !(e is Tls) ==> e is Noise && old(dir)@.noise is None && final(dir)@.tls is Some
                    && final(dir).noise_priv == old(dir).noise_priv && final(dir).noise_pub == old(
                    dir,
                ).noise_pub
                &&& !(e is Tls) && old(dir)@.tls is None ==> certifies(
                    (final(dir)@.tls->0).0,
                    (final(dir)@.tls->0).1,
                    CERT_NAME@,
                )
            },
            old(dir)@.tls is Some ==> final(dir)@.tls == old(dir)@.tls,
            old(dir)@.noise is Some ==> final(dir)@.noise == old(dir)@.noise,
    {
        let (tls_cert_pem, tls_key_pem) = match load_or_create_tls(dir) {
            Ok(pair) => pair,
            Err(e) => return Err(IdentityError::Tls(e)),
        };
        let (noise_private, noise_public) = match load_or_create_noise(dir) {
            Ok(pair) => pair,
            Err(e) => return Err(e),
        };
        Ok(ServerIdentity { tls_cert_pem, tls_key_pem, noise_private, noise_public })
    }

    /// PEM-encoded self-signed certificate (QUIC + WSS).
    pub fn tls_cert_pem(&self) -> (r: &str)
        ensures
            r@ == self@.tls.0,
    {
        self.tls_cert_pem.as_str()
    }

    /// PEM-encoded private key for [`Self::tls_cert_pem`].
    pub fn tls_key_pem(&self) -> (r: &str)
        ensures
            r@ == self@.tls.1,
    {
        self.tls_key_pem.as_str()
    }

    /// Raw 32-byte Noise static private key.
    pub fn noise_private_key(&self) -> (r: &[u8])
        ensures
            r@ == self@.noise.0,
    {
        self.noise_private.as_slice()
    }

    /// Raw 32-byte Noise static public key.
    pub fn noise_public_key(&self) -> (r: &[u8])
        ensures
            r@ == self@.noise.1,
    {
        self.noise_public.as_slice()
    }

    /// Base64 (standard alphabet) of the Noise static public key. This is the
    /// value a client pins as `server_noise_pubkey`; decoding it gives the key.
    pub fn noise_public_key_b64(&self) -> (r: String)
        requires
            encodable(self@.noise.1.len()),
        ensures
            r@ == base64_text(self@.noise.1),
            forall|i: int| 0 <= i < r@.len() ==> is_base64_char(#[trigger] r@[i]),
            published_key(r@) == Some(self@.noise.1),
            self@.noise.1.len() > 0 ==> text::trimmed(r@).len() > 0,
    {
        let r = base64_encode(self.noise_public.as_slice());
        proof {
            lemma_base64_is_trimmed(r@);
        }
        r
    }

    /// SHA-256 fingerprint of the TLS certificate, formatted `sha256:<hex>`.
    /// This is the value a client pins as `server_cert_fingerprint`.
    pub fn cert_fingerprint(&self) -> (r: Result<String, PemError>)
        ensures
            r is Ok <==> pem_der(self@.tls.0) is Some,
            r matches Ok(text) ==> text@ == fingerprint(pem_der(self@.tls.0)->0)
                && fingerprint_shape(text@),
            r matches Ok(text) ==> text@ == "sha256:"@ + text::hex(
                sha256_digest(base64_bytes(pem_body(self@.tls.0, false))->0),
            ),
            (r matches Err(e) && e is NoBlock) <==> pem_body(self@.tls.0, false).len() == 0,
    {
        match pem_to_der(self.tls_cert_pem.as_str()) {
            Ok(der) => Ok(cert_fingerprint_from_der(der.as_slice())),
            Err(e) => Err(e),
        }
    }
}

/// What a client pins stays the same across restarts: loading again from a
/// directory that an earlier load has left gives the same identity and changes
/// nothing.
pub proof fn identity_survives_reload(
    before: DirView,
    between: DirView,
    after: DirView,
    first: IdentityView,
    second: IdentityView,
)
    requires
        loads_to(before, between, first),
        loads_to(between, after, second),
    ensures
        second == first,
        after == between,
{
}

/// A missing artifact is replaced without rotating the other one.
pub proof fn artifacts_are_independent(before: DirView, after: DirView, id: IdentityView)
    requires
        loads_to(before, after, id),
    ensures
        before.tls is Some ==> before.tls == Some(id.tls) && after.tls == before.tls,
        before.noise is Some ==> before.noise == Some(id.noise) && after.noise == before.noise,
{
}

} // verus!
