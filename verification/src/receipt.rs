//! Offline verification of signed run receipts.
//!
//! A receipt is evidence that a check ran, verifiable without a network call or an
//! account. Its payload is signed with Ed25519 over the SHA-256 digest of its canonical
//! JSON: object members sorted by name, no white space. The digest is also compared
//! with the one that the receipt states, so that an altered payload is named as such.
use vstd::prelude::*;
use base64::Engine;
use ed25519_dalek::pkcs8::DecodePublicKey;
use ed25519_dalek::Verifier;
use sha2::Digest;
use crate::api::{Receipt, ReceiptView};
use crate::json::{json_compact, json_compact_text, json_view};
use crate::pubkeys::{bundled_pem, key_for, BUNDLED_KEYS};
use crate::text::{from_chars, hex_bytes, hex_text, lower_chars, lowered, same_text, to_chars, trim, trimmed};

verus! {

/// The signature scheme that this verifier understands.
pub const SCHEME: &'static str = "ed25519-sha256";

/// Why a receipt does not verify.
#[derive(Debug)]
pub enum VerifyError {
    /// The scheme is not one that is implemented.
    UnsupportedScheme(String),
    /// There is no public key for the receipt's key id.
    UnknownKey(String),
    /// The public key cannot be read.
    BadPublicKey(String),
    /// The signature is no base64, or of the wrong length.
    BadSignature(String),
    /// The payload's digest is not the one that the receipt states.
    DigestMismatch { expected: String, actual: String },
    /// The signature is not one of this key over this digest.
    SignatureInvalid,
}

pub enum VerifyErrorView {
    UnsupportedScheme(Seq<char>),
    UnknownKey(Seq<char>),
    BadPublicKey(Seq<char>),
    BadSignature(Seq<char>),
    DigestMismatch { expected: Seq<char>, actual: Seq<char> },
    SignatureInvalid,
}

impl View for VerifyError {
    type V = VerifyErrorView;

    open spec fn view(&self) -> VerifyErrorView {
        match self {
            VerifyError::UnsupportedScheme(s) => VerifyErrorView::UnsupportedScheme(s@),
            VerifyError::UnknownKey(s) => VerifyErrorView::UnknownKey(s@),
            VerifyError::BadPublicKey(s) => VerifyErrorView::BadPublicKey(s@),
            VerifyError::BadSignature(s) => VerifyErrorView::BadSignature(s@),
            VerifyError::DigestMismatch { expected, actual } => VerifyErrorView::DigestMismatch {
                expected: expected@,
                actual: actual@,
            },
            VerifyError::SignatureInvalid => VerifyErrorView::SignatureInvalid,
        }
    }
}

/// The one-line description of a verification failure.
pub open spec fn verify_error_text(e: VerifyErrorView) -> Seq<char> {
    match e {
        VerifyErrorView::UnsupportedScheme(s) => "unsupported signature scheme '"@ + s
            + "' (expected '"@ + SCHEME@ + "')"@,
        VerifyErrorView::UnknownKey(id) => "no trusted public key for key id '"@ + id
            + "'. Pass --public-key <PEM> (fetch it from GET /api/v1/meta/export-signing-key or your admin)."@,
        VerifyErrorView::BadPublicKey(e) => "invalid public key: "@ + e,
        VerifyErrorView::BadSignature(e) => "malformed signature: "@ + e,
        VerifyErrorView::DigestMismatch { expected, actual } =>
            "payload digest mismatch (receipt says "@ + expected + ", computed "@ + actual
            + ") — the receipt payload was altered"@,
        VerifyErrorView::SignatureInvalid =>
            "signature does not verify — receipt is not authentic"@,
    }
}

impl VerifyError {
    /// The one-line description of the failure.
    pub fn message(&self) -> (r: String)
        ensures
            r@ == verify_error_text(self@),
    {
        match self {
            VerifyError::UnsupportedScheme(s) => {
                let mut out = "unsupported signature scheme '".to_owned();
                out.append(s.as_str());
                out.append("' (expected '");
                out.append(SCHEME);
                out.append("')");
                out
            },
            VerifyError::UnknownKey(id) => {
                let mut out = "no trusted public key for key id '".to_owned();
                out.append(id.as_str());
                out.append(
                    "'. Pass --public-key <PEM> (fetch it from GET /api/v1/meta/export-signing-key or your admin).",
                );
                out
            },
            VerifyError::BadPublicKey(e) => "invalid public key: ".to_owned().concat(e.as_str()),
            VerifyError::BadSignature(e) => "malformed signature: ".to_owned().concat(e.as_str()),
            VerifyError::DigestMismatch { expected, actual } => {
                let mut out = "payload digest mismatch (receipt says ".to_owned();
                out.append(expected.as_str());
                out.append(", computed ");
                out.append(actual.as_str());
                out.append(") — the receipt payload was altered");
                out
            },
            VerifyError::SignatureInvalid =>
                "signature does not verify — receipt is not authentic".to_owned(),
        }
    }
}

// ── Calls into the cryptographic crates ───────────────────────────────────────

/// The SHA-256 digest of some bytes, as `sha2::Sha256::digest` computes it.
pub uninterp spec fn sha256(bytes: Seq<u8>) -> Seq<u8>;

/// The bytes of the Ed25519 public key in a PEM text, or the reason why there is none,
/// as `ed25519_dalek::VerifyingKey::from_public_key_pem` reads it.
pub uninterp spec fn public_key_in(pem: Seq<char>) -> Result<Seq<u8>, Seq<char>>;

/// What a base64 text stands for, or the reason why it stands for nothing, as the
/// standard engine of `base64` decodes it.
pub uninterp spec fn base64_decoded(text: Seq<char>) -> Result<Seq<u8>, Seq<char>>;

/// Whether a signature is one of the key over the message, as
/// `ed25519_dalek::VerifyingKey::verify` decides it.
pub uninterp spec fn ed25519_valid(key: Seq<u8>, message: Seq<u8>, signature: Seq<u8>) -> bool;

pub open spec fn bytes_view(r: Result<Vec<u8>, String>) -> Result<Seq<u8>, Seq<char>> {
    match r {
        Ok(b) => Ok(b@),
        Err(e) => Err(e@),
    }
}

/// `sha2::Sha256::digest` returns 32 bytes that depend on its input alone.
#[verifier::external_body]
fn digest(bytes: &[u8]) -> (r: Vec<u8>)
    ensures
        r@ == sha256(bytes@),
        r@.len() == 32,
{
    sha2::Sha256::digest(bytes).to_vec()
}

/// `ed25519_dalek::VerifyingKey::from_public_key_pem` reads a key of 32 bytes, or
/// refuses the text with an error; which of the two depends on the text alone.
#[verifier::external_body]
fn read_public_key(pem: &str) -> (r: Result<Vec<u8>, String>)
    ensures
        bytes_view(r) == public_key_in(pem@),
        r matches Ok(k) ==> k@.len() == 32,
{
    match ed25519_dalek::VerifyingKey::from_public_key_pem(pem) {
        Ok(k) => Ok(k.to_bytes().to_vec()),
        Err(e) => Err(e.to_string()),
    }
}

/// `base64::engine::general_purpose::STANDARD.decode` decodes a text, or refuses it with
/// an error; which of the two, and the bytes, depend on the text alone.
#[verifier::external_body]
fn decode_base64(text: &str) -> (r: Result<Vec<u8>, String>)
    ensures
        bytes_view(r) == base64_decoded(text@),
{
    match base64::engine::general_purpose::STANDARD.decode(text) {
        Ok(b) => Ok(b),
        Err(e) => Err(e.to_string()),
    }
}

/// `ed25519_dalek::Signature::from_slice` takes 64 bytes as they stand, and refuses any
/// other number of them.
#[verifier::external_body]
fn read_signature(bytes: &[u8]) -> (r: Result<Vec<u8>, String>)
    ensures
        bytes_view(r) == signature_in(bytes@),
{
    match ed25519_dalek::Signature::from_slice(bytes) {
        Ok(s) => Ok(s.to_bytes().to_vec()),
        Err(e) => Err(e.to_string()),
    }
}

/// `ed25519_dalek::VerifyingKey::verify` accepts or refuses a signature; which of the
/// two depends on key, message and signature alone. Bytes that are no key or no
/// signature are refused.
#[verifier::external_body]
fn check_signature(key: &[u8], message: &[u8], signature: &[u8]) -> (r: bool)
    ensures
        r == ed25519_valid(key@, message@, signature@),
{
    match (ed25519_dalek::VerifyingKey::try_from(key), ed25519_dalek::Signature::from_slice(signature)) {
        (Ok(k), Ok(s)) => k.verify(message, &s).is_ok(),
        _ => false,
    }
}

// ── Verification ──────────────────────────────────────────────────────────────

/// The signature that some bytes are: there must be 64 of them.
pub open spec fn signature_in(bytes: Seq<u8>) -> Result<Seq<u8>, Seq<char>> {
    if bytes.len() == 64 {
        Ok(bytes)
    } else {
        Err("signature error"@)
    }
}

/// The signature that a receipt states.
pub open spec fn stated_signature(text: Seq<char>) -> Result<Seq<u8>, Seq<char>> {
    match base64_decoded(trim(text)) {
        Ok(b) => signature_in(b),
        Err(e) => Err(e),
    }
}

/// The digest that was signed for a payload.
pub open spec fn payload_digest(r: ReceiptView) -> Seq<u8> {
    sha256(vstd::utf8::encode_utf8(json_compact_text(r.payload)))
}

/// The judgement on a receipt, given the digest of its payload in hexadecimal, the key,
/// the signature, and whether the one verifies under the other.
pub open spec fn judgement(
    r: ReceiptView,
    actual: Seq<char>,
    key: Result<Seq<u8>, Seq<char>>,
    signature: Result<Seq<u8>, Seq<char>>,
    valid: bool,
) -> Result<(), VerifyErrorView> {
    if r.scheme != SCHEME@ {
        Err(VerifyErrorView::UnsupportedScheme(r.scheme))
    } else if r.sha256.len() > 0 && actual != lowered(r.sha256) {
        Err(VerifyErrorView::DigestMismatch { expected: r.sha256, actual })
    } else {
        match (key, signature) {
            (Err(e), _) => Err(VerifyErrorView::BadPublicKey(e)),
            (Ok(_), Err(e)) => Err(VerifyErrorView::BadSignature(e)),
            (Ok(_), Ok(_)) => if valid {
                Ok(())
            } else {
                Err(VerifyErrorView::SignatureInvalid)
            },
        }
    }
}

/// Whether the stated signature of a receipt is one of the key in a PEM text over the
/// digest of its payload.
pub open spec fn signature_valid(r: ReceiptView, pem: Seq<char>) -> bool {
    match (public_key_in(pem), stated_signature(r.signature)) {
        (Ok(k), Ok(s)) => ed25519_valid(k, payload_digest(r), s),
        _ => false,
    }
}

/// The verdict on a receipt under the key in a PEM text.
pub open spec fn verdict(r: ReceiptView, pem: Seq<char>) -> Result<(), VerifyErrorView> {
    judgement(
        r,
        hex_bytes(payload_digest(r)),
        public_key_in(pem),
        stated_signature(r.signature),
        signature_valid(r, pem),
    )
}

pub open spec fn verdict_view(r: Result<(), VerifyError>) -> Result<(), VerifyErrorView> {
    match r {
        Ok(_) => Ok(()),
        Err(e) => Err(e@),
    }
}

/// The canonical JSON of a receipt's payload.
pub fn canonicalize(payload: &serde_json::Value) -> (r: String)
    ensures
        r@ == json_compact_text(json_view(*payload)),
{
    json_compact(payload)
}

/// The SHA-256 digest of some bytes, in lower-case hexadecimal.
pub fn sha256_hex(bytes: &[u8]) -> (r: String)
    ensures
        r@ == hex_bytes(sha256(bytes@)),
{
    hex_text(digest(bytes).as_slice())
}

/// Judges a receipt, given the digest of its payload in hexadecimal, the key, the
/// signature, and whether the one verifies under the other.
pub fn judge(
    receipt: &Receipt,
    actual: String,
    key: &Result<Vec<u8>, String>,
    signature: &Result<Vec<u8>, String>,
    valid: bool,
) -> (r: Result<(), VerifyError>)
    ensures
        verdict_view(r) == judgement(
            receipt@,
            actual@,
            bytes_view(*key),
            bytes_view(*signature),
            valid,
        ),
{
    if !same_text(receipt.scheme.as_str(), SCHEME) {
        return Err(VerifyError::UnsupportedScheme(receipt.scheme.clone()));
    }
    let stated = to_chars(receipt.sha256.as_str());
    let low = from_chars(lower_chars(stated.as_slice()).as_slice());
    if stated.len() > 0 && !same_text(actual.as_str(), low.as_str()) {
        return Err(VerifyError::DigestMismatch { expected: receipt.sha256.clone(), actual });
    }
    match (key, signature) {
        (Err(e), _) => Err(VerifyError::BadPublicKey(e.clone())),
        (Ok(_), Err(e)) => Err(VerifyError::BadSignature(e.clone())),
        (Ok(_), Ok(_)) => if valid {
            Ok(())
        } else {
            Err(VerifyError::SignatureInvalid)
        },
    }
}

/// Verifies a receipt under the key in a PEM text.
pub fn verify_with_key(receipt: &Receipt, public_key_pem: &str) -> (r: Result<(), VerifyError>)
    ensures
        verdict_view(r) == verdict(receipt@, public_key_pem@),
{
    let canonical = canonicalize(&receipt.payload);
    let message = digest(canonical.as_str().as_bytes());
    let actual = hex_text(message.as_slice());
    let key = read_public_key(public_key_pem);
    let signature = match decode_base64(trimmed(receipt.signature.as_str()).as_str()) {
        Ok(b) => read_signature(b.as_slice()),
        Err(e) => Err(e),
    };
    let valid = match (&key, &signature) {
        (Ok(k), Ok(s)) => check_signature(k.as_slice(), message.as_slice(), s.as_slice()),
        _ => false,
    };
    judge(receipt, actual, &key, &signature, valid)
}

/// The verdict on a receipt: under the given key where there is one, else under the
/// bundled key that the receipt names.
pub open spec fn full_verdict(r: ReceiptView, override_pem: Option<Seq<char>>) -> Result<
    (),
    VerifyErrorView,
> {
    match override_pem {
        Some(pem) => verdict(r, pem),
        None => match bundled_pem(BUNDLED_KEYS@, r.public_key_id) {
            Some(pem) => verdict(r, pem),
            None => Err(VerifyErrorView::UnknownKey(r.public_key_id)),
        },
    }
}

/// Verifies a receipt under the given key, or else under the bundled key that it names.
pub fn verify(receipt: &Receipt, override_pem: Option<&str>) -> (r: Result<(), VerifyError>)
    ensures
        verdict_view(r) == full_verdict(receipt@, crate::api::opt_str_view(override_pem)),
{
    match override_pem {
        Some(pem) => verify_with_key(receipt, pem),
        None => match key_for(receipt.public_key_id.as_str()) {
            Some(pem) => verify_with_key(receipt, pem),
            None => Err(VerifyError::UnknownKey(receipt.public_key_id.clone())),
        },
    }
}

// ── Laws ──────────────────────────────────────────────────────────────────────

/// A receipt is accepted exactly where its scheme is the known one, its stated digest
/// (if any) is that of its payload, key and signature can be read, and the signature is
/// one of the key over the payload's digest.
pub proof fn law_accepted_receipts_are_authentic(r: ReceiptView, pem: Seq<char>)
    ensures
        verdict(r, pem) is Ok <==> {
            &&& r.scheme == SCHEME@
            &&& r.sha256.len() == 0 || lowered(r.sha256) == hex_bytes(payload_digest(r))
            &&& public_key_in(pem) is Ok
            &&& stated_signature(r.signature) is Ok
            &&& signature_valid(r, pem)
        },
{
}

/// A receipt that states a digest is refused under every key once its payload has
/// another one.
pub proof fn law_altered_payloads_are_refused(r: ReceiptView, pem: Seq<char>)
    requires
        r.scheme == SCHEME@,
        r.sha256.len() > 0,
        lowered(r.sha256) != hex_bytes(payload_digest(r)),
    ensures
        verdict(r, pem) == Err::<(), _>(
            VerifyErrorView::DigestMismatch {
                expected: r.sha256,
                actual: hex_bytes(payload_digest(r)),
            },
        ),
{
}

} // verus!
