use base64::Engine;
use ed25519_dalek::pkcs8::{DecodePublicKey, EncodePublicKey};
use ed25519_dalek::{Signer, SigningKey};
use sha2::{Digest, Sha256};
use vericto::api::Receipt;
use vericto::exit::Line;
use vericto::pubkeys::{find_key, key_for, BUNDLED_KEYS};
use vericto::receipt::{
    canonicalize, judge, sha256_hex, verify, verify_with_key, VerifyError, SCHEME,
};
use vericto::verify_run::{
    key_argument, key_unreadable, receipt_summary, receipts_loaded, verify_receipts, KeyArgument,
    ReceiptFile,
};

#[test]
fn unknown_key_id_returns_none() {
    assert!(key_for("does-not-exist").is_none());
}

#[test]
fn bundled_keys_are_wellformed_pem() {
    // Every bundled key must actually parse, so a bad paste is caught in CI
    // rather than at a customer's `verify-receipt`.
    for (id, pem) in BUNDLED_KEYS {
        ed25519_dalek::VerifyingKey::from_public_key_pem(pem)
            .unwrap_or_else(|e| panic!("bundled key '{id}' is not valid PEM: {e}"));
    }
}

fn sample_payload() -> serde_json::Value {
    serde_json::from_str(
        r#"{
            "version": 1,
            "kind": "vetro-ci-receipt",
            "workspace_id": "ws_1",
            "exit_code": 1,
            "summary": { "total": 2, "blocked": 1, "allowed": 1 },
            "queries": [{ "line": 1, "status": "BLOCKED" }],
            "dialect": "postgres",
            "file_name": "m.sql",
            "provenance": null,
            "signed_at": "2026-07-10T00:00:00Z"
        }"#,
    )
    .unwrap()
}

#[test]
fn canonicalize_sorts_keys_recursively_and_is_compact() {
    let c = canonicalize(&sample_payload());
    // Top-level keys sorted: dialect < exit_code < file_name < kind < ...
    assert!(c.starts_with(
        r#"{"dialect":"postgres","exit_code":1,"file_name":"m.sql","kind":"vetro-ci-receipt""#
    ));
    // Nested object sorted too: allowed < blocked < total.
    assert!(c.contains(r#""summary":{"allowed":1,"blocked":1,"total":2}"#));
    // Compact — no spaces after colons/commas.
    assert!(!c.contains(": "));
}

/// Signs `sample_payload` the way the backend does, and returns (receipt,
/// public_key_pem).
fn signed_receipt() -> (Receipt, String) {
    let payload = sample_payload();
    let canonical = canonicalize(&payload);
    let digest = Sha256::digest(canonical.as_bytes());

    let signing = SigningKey::from_bytes(&[7u8; 32]);
    let sig = signing.sign(&digest);
    let pem = signing
        .verifying_key()
        .to_public_key_pem(Default::default())
        .unwrap();

    let receipt = Receipt {
        payload,
        scheme: SCHEME.to_string(),
        signature: base64::engine::general_purpose::STANDARD.encode(sig.to_bytes()),
        public_key_id: "test".to_string(),
        sha256: sha256_hex(canonical.as_bytes()),
    };
    (receipt, pem)
}

#[test]
fn verify_accepts_a_valid_receipt() {
    let (receipt, pem) = signed_receipt();
    assert!(verify_with_key(&receipt, &pem).is_ok());
}

#[test]
fn verify_rejects_a_tampered_payload() {
    let (mut receipt, pem) = signed_receipt();
    // Flip a value in the payload — digest no longer matches sha256, and the
    // signature wouldn't verify either.
    receipt.payload["exit_code"] = serde_json::Value::from(0);
    match verify_with_key(&receipt, &pem) {
        Err(VerifyError::DigestMismatch { .. }) => {}
        other => panic!("expected DigestMismatch, got {other:?}"),
    }
}

#[test]
fn verify_rejects_a_bad_signature() {
    let (mut receipt, pem) = signed_receipt();
    // Keep the payload (so digest matches) but corrupt the signature.
    let mut raw = base64::engine::general_purpose::STANDARD
        .decode(receipt.signature.as_bytes())
        .unwrap();
    raw[0] ^= 0xff;
    receipt.signature = base64::engine::general_purpose::STANDARD.encode(&raw);
    match verify_with_key(&receipt, &pem) {
        Err(VerifyError::SignatureInvalid) => {}
        other => panic!("expected SignatureInvalid, got {other:?}"),
    }
}

#[test]
fn verify_rejects_unknown_scheme() {
    let (mut receipt, pem) = signed_receipt();
    receipt.scheme = "hmac-sha256".to_string();
    assert!(matches!(
        verify_with_key(&receipt, &pem),
        Err(VerifyError::UnsupportedScheme(_))
    ));
}

#[test]
fn unreadable_keys_and_signatures_are_told_apart() {
    let (mut receipt, pem) = signed_receipt();
    assert!(matches!(
        verify_with_key(&receipt, "not a key"),
        Err(VerifyError::BadPublicKey(_))
    ));
    receipt.signature = "***".to_string();
    assert!(matches!(
        verify_with_key(&receipt, &pem),
        Err(VerifyError::BadSignature(_))
    ));
    receipt.signature = base64::engine::general_purpose::STANDARD.encode([1u8; 10]);
    assert!(matches!(
        verify_with_key(&receipt, &pem),
        Err(VerifyError::BadSignature(_))
    ));
}

#[test]
fn an_unknown_key_needs_an_override() {
    let (receipt, pem) = signed_receipt();
    match verify(&receipt, None) {
        Err(VerifyError::UnknownKey(id)) => assert_eq!(id, "test"),
        other => panic!("expected UnknownKey, got {other:?}"),
    }
    assert!(verify(&receipt, Some(&pem)).is_ok());
}

#[test]
fn another_key_does_not_verify() {
    let (receipt, _) = signed_receipt();
    let other = SigningKey::from_bytes(&[8u8; 32])
        .verifying_key()
        .to_public_key_pem(Default::default())
        .unwrap();
    assert!(matches!(
        verify_with_key(&receipt, &other),
        Err(VerifyError::SignatureInvalid)
    ));
}

#[test]
fn stated_digests_are_read_without_regard_to_case_and_may_be_absent() {
    let (mut receipt, pem) = signed_receipt();
    receipt.sha256 = receipt.sha256.to_uppercase();
    receipt.signature = format!("  {}\n", receipt.signature);
    assert!(verify_with_key(&receipt, &pem).is_ok());
    receipt.sha256 = String::new();
    assert!(verify_with_key(&receipt, &pem).is_ok());
}

#[test]
fn digests_are_hexadecimal() {
    assert_eq!(
        sha256_hex(b"abc"),
        "ba7816bf8f01cfea414140de5dae2223b00361a396177a9cb410ff61f20015ad"
    );
}

#[test]
fn judgement_follows_the_evidence() {
    let (receipt, _) = signed_receipt();
    let actual = receipt.sha256.clone();
    let key = Ok(vec![0u8; 32]);
    let signature = Ok(vec![0u8; 64]);
    assert!(judge(&receipt, actual.clone(), &key, &signature, true).is_ok());
    assert!(matches!(
        judge(&receipt, actual.clone(), &key, &signature, false),
        Err(VerifyError::SignatureInvalid)
    ));
    assert!(matches!(
        judge(&receipt, "00".to_string(), &key, &signature, true),
        Err(VerifyError::DigestMismatch { .. })
    ));
    let e = judge(&receipt, actual, &Err("bad pem".to_string()), &signature, true).unwrap_err();
    assert!(e.message().contains("bad pem"), "{}", e.message());
}

#[test]
fn keys_are_found_by_id() {
    let keys = [("a", "PEM A"), ("b", "PEM B")];
    assert_eq!(find_key(&keys, "b"), Some("PEM B"));
    assert_eq!(find_key(&keys, "c"), None);
}

fn text(line: &Line) -> &str {
    match line {
        Line::Stdout(s) => s,
        Line::Stderr(s) => s,
    }
}

#[test]
fn check_receipt_then_verify_roundtrip() {
    let (receipt, pem) = signed_receipt();
    let report = verify_receipts(&[receipt], Some(&pem), true);
    assert_eq!(report.code, 0);
    assert_eq!(
        text(&report.say[0]),
        "✓ receipt verified (key test, ed25519-sha256)."
    );
    assert_eq!(text(&report.say[1]), "  workspace: ws_1");
    assert_eq!(
        text(&report.say[5]),
        r#"  summary:   {"allowed":1,"blocked":1,"total":2}"#
    );
    assert_eq!(text(&report.say[6]), "  exit_code: 1");
}

#[test]
fn verify_receipt_rejects_tampered_file() {
    let (mut receipt, pem) = signed_receipt();
    receipt.payload["exit_code"] = serde_json::Value::from(0);
    let report = verify_receipts(&[receipt], Some(&pem), false);
    assert_eq!(report.code, 3); // authenticity failure
}

#[test]
fn every_receipt_of_a_chunked_run_must_verify() {
    let (a, pem) = signed_receipt();
    let (mut b, _) = signed_receipt();
    let (c, _) = signed_receipt();
    let ok = verify_receipts(&[a, c], Some(&pem), false);
    assert_eq!(ok.code, 0);
    assert_eq!(ok.say.len(), 2);
    assert!(text(&ok.say[1]).starts_with("✓ receipt 2/2 verified"));
    b.scheme = "none".to_string();
    let (a, _) = signed_receipt();
    let bad = verify_receipts(&[a, b], Some(&pem), false);
    assert_eq!(bad.code, 3);
    assert!(text(&bad.say[1]).starts_with("✖ receipt 2/2 failed to verify: "));
}

#[test]
fn missing_members_are_skipped() {
    let (mut receipt, _) = signed_receipt();
    receipt.payload = serde_json::Value::Null;
    assert!(receipt_summary(&receipt).is_empty());
    receipt.payload =
        serde_json::from_str(r#"{"file_name":null,"dialect":"mysql","exit_code":1}"#).unwrap();
    let lines = receipt_summary(&receipt);
    assert_eq!(lines.len(), 3);
    assert_eq!(text(&lines[0]), "  file:      -");
    assert_eq!(text(&lines[1]), "  dialect:   mysql");
    assert_eq!(text(&lines[2]), "  exit_code: 1");
}

#[test]
fn receipt_files_that_hold_nothing_are_usage_errors() {
    let s = receipts_loaded("r.json", ReceiptFile::Unreadable("denied".to_string())).unwrap_err();
    assert_eq!((s.code, text(&s.line)), (2, "error: cannot read r.json: denied"));
    let s = receipts_loaded("r.json", ReceiptFile::Malformed("eof".to_string())).unwrap_err();
    assert_eq!(s.code, 2);
    let s = receipts_loaded("r.json", ReceiptFile::Parsed(Vec::new())).unwrap_err();
    assert_eq!(
        (s.code, text(&s.line)),
        (2, "error: no receipts found in r.json.")
    );
    let (receipt, _) = signed_receipt();
    assert_eq!(
        receipts_loaded("r.json", ReceiptFile::Parsed(vec![receipt]))
            .unwrap()
            .len(),
        1
    );
    assert_eq!(key_unreadable("k.pem", "gone").code, 2);
}

#[test]
fn key_arguments_are_told_from_paths() {
    assert!(matches!(key_argument(None), KeyArgument::Bundled));
    assert!(matches!(
        key_argument(Some("-----BEGIN PUBLIC KEY-----".to_string())),
        KeyArgument::Inline(_)
    ));
    assert!(matches!(
        key_argument(Some("keys/begin.pem".to_string())),
        KeyArgument::File(_)
    ));
}
