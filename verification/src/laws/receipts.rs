//! A receipt is accepted exactly where it is authentic.
use vstd::prelude::*;
use crate::api::ReceiptView;
use crate::exit::LineView;
use crate::json::{json_compact_text, JsonView};
use crate::laws::suppressing::{lemma_same_rule, same_rule};
use crate::pubkeys::{bundled_pem, BUNDLED_KEYS};
use crate::receipt::{base64_decoded, ed25519_valid, full_verdict, public_key_in, sha256, verify_error_text, VerifyErrorView};
use crate::text::{decimal, hex_bytes, hex_digit, lemma_hex_bytes, lowered, trim};
use crate::verify_run::{accepted_lines, report_on, summary_lines};

verus! {

/// What a small hexadecimal digit is worth.
pub open spec fn hex_worth(c: char) -> int {
    if '0' <= c <= '9' {
        c as int - '0' as int
    } else {
        10 + (c as int - 'a' as int)
    }
}

/// Bytes are written as two small hexadecimal digits each, in order.
pub proof fn law_bytes_in_hexadecimal(bytes: Seq<u8>, i: int)
    requires
        0 <= i < bytes.len(),
    ensures
        hex_bytes(bytes).len() == 2 * bytes.len(),
        16 * hex_worth(hex_bytes(bytes)[2 * i]) + hex_worth(hex_bytes(bytes)[2 * i + 1])
            == bytes[i],
    decreases bytes.len(),
{
    lemma_hex_bytes(bytes);
    lemma_hex_bytes(bytes.drop_last());
    let b = bytes.last();
    if i < bytes.len() - 1 {
        law_bytes_in_hexadecimal(bytes.drop_last(), i);
    } else {
        assert(hex_worth(hex_digit((b / 16) as nat)) == b / 16);
        assert(hex_worth(hex_digit((b % 16) as nat)) == b % 16);
    }
}

/// The digest of a receipt's payload.
pub open spec fn digest(r: ReceiptView) -> Seq<u8> {
    sha256(vstd::utf8::encode_utf8(json_compact_text(r.payload)))
}

proof fn lemma_small(bytes: Seq<u8>)
    ensures
        lowered(hex_bytes(bytes)) == hex_bytes(bytes),
{
    lemma_hex_bytes(bytes);
    let h = hex_bytes(bytes);
    assert forall|k: int| 0 <= k < h.len() implies lowered(h)[k] == h[k] by {
        let c = h[k];
        assert('0' <= c <= '9' || 'a' <= c <= 'f');
    }
    assert(lowered(h) =~= h);
}

/// Whether a receipt is authentic under a key: it is of the one scheme there is, it states
/// the digest of its payload or none, and its signature is one of the key over that digest.
pub open spec fn authentic(r: ReceiptView, pem: Seq<char>) -> bool {
    &&& r.scheme == "ed25519-sha256"@
    &&& r.sha256.len() == 0 || same_rule(hex_bytes(digest(r)), r.sha256)
    &&& public_key_in(pem) is Ok
    &&& base64_decoded(trim(r.signature)) is Ok
    &&& base64_decoded(trim(r.signature))->Ok_0.len() == 64
    &&& ed25519_valid(
        public_key_in(pem)->Ok_0,
        digest(r),
        base64_decoded(trim(r.signature))->Ok_0,
    )
}

/// A receipt is accepted with a key that was given exactly where it is authentic under it.
pub proof fn law_receipts_are_accepted_where_authentic(r: ReceiptView, pem: Seq<char>)
    ensures
        full_verdict(r, Some(pem)) is Ok <==> authentic(r, pem),
{
    lemma_small(digest(r));
    lemma_same_rule(hex_bytes(digest(r)), r.sha256);
}

/// A receipt that is refused is refused for its first fault: the scheme, the digest, the key,
/// the signature's form, and last the signature itself.
pub proof fn law_receipts_are_refused_for_their_first_fault(r: ReceiptView, pem: Seq<char>)
    ensures
        ({
            let v = full_verdict(r, Some(pem));
            let known = r.scheme == "ed25519-sha256"@;
            let stated = r.sha256.len() == 0 || same_rule(hex_bytes(digest(r)), r.sha256);
            let key = public_key_in(pem);
            let decoded = base64_decoded(trim(r.signature));
            let formed = decoded is Ok && decoded->Ok_0.len() == 64;
            &&& !known ==> v == Err::<(), VerifyErrorView>(
                VerifyErrorView::UnsupportedScheme(r.scheme),
            )
            &&& known && !stated ==> v == Err::<(), VerifyErrorView>(
                VerifyErrorView::DigestMismatch {
                    expected: r.sha256,
                    actual: hex_bytes(digest(r)),
                },
            )
            &&& known && stated && key is Err ==> v == Err::<(), VerifyErrorView>(
                VerifyErrorView::BadPublicKey(key->Err_0),
            )
            &&& known && stated && key is Ok && !formed ==> (v matches Err(e) && e is BadSignature)
            &&& known && stated && key is Ok && formed && !authentic(r, pem) ==> v == Err::<
                (),
                VerifyErrorView,
            >(VerifyErrorView::SignatureInvalid)
        }),
{
    lemma_small(digest(r));
    lemma_same_rule(hex_bytes(digest(r)), r.sha256);
}

/// Without a key that was given, the bundled key with the receipt's own key id decides; a key
/// id that is not bundled is refused.
pub proof fn law_bundled_keys_go_by_their_id(r: ReceiptView)
    ensures
        match bundled_pem(BUNDLED_KEYS@, r.public_key_id) {
            Some(pem) => full_verdict(r, None) == full_verdict(r, Some(pem)),
            None => full_verdict(r, None) == Err::<(), VerifyErrorView>(
                VerifyErrorView::UnknownKey(r.public_key_id),
            ),
        },
{
}

/// A bundled key is found under its own id, and only there.
pub proof fn law_keys_are_found_under_their_id(
    keys: Seq<(&'static str, &'static str)>,
    id: Seq<char>,
)
    ensures
        bundled_pem(keys, id) is None <==> forall|k: int|
            0 <= k < keys.len() ==> (#[trigger] keys[k]).0@ != id,
        bundled_pem(keys, id) matches Some(pem) ==> exists|k: int|
            0 <= k < keys.len() && (#[trigger] keys[k]).0@ == id && keys[k].1@ == pem,
    decreases keys.len(),
{
    if keys.len() > 0 {
        let rest = keys.drop_first();
        assert(forall|k: int| 0 <= k < rest.len() ==> rest[k] == keys[k + 1]);
        law_keys_are_found_under_their_id(rest, id);
        if keys[0].0@ == id {
            assert(keys[0].0@ == id && keys[0].1@ == keys[0].1@);
        } else {
            if bundled_pem(rest, id) is Some {
                let k = choose|k: int|
                    0 <= k < rest.len() && (#[trigger] rest[k]).0@ == id && rest[k].1@
                        == bundled_pem(rest, id)->Some_0;
                assert(keys[k + 1].0@ == id);
            } else {
                assert forall|k: int| 0 <= k < keys.len() implies (#[trigger] keys[k]).0@ != id by {
                    if k > 0 {
                        assert(rest[k - 1].0@ != id);
                    }
                }
            }
        }
    }
}

// ── What is said ──────────────────────────────────────────────────────────────

/// The lines for the first `n` receipts, all of them accepted.
pub open spec fn accepted(rs: Seq<ReceiptView>, n: nat, show: bool) -> Seq<LineView> {
    Seq::new(
        n,
        |i: int|
            seq![
                LineView::Stdout(
                    "✓ "@ + (if rs.len() == 1 {
                        "receipt"@
                    } else {
                        "receipt "@ + decimal((i + 1) as nat) + "/"@ + decimal(rs.len())
                    }) + " verified (key "@ + rs[i].public_key_id + ", "@ + rs[i].scheme + ")."@,
                ),
            ] + (if show {
                summary_lines(rs[i].payload)
            } else {
                seq![]
            }),
    ).flatten()
}

proof fn lemma_accepted(rs: Seq<ReceiptView>, n: nat, show: bool)
    requires
        n > 0,
    ensures
        accepted(rs, n, show) == accepted(rs, (n - 1) as nat, show) + accepted_lines(
            rs[n - 1],
            (n - 1) as nat,
            rs.len(),
            show,
        ),
{
    let f = |i: int|
        seq![
            LineView::Stdout(
                "✓ "@ + (if rs.len() == 1 {
                    "receipt"@
                } else {
                    "receipt "@ + decimal((i + 1) as nat) + "/"@ + decimal(rs.len())
                }) + " verified (key "@ + rs[i].public_key_id + ", "@ + rs[i].scheme + ")."@,
            ),
        ] + (if show {
            summary_lines(rs[i].payload)
        } else {
            seq![]
        });
    let rest = Seq::new((n - 1) as nat, f);
    rest.lemma_flatten_push(f(n - 1));
    assert(Seq::new(n, f) =~= rest.push(f(n - 1)));
    assert(f(n - 1) == accepted_lines(rs[n - 1], (n - 1) as nat, rs.len(), show));
}

/// Where all receipts are accepted each is said to be, in order, and the command ends with
/// success.
pub proof fn law_accepted_receipts_are_all_told(
    rs: Seq<ReceiptView>,
    n: nat,
    pem: Option<Seq<char>>,
    show: bool,
)
    requires
        n <= rs.len(),
        forall|i: int| 0 <= i < n ==> full_verdict(#[trigger] rs[i], pem) is Ok,
    ensures
        report_on(rs, n, pem, show).code == 0,
        report_on(rs, n, pem, show).say == accepted(rs, n, show),
    decreases n,
{
    if n > 0 {
        law_accepted_receipts_are_all_told(rs, (n - 1) as nat, pem, show);
        lemma_accepted(rs, n, show);
        assert(full_verdict(rs[n - 1], pem) is Ok);
    } else {
        assert(accepted(rs, 0, show) =~= seq![]);
    }
}

/// The first receipt that is refused ends the command with the code for authentication: it
/// is named by its place, with its fault, behind those that were accepted before it.
pub proof fn law_the_first_refused_receipt_ends_the_command(
    rs: Seq<ReceiptView>,
    n: nat,
    pem: Option<Seq<char>>,
    show: bool,
    k: int,
)
    requires
        0 <= k < n <= rs.len(),
        forall|i: int| 0 <= i < k ==> full_verdict(#[trigger] rs[i], pem) is Ok,
        full_verdict(rs[k], pem) is Err,
    ensures
        report_on(rs, n, pem, show).code == 3,
        report_on(rs, n, pem, show).say == accepted(rs, k as nat, show).push(
            LineView::Stderr(
                "✖ receipt "@ + decimal((k + 1) as nat) + "/"@ + decimal(rs.len())
                    + " failed to verify: "@ + verify_error_text(
                    full_verdict(rs[k], pem)->Err_0,
                ),
            ),
        ),
    decreases n,
{
    if k == n - 1 {
        law_accepted_receipts_are_all_told(rs, k as nat, pem, show);
    } else {
        law_the_first_refused_receipt_ends_the_command(rs, (n - 1) as nat, pem, show, k);
    }
}

/// A member of a payload that is shown: its text behind its label, a dash where it is no
/// text, and nothing where it is missing.
pub open spec fn shown(payload: JsonView, label: Seq<char>, key: Seq<char>) -> Seq<LineView> {
    match crate::laws::reports::at(Some(payload), key) {
        Some(JsonView::Text(s)) => seq![LineView::Stdout(label + s)],
        Some(_) => seq![LineView::Stdout(label + "-"@)],
        None => seq![],
    }
}

/// A member of a payload that is shown as JSON.
pub open spec fn shown_as_json(payload: JsonView, label: Seq<char>, key: Seq<char>) -> Seq<
    LineView,
> {
    match crate::laws::reports::at(Some(payload), key) {
        Some(v) => seq![LineView::Stdout(label + json_compact_text(v))],
        None => seq![],
    }
}

/// A receipt is summed up by its workspace, file, dialect, time, counts and exit code, in this
/// order, as far as its payload holds them.
pub proof fn law_receipts_are_summed_up(p: JsonView)
    ensures
        summary_lines(p) == shown(p, "  workspace: "@, "workspace_id"@) + shown(
            p,
            "  file:      "@,
            "file_name"@,
        ) + shown(p, "  dialect:   "@, "dialect"@) + shown(p, "  signed_at: "@, "signed_at"@)
            + shown_as_json(p, "  summary:   "@, "summary"@) + shown_as_json(
            p,
            "  exit_code: "@,
            "exit_code"@,
        ),
{
}

} // verus!
