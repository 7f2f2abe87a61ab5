//! Verifying a file of receipts.
use vstd::prelude::*;
use crate::api::{receipt_views, Receipt, ReceiptView};
use crate::exit::{error_stop, line_views, stop_with, Line, LineView, Stop, StopView, AUTH, OK, USAGE};
use crate::json::{as_text, json_as_str, json_compact, json_compact_text, json_get, member, JsonView};
use crate::receipt::{full_verdict, verify, verify_error_text};
use crate::scaffold::holds;
use crate::text::{decimal, decimal_text, find_from, to_chars};

verus! {

/// Where the key to verify with comes from.
#[derive(Debug)]
pub enum KeyArgument {
    /// From the keys that are built in.
    Bundled,
    /// It was given itself.
    Inline(String),
    /// From the named file.
    File(String),
}

/// Where the key comes from for an argument.
pub open spec fn key_source(given: Option<String>) -> KeyArgument {
    match given {
        None => KeyArgument::Bundled,
        Some(v) => if holds(v@, "BEGIN"@) {
            KeyArgument::Inline(v)
        } else {
            KeyArgument::File(v)
        },
    }
}

/// Where the key to verify with comes from: an argument that holds `BEGIN` is the key
/// itself, any other names a file.
pub fn key_argument(given: Option<String>) -> (r: KeyArgument)
    ensures
        r == key_source(given),
{
    match given {
        None => KeyArgument::Bundled,
        Some(v) => {
            let cs = to_chars(v.as_str());
            if find_from(cs.as_slice(), 0, to_chars("BEGIN").as_slice()).is_some() {
                KeyArgument::Inline(v)
            } else {
                KeyArgument::File(v)
            }
        },
    }
}

/// What came of reading a file of receipts.
#[derive(Debug)]
pub enum ReceiptFile {
    Unreadable(String),
    Malformed(String),
    Parsed(Vec<Receipt>),
}

pub open spec fn receipts_result(r: Result<Vec<Receipt>, Stop>) -> Result<
    Seq<ReceiptView>,
    StopView,
> {
    match r {
        Ok(rs) => Ok(receipt_views(rs@)),
        Err(s) => Err(s@),
    }
}

/// What a file of receipts comes to.
pub open spec fn loaded(path: Seq<char>, read: ReceiptFile) -> Result<Seq<ReceiptView>, StopView> {
    match read {
        ReceiptFile::Unreadable(e) => Err::<Seq<ReceiptView>, StopView>(
            error_stop(USAGE, "cannot read "@ + path + ": "@ + e@),
        ),
        ReceiptFile::Malformed(e) => Err(
            error_stop(
                USAGE,
                path + " is not a valid receipt (or array of receipts): "@ + e@,
            ),
        ),
        ReceiptFile::Parsed(rs) => if rs@.len() == 0 {
            Err(error_stop(USAGE, "no receipts found in "@ + path + "."@))
        } else {
            Ok(receipt_views(rs@))
        },
    }
}

/// The receipts of a file, or the end of the command. A file without receipts is an
/// error of usage, as is one that cannot be read.
pub fn receipts_loaded(path: &str, read: ReceiptFile) -> (r: Result<Vec<Receipt>, Stop>)
    ensures
        receipts_result(r) == loaded(path@, read),
{
    match read {
        ReceiptFile::Unreadable(e) => {
            let mut text = "cannot read ".to_owned();
            text.append(path);
            text.append(": ");
            text.append(e.as_str());
            Err(stop_with(USAGE, text.as_str()))
        },
        ReceiptFile::Malformed(e) => {
            let mut text = path.to_owned();
            text.append(" is not a valid receipt (or array of receipts): ");
            text.append(e.as_str());
            Err(stop_with(USAGE, text.as_str()))
        },
        ReceiptFile::Parsed(rs) => {
            if rs.len() == 0 {
                let mut text = "no receipts found in ".to_owned();
                text.append(path);
                text.append(".");
                return Err(stop_with(USAGE, text.as_str()));
            }
            Ok(rs)
        },
    }
}

/// Ends the command where the file that was named for the key cannot be read.
pub fn key_unreadable(path: &str, error: &str) -> (r: Stop)
    ensures
        r@ == error_stop(USAGE, "cannot read public key file '"@ + path@ + "': "@ + error@),
{
    let mut text = "cannot read public key file '".to_owned();
    text.append(path);
    text.append("': ");
    text.append(error);
    stop_with(USAGE, text.as_str())
}

// ── Summary ───────────────────────────────────────────────────────────────────

/// The line for a member that is shown as text, where there is one; a dash stands for one
/// that is no text.
pub open spec fn text_line(payload: JsonView, label: Seq<char>, key: Seq<char>) -> Seq<LineView> {
    match member(payload, key) {
        Some(v) => match as_text(v) {
            Some(s) => seq![LineView::Stdout(label + s)],
            None => seq![LineView::Stdout(label + "-"@)],
        },
        None => seq![],
    }
}

/// The line for a member that is shown as JSON, where there is one.
pub open spec fn json_line(payload: JsonView, label: Seq<char>, key: Seq<char>) -> Seq<LineView> {
    match member(payload, key) {
        Some(v) => seq![LineView::Stdout(label + json_compact_text(v))],
        None => seq![],
    }
}

/// What is shown of a verified receipt. A member that is missing is skipped.
pub open spec fn summary_lines(payload: JsonView) -> Seq<LineView> {
    text_line(payload, "  workspace: "@, "workspace_id"@) + text_line(
        payload,
        "  file:      "@,
        "file_name"@,
    ) + text_line(payload, "  dialect:   "@, "dialect"@) + text_line(
        payload,
        "  signed_at: "@,
        "signed_at"@,
    ) + json_line(payload, "  summary:   "@, "summary"@) + json_line(
        payload,
        "  exit_code: "@,
        "exit_code"@,
    )
}

fn push_text_line(out: &mut Vec<Line>, r: &Receipt, label: &str, key: &str)
    ensures
        line_views(final(out)@) == line_views(old(out)@) + text_line(r@.payload, label@, key@),
{
    if let Some(v) = json_get(&r.payload, key) {
        let shown = match json_as_str(v) {
            Some(s) => s,
            None => "-",
        };
        out.push(Line::Stdout(label.to_owned().concat(shown)));
    }
    assert(line_views(out@) =~= line_views(old(out)@) + text_line(r@.payload, label@, key@));
}

fn push_json_line(out: &mut Vec<Line>, r: &Receipt, label: &str, key: &str)
    ensures
        line_views(final(out)@) == line_views(old(out)@) + json_line(r@.payload, label@, key@),
{
    if let Some(v) = json_get(&r.payload, key) {
        out.push(Line::Stdout(label.to_owned().concat(json_compact(v).as_str())));
    }
    assert(line_views(out@) =~= line_views(old(out)@) + json_line(r@.payload, label@, key@));
}

/// Shows a verified receipt.
pub fn receipt_summary(r: &Receipt) -> (out: Vec<Line>)
    ensures
        line_views(out@) == summary_lines(r@.payload),
{
    let mut out: Vec<Line> = Vec::new();
    push_text_line(&mut out, r, "  workspace: ", "workspace_id");
    push_text_line(&mut out, r, "  file:      ", "file_name");
    push_text_line(&mut out, r, "  dialect:   ", "dialect");
    push_text_line(&mut out, r, "  signed_at: ", "signed_at");
    push_json_line(&mut out, r, "  summary:   ", "summary");
    push_json_line(&mut out, r, "  exit_code: ", "exit_code");
    assert(line_views(out@) =~= summary_lines(r@.payload));
    out
}

// ── Verdict ───────────────────────────────────────────────────────────────────

/// What is reported, and the exit code.
#[derive(Debug)]
pub struct VerifyReport {
    pub say: Vec<Line>,
    pub code: u8,
}

pub struct VerifyReportView {
    pub say: Seq<LineView>,
    pub code: u8,
}

impl View for VerifyReport {
    type V = VerifyReportView;

    open spec fn view(&self) -> VerifyReportView {
        VerifyReportView { say: line_views(self.say@), code: self.code }
    }
}

/// How a receipt is called: by its number where there are several.
pub open spec fn receipt_label(i: nat, total: nat) -> Seq<char> {
    if total == 1 {
        "receipt"@
    } else {
        "receipt "@ + decimal(i + 1) + "/"@ + decimal(total)
    }
}

/// The lines for a receipt that verifies.
pub open spec fn accepted_lines(r: ReceiptView, i: nat, total: nat, show: bool) -> Seq<LineView> {
    seq![
        LineView::Stdout(
            "✓ "@ + receipt_label(i, total) + " verified (key "@ + r.public_key_id + ", "@ + r.scheme
                + ")."@,
        ),
    ] + (if show {
        summary_lines(r.payload)
    } else {
        seq![]
    })
}

/// The report on the first `n` receipts: each that verifies is named, and the first that
/// does not ends the report.
pub open spec fn report_on(
    rs: Seq<ReceiptView>,
    n: nat,
    pem: Option<Seq<char>>,
    show: bool,
) -> VerifyReportView
    decreases n,
{
    if n == 0 {
        VerifyReportView { say: seq![], code: OK }
    } else {
        let so_far = report_on(rs, (n - 1) as nat, pem, show);
        if so_far.code != OK {
            so_far
        } else {
            match full_verdict(rs[n - 1], pem) {
                Ok(_) => VerifyReportView {
                    say: so_far.say + accepted_lines(
                        rs[n - 1],
                        (n - 1) as nat,
                        rs.len(),
                        show,
                    ),
                    code: OK,
                },
                Err(e) => VerifyReportView {
                    say: so_far.say.push(
                        LineView::Stderr(
                            "✖ receipt "@ + decimal(n) + "/"@ + decimal(rs.len())
                                + " failed to verify: "@ + verify_error_text(e),
                        ),
                    ),
                    code: AUTH,
                },
            }
        }
    }
}

proof fn lemma_report_stays_failed(
    rs: Seq<ReceiptView>,
    n: nat,
    m: nat,
    pem: Option<Seq<char>>,
    show: bool,
)
    requires
        n <= m,
        report_on(rs, n, pem, show).code != OK,
    ensures
        report_on(rs, m, pem, show) == report_on(rs, n, pem, show),
    decreases m,
{
    if n < m {
        lemma_report_stays_failed(rs, n, (m - 1) as nat, pem, show);
    }
}

/// Verifies the receipts of a file in order, up to the first that does not verify.
pub fn verify_receipts(receipts: &[Receipt], pem: Option<&str>, show: bool) -> (r: VerifyReport)
    ensures
        r@ == report_on(
            receipt_views(receipts@),
            receipts@.len(),
            crate::api::opt_str_view(pem),
            show,
        ),
{
    let ghost rs = receipt_views(receipts@);
    let ghost key = crate::api::opt_str_view(pem);
    let total: usize = receipts.len();
    let mut say: Vec<Line> = Vec::new();
    let mut i: usize = 0;
    assert(line_views(say@) =~= seq![]);
    while i < total
        invariant
            rs == receipt_views(receipts@),
            key == crate::api::opt_str_view(pem),
            total == receipts@.len(),
            i <= total,
            report_on(rs, i as nat, key, show) == (VerifyReportView {
                say: line_views(say@),
                code: OK,
            }),
        decreases total - i,
    {
        let receipt = &receipts[i];
        assert(rs[i as int] == receipt@);
        let ghost so_far = say@;
        match verify(receipt, pem) {
            Ok(_) => {
                let mut text = "✓ ".to_owned();
                if total == 1 {
                    text.append("receipt");
                } else {
                    let mut label = "receipt ".to_owned();
                    label.append(decimal_text((i + 1) as u128).as_str());
                    label.append("/");
                    label.append(decimal_text(total as u128).as_str());
                    text.append(label.as_str());
                }
                text.append(" verified (key ");
                text.append(receipt.public_key_id.as_str());
                text.append(", ");
                text.append(receipt.scheme.as_str());
                text.append(").");
                say.push(Line::Stdout(text));
                let ghost named = say@;
                assert(line_views(named) =~= line_views(so_far).push(LineView::Stdout(text@)));
                if show {
                    let mut more = receipt_summary(receipt);
                    let ghost tail = more@;
                    say.append(&mut more);
                    assert(line_views(say@) =~= line_views(named) + line_views(tail));
                }
                assert(line_views(say@) =~= line_views(so_far) + accepted_lines(
                    rs[i as int],
                    i as nat,
                    rs.len(),
                    show,
                ));
            },
            Err(e) => {
                let mut text = "✖ receipt ".to_owned();
                text.append(decimal_text((i + 1) as u128).as_str());
                text.append("/");
                text.append(decimal_text(total as u128).as_str());
                text.append(" failed to verify: ");
                text.append(e.message().as_str());
                say.push(Line::Stderr(text));
                assert(line_views(say@) =~= line_views(so_far).push(LineView::Stderr(text@)));
                proof {
                    lemma_report_stays_failed(rs, (i + 1) as nat, total as nat, key, show);
                }
                return VerifyReport { say, code: AUTH };
            },
        }
        i = i + 1;
    }
    VerifyReport { say, code: OK }
}

/// The command succeeds exactly where every receipt verifies; else it ends with the code
/// for authentication.
pub proof fn law_every_receipt_must_verify(
    rs: Seq<ReceiptView>,
    n: nat,
    pem: Option<Seq<char>>,
    show: bool,
)
    requires
        n <= rs.len(),
    ensures
        report_on(rs, n, pem, show).code == OK <==> forall|i: int|
            0 <= i < n ==> full_verdict(#[trigger] rs[i], pem) is Ok,
        report_on(rs, n, pem, show).code == OK || report_on(rs, n, pem, show).code == AUTH,
    decreases n,
{
    if n > 0 {
        law_every_receipt_must_verify(rs, (n - 1) as nat, pem, show);
        assert(full_verdict(rs[n - 1], pem) is Ok || full_verdict(rs[n - 1], pem) is Err);
    }
}

} // verus!
