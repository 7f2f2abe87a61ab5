//! Rendering of check results: a human text report, plain or colored, and the machine
//! formats that CI systems read (JSON, SARIF, GitLab Code Quality and GitLab SAST).
//! Findings are reported at file granularity: a file is sent whole as one item, so an
//! annotation points at its first line.
use vstd::prelude::*;
use crate::api::{ApiKeyInfo, CheckResponse, QueryResult, RuleDetail, RuleSummary, Summary};
use crate::json::{field, field_views, json_array, json_number, json_object, json_opt, json_pretty, json_pretty_text, json_text, json_view, number, object, text_or_null, views, JsonView};
use crate::style::{bold, bold_red, bold_red_style, bold_style, color_style, colored, dim, dim_style, styled, styled_text, Color, TextStyle};
use crate::text::{byte_count, byte_len, decimal, decimal_text, hex_padded, hex_padded_text, line_spans, lines, opt_is, opt_view, padded, padded_text, same_text, slice_text, space_text, spaces, span_texts, str_or, text_or, text_views, to_chars};

verus! {

/// The version of this client, as reports and requests name it.
pub const CLI_VERSION: &'static str = "1.4.2";

/// Output format of a check.
#[derive(Clone, Copy, Debug, PartialEq, Eq, Structural)]
pub enum Format {
    /// Human-readable summary.
    Text,
    /// The check response, for scripting.
    Json,
    /// SARIF, for code scanning annotations.
    Sarif,
    /// GitLab Code Quality report.
    GitlabCodequality,
    /// GitLab SAST report.
    GitlabSast,
}

// ── Findings ──────────────────────────────────────────────────────────────────

/// A result worth reporting: everything but a clean verdict.
pub open spec fn finding(q: QueryResult) -> bool {
    q.status@ != "ALLOWED"@
}

/// The findings among the results, in order.
pub open spec fn findings(qs: Seq<QueryResult>) -> Seq<QueryResult>
    decreases qs.len(),
{
    if qs.len() == 0 {
        seq![]
    } else if finding(qs.last()) {
        findings(qs.drop_last()).push(qs.last())
    } else {
        findings(qs.drop_last())
    }
}

pub fn is_finding(q: &QueryResult) -> (r: bool)
    ensures
        r == finding(*q),
{
    !same_text(q.status.as_str(), "ALLOWED")
}

/// The source of a result: the file at its 1-based position, `<stdin>` for `-` and for
/// a position that names no file.
pub open spec fn source_of(files: Seq<String>, line: u32) -> Seq<char> {
    if 1 <= line <= files.len() && files[line - 1]@ != "-"@ {
        files[line - 1]@
    } else {
        "<stdin>"@
    }
}

pub fn file_for(files: &[String], line: u32) -> (r: String)
    ensures
        r@ == source_of(files@, line),
{
    if line == 0 {
        return "<stdin>".to_owned();
    }
    let i: usize = (line - 1) as usize;
    if i < files.len() && !same_text(files[i].as_str(), "-") {
        files[i].clone()
    } else {
        "<stdin>".to_owned()
    }
}

/// The FNV-1a hash of some bytes.
pub open spec fn fnv1a(bytes: Seq<u8>) -> u64
    decreases bytes.len(),
{
    if bytes.len() == 0 {
        0xcbf2_9ce4_8422_2325
    } else {
        (fnv1a(bytes.drop_last()) ^ (bytes.last() as u64)).wrapping_mul(0x0000_0100_0000_01b3)
    }
}

/// The fingerprint of a finding: sixteen hexadecimal digits over rule, file and syntax
/// path. It does not depend on the line, so edits elsewhere do not shift it.
pub open spec fn fingerprint_of(rule: Seq<char>, file: Seq<char>, path: Seq<char>) -> Seq<char> {
    hex_padded(
        fnv1a(vstd::utf8::encode_utf8(rule + "|"@ + file + "|"@ + path)) as nat,
        16,
    )
}

/// The fingerprint of a result in `file`.
pub open spec fn result_fingerprint(q: QueryResult, file: Seq<char>) -> Seq<char> {
    fingerprint_of(text_or(q.rule_code, ""@), file, text_or(q.ast_node_path, ""@))
}

pub fn fingerprint(q: &QueryResult, file: &str) -> (r: String)
    ensures
        r@ == result_fingerprint(*q, file@),
{
    let mut seed = str_or(&q.rule_code, "").to_owned();
    seed.append("|");
    seed.append(file);
    seed.append("|");
    seed.append(str_or(&q.ast_node_path, ""));
    let bytes = seed.as_str().as_bytes();
    let mut hash: u64 = 0xcbf2_9ce4_8422_2325;
    let mut i: usize = 0;
    while i < bytes.len()
        invariant
            i <= bytes@.len(),
            hash == fnv1a(bytes@.subrange(0, i as int)),
        decreases bytes@.len() - i,
    {
        assert(bytes@.subrange(0, i + 1).drop_last() =~= bytes@.subrange(0, i as int));
        hash = (hash ^ (bytes[i] as u64)).wrapping_mul(0x0000_0100_0000_01b3);
        i = i + 1;
    }
    assert(bytes@.subrange(0, i as int) =~= bytes@);
    hex_padded_text(hash, 16)
}

/// A finding is recognised again after edits elsewhere: its fingerprint is the same
/// wherever rule, file and syntax path are, whatever its line, verdict and severity.
pub proof fn law_fingerprint_ignores_position(a: QueryResult, b: QueryResult, file: Seq<char>)
    requires
        opt_view(a.rule_code) == opt_view(b.rule_code),
        opt_view(a.ast_node_path) == opt_view(b.ast_node_path),
    ensures
        result_fingerprint(a, file) == result_fingerprint(b, file),
{
}

proof fn lemma_hex_padded_len(n: nat, digits: nat)
    ensures
        hex_padded(n, digits).len() == digits,
    decreases digits,
{
    if digits > 0 {
        lemma_hex_padded_len(n / 16, (digits - 1) as nat);
    }
}

/// A fingerprint has sixteen digits.
pub proof fn law_fingerprint_length(q: QueryResult, file: Seq<char>)
    ensures
        result_fingerprint(q, file).len() == 16,
{
    lemma_hex_padded_len(
        fnv1a(
            vstd::utf8::encode_utf8(
                text_or(q.rule_code, ""@) + "|"@ + file + "|"@ + text_or(q.ast_node_path, ""@),
            ),
        ) as nat,
        16,
    );
}

// ── Levels and messages ───────────────────────────────────────────────────────

pub open spec fn sarif_level_of(status: Seq<char>, severity: Option<Seq<char>>) -> Seq<char> {
    if status == "BLOCKED"@ {
        "error"@
    } else if status == "PARSE_ERROR"@ {
        "warning"@
    } else if severity == Some("critical"@) || severity == Some("high"@) {
        "error"@
    } else if severity == Some("medium"@) {
        "warning"@
    } else {
        "note"@
    }
}

pub fn sarif_level(q: &QueryResult) -> (r: &'static str)
    ensures
        r@ == sarif_level_of(q.status@, opt_view(q.severity)),
{
    if same_text(q.status.as_str(), "BLOCKED") {
        "error"
    } else if same_text(q.status.as_str(), "PARSE_ERROR") {
        "warning"
    } else if opt_is(&q.severity, "critical") || opt_is(&q.severity, "high") {
        "error"
    } else if opt_is(&q.severity, "medium") {
        "warning"
    } else {
        "note"
    }
}

pub open spec fn cq_severity_of(status: Seq<char>, severity: Option<Seq<char>>) -> Seq<char> {
    if status == "BLOCKED"@ {
        "blocker"@
    } else if status == "PARSE_ERROR"@ {
        "info"@
    } else if severity == Some("critical"@) {
        "critical"@
    } else if severity == Some("high"@) {
        "major"@
    } else if severity == Some("medium"@) {
        "minor"@
    } else {
        "info"@
    }
}

pub fn gitlab_cq_severity(q: &QueryResult) -> (r: &'static str)
    ensures
        r@ == cq_severity_of(q.status@, opt_view(q.severity)),
{
    if same_text(q.status.as_str(), "BLOCKED") {
        "blocker"
    } else if same_text(q.status.as_str(), "PARSE_ERROR") {
        "info"
    } else if opt_is(&q.severity, "critical") {
        "critical"
    } else if opt_is(&q.severity, "high") {
        "major"
    } else if opt_is(&q.severity, "medium") {
        "minor"
    } else {
        "info"
    }
}

pub open spec fn sast_severity_of(status: Seq<char>, severity: Option<Seq<char>>) -> Seq<char> {
    if status == "BLOCKED"@ {
        "Critical"@
    } else if status == "PARSE_ERROR"@ {
        "Info"@
    } else if severity == Some("critical"@) {
        "Critical"@
    } else if severity == Some("high"@) {
        "High"@
    } else if severity == Some("medium"@) {
        "Medium"@
    } else if severity == Some("low"@) {
        "Low"@
    } else if severity == Some("informational"@) {
        "Info"@
    } else {
        "Unknown"@
    }
}

pub fn gitlab_sast_severity(q: &QueryResult) -> (r: &'static str)
    ensures
        r@ == sast_severity_of(q.status@, opt_view(q.severity)),
{
    if same_text(q.status.as_str(), "BLOCKED") {
        "Critical"
    } else if same_text(q.status.as_str(), "PARSE_ERROR") {
        "Info"
    } else if opt_is(&q.severity, "critical") {
        "Critical"
    } else if opt_is(&q.severity, "high") {
        "High"
    } else if opt_is(&q.severity, "medium") {
        "Medium"
    } else if opt_is(&q.severity, "low") {
        "Low"
    } else if opt_is(&q.severity, "informational") {
        "Info"
    } else {
        "Unknown"
    }
}

/// The message of a finding on one line. SQL that could not be parsed is no rule match
/// and gets a plain sentence; else rule, status, severity, syntax path (unless it only
/// repeats the status) and fix follow each other as far as they are there.
pub open spec fn message_of(q: QueryResult) -> Seq<char> {
    if q.status@ == "PARSE_ERROR"@ {
        "Could not parse this SQL — skipped, not blocked (check the syntax or --dialect)"@
    } else {
        let head = text_or(q.rule_code, "VERICTO"@) + " ["@ + q.status@ + "]"@;
        let severity = text_or(q.severity, ""@);
        let with_severity = if severity.len() > 0 {
            head + " ("@ + severity + ")"@
        } else {
            head
        };
        let path = text_or(q.ast_node_path, ""@);
        let with_path = if path.len() > 0 && path != q.status@ {
            with_severity + " — "@ + path
        } else {
            with_severity
        };
        match q.suggested_fix {
            Some(fix) => with_path + " · fix: "@ + fix@,
            None => with_path,
        }
    }
}

pub fn finding_message(q: &QueryResult) -> (r: String)
    ensures
        r@ == message_of(*q),
{
    if same_text(q.status.as_str(), "PARSE_ERROR") {
        return "Could not parse this SQL — skipped, not blocked (check the syntax or --dialect)".to_owned();
    }
    let mut msg = str_or(&q.rule_code, "VERICTO").to_owned();
    msg.append(" [");
    msg.append(q.status.as_str());
    msg.append("]");
    proof {
        reveal_strlit("");
    }
    let severity = str_or(&q.severity, "");
    if severity.unicode_len() > 0 {
        msg.append(" (");
        msg.append(severity);
        msg.append(")");
    }
    let path = str_or(&q.ast_node_path, "");
    if path.unicode_len() > 0 && !same_text(path, q.status.as_str()) {
        msg.append(" — ");
        msg.append(path);
    }
    if let Some(fix) = &q.suggested_fix {
        msg.append(" · fix: ");
        msg.append(fix.as_str());
    }
    msg
}

/// A character of a workflow command's message.
pub open spec fn gha_char(c: char) -> Seq<char> {
    if c == '%' {
        "%25"@
    } else if c == '\r' {
        "%0D"@
    } else if c == '\n' {
        "%0A"@
    } else {
        seq![c]
    }
}

pub open spec fn gha_text(s: Seq<char>) -> Seq<char>
    decreases s.len(),
{
    if s.len() == 0 {
        seq![]
    } else {
        gha_text(s.drop_last()) + gha_char(s.last())
    }
}

/// Escapes what workflow commands treat specially, so that a message stays on one line.
pub fn gha_encode(s: &str) -> (r: String)
    ensures
        r@ == gha_text(s@),
{
    let cs = to_chars(s);
    let mut out: String = String::new();
    let mut i: usize = 0;
    while i < cs.len()
        invariant
            i <= cs@.len(),
            out@ == gha_text(cs@.subrange(0, i as int)),
        decreases cs@.len() - i,
    {
        let c = cs[i];
        let ghost before = out@;
        if c == '%' {
            out.append("%25");
        } else if c == '\r' {
            out.append("%0D");
        } else if c == '\n' {
            out.append("%0A");
        } else {
            out.push(c);
        }
        assert(out@ =~= before + gha_char(c));
        assert(cs@.subrange(0, i + 1).drop_last() =~= cs@.subrange(0, i as int));
        i = i + 1;
    }
    assert(cs@.subrange(0, i as int) =~= cs@);
    out
}

/// An escaped message is a single line.
pub proof fn law_gha_text_is_one_line(s: Seq<char>, k: int)
    requires
        0 <= k < gha_text(s).len(),
    ensures
        gha_text(s)[k] != '\n',
        gha_text(s)[k] != '\r',
    decreases s.len(),
{
    reveal_strlit("%25");
    reveal_strlit("%0D");
    reveal_strlit("%0A");
    let head = gha_text(s.drop_last());
    if k < head.len() {
        law_gha_text_is_one_line(s.drop_last(), k);
        assert(gha_text(s)[k] == head[k]);
    } else {
        assert(gha_text(s)[k] == gha_char(s.last())[k - head.len()]);
    }
}

/// A text as a terminal hyperlink.
pub open spec fn link(url: Seq<char>, text: Seq<char>) -> Seq<char> {
    "\x1b]8;;"@ + url + "\x1b\\"@ + text + "\x1b]8;;\x1b\\"@
}

pub fn osc8_link(url: &str, text: &str) -> (r: String)
    ensures
        r@ == link(url@, text@),
{
    let mut out = "\x1b]8;;".to_owned();
    out.append(url);
    out.append("\x1b\\");
    out.append(text);
    out.append("\x1b]8;;\x1b\\");
    out
}

// ── JSON ──────────────────────────────────────────────────────────────────────

pub open spec fn summary_doc(s: Summary) -> JsonView {
    object(
        seq![
            ("total"@, number(s.total as int)),
            ("blocked"@, number(s.blocked as int)),
            ("allowed"@, number(s.allowed as int)),
            ("flagged"@, number(s.flagged as int)),
            ("monitored"@, number(s.monitored as int)),
            ("parse_errors"@, number(s.parse_errors as int)),
            ("ruleset_version"@, JsonView::Text(s.ruleset_version@)),
        ],
    )
}

pub open spec fn result_doc(q: QueryResult) -> JsonView {
    object(
        seq![
            ("line"@, number(q.line as int)),
            ("status"@, JsonView::Text(q.status@)),
            ("action"@, text_or_null(opt_view(q.action))),
            ("rule_code"@, text_or_null(opt_view(q.rule_code))),
            ("severity"@, text_or_null(opt_view(q.severity))),
            ("ast_node_path"@, text_or_null(opt_view(q.ast_node_path))),
            ("suggested_fix"@, text_or_null(opt_view(q.suggested_fix))),
            ("sql_preview"@, JsonView::Text(q.sql_preview@)),
        ],
    )
}

pub open spec fn result_docs(qs: Seq<QueryResult>) -> Seq<JsonView> {
    qs.map_values(|q: QueryResult| result_doc(q))
}

/// The JSON report of a check: its counts, all its results and its exit code.
pub open spec fn json_report(resp: CheckResponse) -> JsonView {
    object(
        seq![
            ("summary"@, summary_doc(resp.summary)),
            ("queries"@, JsonView::Array(result_docs(resp.queries@))),
            ("exit_code"@, number(resp.exit_code as int)),
        ],
    )
}

fn summary_value(s: &Summary) -> (r: serde_json::Value)
    ensures
        json_view(r) == summary_doc(*s),
{
    let fields = vec![
        field("total", json_number(s.total as i64)),
        field("blocked", json_number(s.blocked as i64)),
        field("allowed", json_number(s.allowed as i64)),
        field("flagged", json_number(s.flagged as i64)),
        field("monitored", json_number(s.monitored as i64)),
        field("parse_errors", json_number(s.parse_errors as i64)),
        field("ruleset_version", json_text(s.ruleset_version.as_str())),
    ];
    assert(field_views(fields@) =~= seq![
        ("total"@, number(s.total as int)),
        ("blocked"@, number(s.blocked as int)),
        ("allowed"@, number(s.allowed as int)),
        ("flagged"@, number(s.flagged as int)),
        ("monitored"@, number(s.monitored as int)),
        ("parse_errors"@, number(s.parse_errors as int)),
        ("ruleset_version"@, JsonView::Text(s.ruleset_version@)),
    ]);
    json_object(fields)
}

fn result_value(q: &QueryResult) -> (r: serde_json::Value)
    ensures
        json_view(r) == result_doc(*q),
{
    let fields = vec![
        field("line", json_number(q.line as i64)),
        field("status", json_text(q.status.as_str())),
        field("action", json_opt(&q.action)),
        field("rule_code", json_opt(&q.rule_code)),
        field("severity", json_opt(&q.severity)),
        field("ast_node_path", json_opt(&q.ast_node_path)),
        field("suggested_fix", json_opt(&q.suggested_fix)),
        field("sql_preview", json_text(q.sql_preview.as_str())),
    ];
    assert(field_views(fields@) =~= seq![
        ("line"@, number(q.line as int)),
        ("status"@, JsonView::Text(q.status@)),
        ("action"@, text_or_null(opt_view(q.action))),
        ("rule_code"@, text_or_null(opt_view(q.rule_code))),
        ("severity"@, text_or_null(opt_view(q.severity))),
        ("ast_node_path"@, text_or_null(opt_view(q.ast_node_path))),
        ("suggested_fix"@, text_or_null(opt_view(q.suggested_fix))),
        ("sql_preview"@, JsonView::Text(q.sql_preview@)),
    ]);
    json_object(fields)
}

/// The JSON report of a check, as a document.
pub fn json_document(resp: &CheckResponse) -> (r: serde_json::Value)
    ensures
        json_view(r) == json_report(*resp),
{
    let mut results: Vec<serde_json::Value> = Vec::new();
    let mut i: usize = 0;
    while i < resp.queries.len()
        invariant
            i <= resp.queries@.len(),
            views(results@) == result_docs(resp.queries@.take(i as int)),
        decreases resp.queries@.len() - i,
    {
        let ghost before = results@;
        results.push(result_value(&resp.queries[i]));
        i = i + 1;
        proof {
            assert(views(results@) =~= views(before).push(json_view(results@.last())));
            assert(result_docs(resp.queries@.take(i as int)) =~= result_docs(
                resp.queries@.take(i - 1),
            ).push(result_doc(resp.queries@[i - 1])));
        }
    }
    assert(resp.queries@.take(i as int) =~= resp.queries@);
    let fields = vec![
        field("summary", summary_value(&resp.summary)),
        field("queries", json_array(results)),
        field("exit_code", json_number(resp.exit_code as i64)),
    ];
    assert(field_views(fields@) =~= seq![
        ("summary"@, summary_doc(resp.summary)),
        ("queries"@, JsonView::Array(result_docs(resp.queries@))),
        ("exit_code"@, number(resp.exit_code as int)),
    ]);
    json_object(fields)
}

pub fn render_json(resp: &CheckResponse) -> (r: String)
    ensures
        r@ == json_pretty_text(json_report(*resp)),
{
    json_pretty(&json_document(resp))
}

// ── SARIF ─────────────────────────────────────────────────────────────────────

pub open spec fn text_field(key: Seq<char>, text: Seq<char>) -> (Seq<char>, JsonView) {
    (key, JsonView::Text(text))
}

pub open spec fn sarif_result(q: QueryResult, files: Seq<String>) -> JsonView {
    object(
        seq![
            text_field("ruleId"@, text_or(q.rule_code, "VERICTO"@)),
            text_field("level"@, sarif_level_of(q.status@, opt_view(q.severity))),
            ("message"@, object(seq![text_field("text"@, message_of(q))])),
            ("locations"@, JsonView::Array(seq![sarif_location(source_of(files, q.line))])),
        ],
    )
}

pub open spec fn sarif_location(uri: Seq<char>) -> JsonView {
    object(
        seq![
            (
                "physicalLocation"@,
                object(
                    seq![
                        ("artifactLocation"@, object(seq![text_field("uri"@, uri)])),
                        ("region"@, object(seq![("startLine"@, number(1))])),
                    ],
                ),
            ),
        ],
    )
}

pub open spec fn sarif_results(fs: Seq<QueryResult>, files: Seq<String>) -> Seq<JsonView> {
    fs.map_values(|q: QueryResult| sarif_result(q, files))
}

/// The rule codes of the findings, each once, in the order of their first appearance.
pub open spec fn rule_ids(fs: Seq<QueryResult>) -> Seq<Seq<char>>
    decreases fs.len(),
{
    if fs.len() == 0 {
        seq![]
    } else {
        let before = rule_ids(fs.drop_last());
        match fs.last().rule_code {
            Some(code) => if before.contains(code@) {
                before
            } else {
                before.push(code@)
            },
            None => before,
        }
    }
}

pub open spec fn sarif_rules(ids: Seq<Seq<char>>) -> Seq<JsonView> {
    ids.map_values(
        |id: Seq<char>| object(seq![text_field("id"@, id), text_field("name"@, id)]),
    )
}

/// The SARIF report of a check: the rules that fired, and one result per finding.
pub open spec fn sarif_report(resp: CheckResponse, files: Seq<String>) -> JsonView {
    object(
        seq![
            text_field("$schema"@, "https://json.schemastore.org/sarif-2.1.0.json"@),
            text_field("version"@, "2.1.0"@),
            ("runs"@, JsonView::Array(seq![sarif_run(findings(resp.queries@), files)])),
        ],
    )
}

pub open spec fn sarif_run(fs: Seq<QueryResult>, files: Seq<String>) -> JsonView {
    object(
        seq![
            ("tool"@, object(seq![("driver"@, sarif_driver(rule_ids(fs)))])),
            ("results"@, JsonView::Array(sarif_results(fs, files))),
        ],
    )
}

pub open spec fn sarif_driver(ids: Seq<Seq<char>>) -> JsonView {
    object(
        seq![
            text_field("name"@, "vericto"@),
            text_field("informationUri"@, "https://vericto.com"@),
            text_field("version"@, CLI_VERSION@),
            ("rules"@, JsonView::Array(sarif_rules(ids))),
        ],
    )
}

fn one_field(key: &str, v: serde_json::Value) -> (r: serde_json::Value)
    ensures
        json_view(r) == object(seq![(key@, json_view(v))]),
{
    let fields = vec![field(key, v)];
    assert(field_views(fields@) =~= seq![(key@, json_view(v))]);
    json_object(fields)
}

fn one_item(v: serde_json::Value) -> (r: serde_json::Value)
    ensures
        json_view(r) == JsonView::Array(seq![json_view(v)]),
{
    let items = vec![v];
    assert(views(items@) =~= seq![json_view(v)]);
    json_array(items)
}

fn sarif_location_value(uri: &str) -> (r: serde_json::Value)
    ensures
        json_view(r) == sarif_location(uri@),
{
    let fields = vec![
        field("artifactLocation", one_field("uri", json_text(uri))),
        field("region", one_field("startLine", json_number(1))),
    ];
    assert(field_views(fields@) =~= seq![
        ("artifactLocation"@, object(seq![text_field("uri"@, uri@)])),
        ("region"@, object(seq![("startLine"@, number(1))])),
    ]);
    one_field("physicalLocation", json_object(fields))
}

fn sarif_result_value(q: &QueryResult, files: &[String]) -> (r: serde_json::Value)
    ensures
        json_view(r) == sarif_result(*q, files@),
{
    let fields = vec![
        field("ruleId", json_text(str_or(&q.rule_code, "VERICTO"))),
        field("level", json_text(sarif_level(q))),
        field("message", one_field("text", json_text(finding_message(q).as_str()))),
        field("locations", one_item(sarif_location_value(file_for(files, q.line).as_str()))),
    ];
    assert(field_views(fields@) =~= seq![
        text_field("ruleId"@, text_or(q.rule_code, "VERICTO"@)),
        text_field("level"@, sarif_level_of(q.status@, opt_view(q.severity))),
        ("message"@, object(seq![text_field("text"@, message_of(*q))])),
        ("locations"@, JsonView::Array(seq![sarif_location(source_of(files@, q.line))])),
    ]);
    json_object(fields)
}

fn sarif_rule_value(id: &str) -> (r: serde_json::Value)
    ensures
        json_view(r) == object(seq![text_field("id"@, id@), text_field("name"@, id@)]),
{
    let fields = vec![field("id", json_text(id)), field("name", json_text(id))];
    assert(field_views(fields@) =~= seq![text_field("id"@, id@), text_field("name"@, id@)]);
    json_object(fields)
}

fn holds_text(v: &Vec<String>, s: &str) -> (r: bool)
    ensures
        r == text_views(v@).contains(s@),
{
    let mut i: usize = 0;
    while i < v.len()
        invariant
            i <= v@.len(),
            forall|k: int| 0 <= k < i ==> (#[trigger] v@[k])@ != s@,
        decreases v@.len() - i,
    {
        if same_text(v[i].as_str(), s) {
            assert(text_views(v@)[i as int] == s@);
            return true;
        }
        i = i + 1;
    }
    assert(!text_views(v@).contains(s@)) by {
        if text_views(v@).contains(s@) {
            let k = choose|k: int| 0 <= k < text_views(v@).len() && text_views(v@)[k] == s@;
            assert(v@[k]@ == s@);
        }
    }
    false
}

/// The SARIF report of a check, as a document.
pub fn sarif_document(resp: &CheckResponse, files: &[String]) -> (r: serde_json::Value)
    ensures
        json_view(r) == sarif_report(*resp, files@),
{
    let ghost qs = resp.queries@;
    let mut ids: Vec<String> = Vec::new();
    let mut results: Vec<serde_json::Value> = Vec::new();
    let mut i: usize = 0;
    while i < resp.queries.len()
        invariant
            qs == resp.queries@,
            i <= qs.len(),
            text_views(ids@) == rule_ids(findings(qs.take(i as int))),
            views(results@) == sarif_results(findings(qs.take(i as int)), files@),
        decreases qs.len() - i,
    {
        let q = &resp.queries[i];
        let ghost before = results@;
        let ghost ids_before = ids@;
        let ghost fs = findings(qs.take(i as int));
        assert(qs.take(i + 1).drop_last() =~= qs.take(i as int));
        if is_finding(q) {
            assert(fs.push(*q).drop_last() =~= fs);
            if let Some(code) = &q.rule_code {
                if !holds_text(&ids, code.as_str()) {
                    ids.push(code.clone());
                    assert(text_views(ids@) =~= text_views(ids_before).push(code@));
                }
            }
            results.push(sarif_result_value(q, files));
            proof {
                assert(views(results@) =~= views(before).push(json_view(results@.last())));
                assert(sarif_results(fs.push(*q), files@) =~= sarif_results(fs, files@).push(
                    sarif_result(*q, files@),
                ));
            }
        }
        i = i + 1;
    }
    assert(qs.take(i as int) =~= qs);
    let mut rules: Vec<serde_json::Value> = Vec::new();
    let mut k: usize = 0;
    while k < ids.len()
        invariant
            k <= ids@.len(),
            views(rules@) == sarif_rules(text_views(ids@).take(k as int)),
        decreases ids@.len() - k,
    {
        let ghost before = rules@;
        rules.push(sarif_rule_value(ids[k].as_str()));
        proof {
            assert(views(rules@) =~= views(before).push(json_view(rules@.last())));
            assert(text_views(ids@).take(k + 1) =~= text_views(ids@).take(k as int).push(ids@[k as int]@));
            assert(sarif_rules(text_views(ids@).take(k + 1)) =~= sarif_rules(
                text_views(ids@).take(k as int),
            ).push(
                object(
                    seq![
                        text_field("id"@, ids@[k as int]@),
                        text_field("name"@, ids@[k as int]@),
                    ],
                ),
            ));
        }
        k = k + 1;
    }
    assert(text_views(ids@).take(k as int) =~= text_views(ids@));
    let driver = vec![
        field("name", json_text("vericto")),
        field("informationUri", json_text("https://vericto.com")),
        field("version", json_text(CLI_VERSION)),
        field("rules", json_array(rules)),
    ];
    assert(field_views(driver@) =~= seq![
        text_field("name"@, "vericto"@),
        text_field("informationUri"@, "https://vericto.com"@),
        text_field("version"@, CLI_VERSION@),
        ("rules"@, JsonView::Array(sarif_rules(rule_ids(findings(qs))))),
    ]);
    let run = vec![
        field("tool", one_field("driver", json_object(driver))),
        field("results", json_array(results)),
    ];
    assert(field_views(run@) =~= seq![
        ("tool"@, object(seq![("driver"@, sarif_driver(rule_ids(findings(qs))))])),
        ("results"@, JsonView::Array(sarif_results(findings(qs), files@))),
    ]);
    let report = vec![
        field("$schema", json_text("https://json.schemastore.org/sarif-2.1.0.json")),
        field("version", json_text("2.1.0")),
        field("runs", one_item(json_object(run))),
    ];
    assert(field_views(report@) =~= seq![
        text_field("$schema"@, "https://json.schemastore.org/sarif-2.1.0.json"@),
        text_field("version"@, "2.1.0"@),
        ("runs"@, JsonView::Array(seq![sarif_run(findings(qs), files@)])),
    ]);
    json_object(report)
}

pub fn render_sarif(resp: &CheckResponse, files: &[String]) -> (r: String)
    ensures
        r@ == json_pretty_text(sarif_report(*resp, files@)),
{
    json_pretty(&sarif_document(resp, files))
}

// ── GitLab reports ────────────────────────────────────────────────────────────

pub open spec fn cq_issue(q: QueryResult, files: Seq<String>) -> JsonView {
    let file = source_of(files, q.line);
    object(
        seq![
            text_field("description"@, message_of(q)),
            text_field("check_name"@, text_or(q.rule_code, "VERICTO"@)),
            text_field("fingerprint"@, result_fingerprint(q, file)),
            text_field("severity"@, cq_severity_of(q.status@, opt_view(q.severity))),
            (
                "location"@,
                object(
                    seq![
                        text_field("path"@, file),
                        ("lines"@, object(seq![("begin"@, number(1))])),
                    ],
                ),
            ),
        ],
    )
}

pub open spec fn cq_issues(fs: Seq<QueryResult>, files: Seq<String>) -> Seq<JsonView> {
    fs.map_values(|q: QueryResult| cq_issue(q, files))
}

/// The Code Quality report of a check: one issue per finding.
pub open spec fn cq_report(resp: CheckResponse, files: Seq<String>) -> JsonView {
    JsonView::Array(cq_issues(findings(resp.queries@), files))
}

fn cq_issue_value(q: &QueryResult, files: &[String]) -> (r: serde_json::Value)
    ensures
        json_view(r) == cq_issue(*q, files@),
{
    let file = file_for(files, q.line);
    let location = vec![
        field("path", json_text(file.as_str())),
        field("lines", one_field("begin", json_number(1))),
    ];
    assert(field_views(location@) =~= seq![
        text_field("path"@, file@),
        ("lines"@, object(seq![("begin"@, number(1))])),
    ]);
    let fields = vec![
        field("description", json_text(finding_message(q).as_str())),
        field("check_name", json_text(str_or(&q.rule_code, "VERICTO"))),
        field("fingerprint", json_text(fingerprint(q, file.as_str()).as_str())),
        field("severity", json_text(gitlab_cq_severity(q))),
        field("location", json_object(location)),
    ];
    assert(field_views(fields@) =~= seq![
        text_field("description"@, message_of(*q)),
        text_field("check_name"@, text_or(q.rule_code, "VERICTO"@)),
        text_field("fingerprint"@, result_fingerprint(*q, file@)),
        text_field("severity"@, cq_severity_of(q.status@, opt_view(q.severity))),
        (
            "location"@,
            object(
                seq![text_field("path"@, file@), ("lines"@, object(seq![("begin"@, number(1))]))],
            ),
        ),
    ]);
    json_object(fields)
}

/// The Code Quality report of a check, as a document.
pub fn cq_document(resp: &CheckResponse, files: &[String]) -> (r: serde_json::Value)
    ensures
        json_view(r) == cq_report(*resp, files@),
{
    let ghost qs = resp.queries@;
    let mut issues: Vec<serde_json::Value> = Vec::new();
    let mut i: usize = 0;
    while i < resp.queries.len()
        invariant
            qs == resp.queries@,
            i <= qs.len(),
            views(issues@) == cq_issues(findings(qs.take(i as int)), files@),
        decreases qs.len() - i,
    {
        let q = &resp.queries[i];
        let ghost before = issues@;
        let ghost fs = findings(qs.take(i as int));
        assert(qs.take(i + 1).drop_last() =~= qs.take(i as int));
        if is_finding(q) {
            issues.push(cq_issue_value(q, files));
            proof {
                assert(views(issues@) =~= views(before).push(json_view(issues@.last())));
                assert(cq_issues(fs.push(*q), files@) =~= cq_issues(fs, files@).push(
                    cq_issue(*q, files@),
                ));
            }
        }
        i = i + 1;
    }
    assert(qs.take(i as int) =~= qs);
    json_array(issues)
}

pub fn render_gitlab_codequality(resp: &CheckResponse, files: &[String]) -> (r: String)
    ensures
        r@ == json_pretty_text(cq_report(*resp, files@)),
{
    json_pretty(&cq_document(resp, files))
}

pub open spec fn sast_finding(q: QueryResult, files: Seq<String>) -> JsonView {
    let file = source_of(files, q.line);
    let rule = text_or(q.rule_code, "VERICTO"@);
    object(
        seq![
            text_field("id"@, result_fingerprint(q, file)),
            text_field("category"@, "sast"@),
            text_field("name"@, rule),
            text_field("message"@, message_of(q)),
            text_field("severity"@, sast_severity_of(q.status@, opt_view(q.severity))),
            (
                "location"@,
                object(seq![text_field("file"@, file), ("start_line"@, number(1))]),
            ),
            ("identifiers"@, JsonView::Array(seq![sast_identifier(rule)])),
        ],
    )
}

pub open spec fn sast_identifier(rule: Seq<char>) -> JsonView {
    object(
        seq![
            text_field("type"@, "vericto_rule"@),
            text_field("name"@, rule),
            text_field("value"@, rule),
        ],
    )
}

pub open spec fn sast_findings(fs: Seq<QueryResult>, files: Seq<String>) -> Seq<JsonView> {
    fs.map_values(|q: QueryResult| sast_finding(q, files))
}

pub open spec fn sast_scan() -> JsonView {
    object(
        seq![
            (
                "scanner"@,
                object(
                    seq![
                        text_field("id"@, "vericto"@),
                        text_field("name"@, "Vericto"@),
                        text_field("version"@, CLI_VERSION@),
                        ("vendor"@, object(seq![text_field("name"@, "Vericto"@)])),
                    ],
                ),
            ),
            text_field("type"@, "sast"@),
            text_field("status"@, "success"@),
        ],
    )
}

/// The SAST report of a check: one vulnerability per finding.
pub open spec fn sast_report(resp: CheckResponse, files: Seq<String>) -> JsonView {
    object(
        seq![
            text_field("version"@, "15.0.6"@),
            ("scan"@, sast_scan()),
            ("vulnerabilities"@, JsonView::Array(sast_findings(findings(resp.queries@), files))),
        ],
    )
}

fn sast_identifier_value(rule: &str) -> (r: serde_json::Value)
    ensures
        json_view(r) == sast_identifier(rule@),
{
    let fields = vec![
        field("type", json_text("vericto_rule")),
        field("name", json_text(rule)),
        field("value", json_text(rule)),
    ];
    assert(field_views(fields@) =~= seq![
        text_field("type"@, "vericto_rule"@),
        text_field("name"@, rule@),
        text_field("value"@, rule@),
    ]);
    json_object(fields)
}

fn sast_finding_value(q: &QueryResult, files: &[String]) -> (r: serde_json::Value)
    ensures
        json_view(r) == sast_finding(*q, files@),
{
    let file = file_for(files, q.line);
    let rule = str_or(&q.rule_code, "VERICTO");
    let location = vec![field("file", json_text(file.as_str())), field("start_line", json_number(1))];
    assert(field_views(location@) =~= seq![text_field("file"@, file@), ("start_line"@, number(1))]);
    let fields = vec![
        field("id", json_text(fingerprint(q, file.as_str()).as_str())),
        field("category", json_text("sast")),
        field("name", json_text(rule)),
        field("message", json_text(finding_message(q).as_str())),
        field("severity", json_text(gitlab_sast_severity(q))),
        field("location", json_object(location)),
        field("identifiers", one_item(sast_identifier_value(rule))),
    ];
    assert(field_views(fields@) =~= seq![
        text_field("id"@, result_fingerprint(*q, file@)),
        text_field("category"@, "sast"@),
        text_field("name"@, rule@),
        text_field("message"@, message_of(*q)),
        text_field("severity"@, sast_severity_of(q.status@, opt_view(q.severity))),
        ("location"@, object(seq![text_field("file"@, file@), ("start_line"@, number(1))])),
        ("identifiers"@, JsonView::Array(seq![sast_identifier(rule@)])),
    ]);
    json_object(fields)
}

fn sast_scan_value() -> (r: serde_json::Value)
    ensures
        json_view(r) == sast_scan(),
{
    let scanner = vec![
        field("id", json_text("vericto")),
        field("name", json_text("Vericto")),
        field("version", json_text(CLI_VERSION)),
        field("vendor", one_field("name", json_text("Vericto"))),
    ];
    assert(field_views(scanner@) =~= seq![
        text_field("id"@, "vericto"@),
        text_field("name"@, "Vericto"@),
        text_field("version"@, CLI_VERSION@),
        ("vendor"@, object(seq![text_field("name"@, "Vericto"@)])),
    ]);
    let scan = vec![
        field("scanner", json_object(scanner)),
        field("type", json_text("sast")),
        field("status", json_text("success")),
    ];
    assert(field_views(scan@) =~= seq![
        (
            "scanner"@,
            object(
                seq![
                    text_field("id"@, "vericto"@),
                    text_field("name"@, "Vericto"@),
                    text_field("version"@, CLI_VERSION@),
                    ("vendor"@, object(seq![text_field("name"@, "Vericto"@)])),
                ],
            ),
        ),
        text_field("type"@, "sast"@),
        text_field("status"@, "success"@),
    ]);
    json_object(scan)
}

/// The SAST report of a check, as a document.
pub fn sast_document(resp: &CheckResponse, files: &[String]) -> (r: serde_json::Value)
    ensures
        json_view(r) == sast_report(*resp, files@),
{
    let ghost qs = resp.queries@;
    let mut found: Vec<serde_json::Value> = Vec::new();
    let mut i: usize = 0;
    while i < resp.queries.len()
        invariant
            qs == resp.queries@,
            i <= qs.len(),
            views(found@) == sast_findings(findings(qs.take(i as int)), files@),
        decreases qs.len() - i,
    {
        let q = &resp.queries[i];
        let ghost before = found@;
        let ghost fs = findings(qs.take(i as int));
        assert(qs.take(i + 1).drop_last() =~= qs.take(i as int));
        if is_finding(q) {
            found.push(sast_finding_value(q, files));
            proof {
                assert(views(found@) =~= views(before).push(json_view(found@.last())));
                assert(sast_findings(fs.push(*q), files@) =~= sast_findings(fs, files@).push(
                    sast_finding(*q, files@),
                ));
            }
        }
        i = i + 1;
    }
    assert(qs.take(i as int) =~= qs);
    let fields = vec![
        field("version", json_text("15.0.6")),
        field("scan", sast_scan_value()),
        field("vulnerabilities", json_array(found)),
    ];
    assert(field_views(fields@) =~= seq![
        text_field("version"@, "15.0.6"@),
        ("scan"@, sast_scan()),
        ("vulnerabilities"@, JsonView::Array(sast_findings(findings(qs), files@))),
    ]);
    json_object(fields)
}

pub fn render_gitlab_sast(resp: &CheckResponse, files: &[String]) -> (r: String)
    ensures
        r@ == json_pretty_text(sast_report(*resp, files@)),
{
    json_pretty(&sast_document(resp, files))
}

/// The reports speak of exactly the results that are no clean verdict.
pub proof fn law_findings_are_the_results_worth_reporting(qs: Seq<QueryResult>, q: QueryResult)
    ensures
        findings(qs).contains(q) <==> qs.contains(q) && finding(q),
    decreases qs.len(),
{
    if qs.len() > 0 {
        let rest = qs.drop_last();
        law_findings_are_the_results_worth_reporting(rest, q);
        if rest.contains(q) {
            let k = choose|k: int| 0 <= k < rest.len() && rest[k] == q;
            assert(qs[k] == q);
        }
        if findings(rest).contains(q) {
            let k = choose|k: int| 0 <= k < findings(rest).len() && findings(rest)[k] == q;
            assert(findings(qs)[k] == q);
        }
        if qs.contains(q) && q != qs.last() {
            let k = choose|k: int| 0 <= k < qs.len() && qs[k] == q;
            assert(rest[k] == q);
        }
        if q == qs.last() {
            assert(qs[qs.len() - 1] == q);
            if finding(q) {
                assert(findings(qs)[findings(qs).len() - 1] == q);
            }
        }
        if findings(qs).contains(q) {
            let k = choose|k: int| 0 <= k < findings(qs).len() && findings(qs)[k] == q;
            if finding(qs.last()) && k == findings(qs).len() - 1 {
                assert(q == qs.last());
            } else {
                assert(findings(rest)[k] == q);
            }
        }
    }
}

// ── Text ──────────────────────────────────────────────────────────────────────

/// The marker of a status in the text report.
pub open spec fn status_mark(status: Seq<char>) -> Seq<char> {
    if status == "BLOCKED"@ {
        "✖"@
    } else if status == "FLAGGED"@ {
        "!"@
    } else if status == "MONITORED"@ {
        "•"@
    } else if status == "PARSE_ERROR"@ {
        "?"@
    } else {
        "✓"@
    }
}

/// The style of a status in the text report.
pub open spec fn status_look(status: Seq<char>) -> TextStyle {
    if status == "BLOCKED"@ {
        bold_red_style()
    } else if status == "FLAGGED"@ {
        color_style(Color::Yellow)
    } else if status == "MONITORED"@ {
        color_style(Color::Blue)
    } else if status == "PARSE_ERROR"@ {
        color_style(Color::Yellow)
    } else {
        color_style(Color::Green)
    }
}

pub fn status_style(status: &str) -> (r: (&'static str, TextStyle))
    ensures
        r.0@ == status_mark(status@),
        r.1 == status_look(status@),
{
    if same_text(status, "BLOCKED") {
        ("✖", bold_red())
    } else if same_text(status, "FLAGGED") {
        ("!", colored(Color::Yellow))
    } else if same_text(status, "MONITORED") {
        ("•", colored(Color::Blue))
    } else if same_text(status, "PARSE_ERROR") {
        ("?", colored(Color::Yellow))
    } else {
        ("✓", colored(Color::Green))
    }
}

/// The line that counts the verdicts of a run.
pub open spec fn summary_line(s: Summary) -> Seq<char> {
    decimal(s.blocked as nat) + " blocked · "@ + decimal(s.allowed as nat) + " allowed · "@
        + decimal(s.flagged as nat) + " flagged · "@ + decimal(s.monitored as nat)
        + " monitored   (ruleset "@ + s.ruleset_version@ + ")"@
}

fn summary_text(s: &Summary) -> (r: String)
    ensures
        r@ == summary_line(*s),
{
    let mut out = decimal_text(s.blocked as u128);
    out.append(" blocked · ");
    out.append(decimal_text(s.allowed as u128).as_str());
    out.append(" allowed · ");
    out.append(decimal_text(s.flagged as u128).as_str());
    out.append(" flagged · ");
    out.append(decimal_text(s.monitored as u128).as_str());
    out.append(" monitored   (ruleset ");
    out.append(s.ruleset_version.as_str());
    out.append(")");
    out
}

/// A line of detail below a finding.
pub open spec fn detail_line(indent: Seq<char>, text: Seq<char>) -> Seq<char> {
    indent + text + "\n"@
}

/// The syntax path and the fix below a finding, as far as they are there.
pub open spec fn details(path: Option<Seq<char>>, fix: Option<Seq<char>>, indent: Seq<char>) -> Seq<
    char,
> {
    (match path {
        Some(p) => detail_line(indent, p),
        None => seq![],
    }) + (match fix {
        Some(f) => detail_line(indent, "fix: "@ + f),
        None => seq![],
    })
}

fn detail_text(path: Option<&str>, fix: &Option<String>, indent: &str) -> (r: String)
    ensures
        r@ == details(crate::api::opt_str_view(path), opt_view(*fix), indent@),
{
    let mut out: String = String::new();
    if let Some(p) = path {
        out.append(indent);
        out.append(p);
        out.append("\n");
        assert(out@ =~= detail_line(indent@, p@));
    }
    let ghost before = out@;
    if let Some(f) = fix {
        out.append(indent);
        out.append("fix: ");
        out.append(f.as_str());
        out.append("\n");
        assert(out@ =~= before + detail_line(indent@, "fix: "@ + f@));
    } else {
        assert(out@ =~= before + Seq::<char>::empty());
    }
    out
}

/// A finding in the plain text report.
pub open spec fn plain_finding(q: QueryResult, files: Seq<String>) -> Seq<char> {
    q.status@ + " "@ + source_of(files, q.line) + "  "@ + text_or(q.rule_code, ""@) + " "@
        + text_or(q.severity, ""@) + "\n"@ + details(
        opt_view(q.ast_node_path),
        opt_view(q.suggested_fix),
        "    "@,
    )
}

pub open spec fn plain_findings(fs: Seq<QueryResult>, files: Seq<String>) -> Seq<char>
    decreases fs.len(),
{
    if fs.len() == 0 {
        seq![]
    } else {
        plain_findings(fs.drop_last(), files) + plain_finding(fs.last(), files)
    }
}

/// The text report without escape codes: the findings, unless the run is quiet, and
/// the summary line.
pub open spec fn plain_report(resp: CheckResponse, files: Seq<String>, quiet: bool) -> Seq<char> {
    (if quiet {
        seq![]
    } else {
        plain_findings(findings(resp.queries@), files)
    }) + (summary_line(resp.summary) + "\n"@)
}

fn plain_finding_text(q: &QueryResult, files: &[String]) -> (r: String)
    ensures
        r@ == plain_finding(*q, files@),
{
    let mut out = q.status.clone();
    out.append(" ");
    out.append(file_for(files, q.line).as_str());
    out.append("  ");
    out.append(str_or(&q.rule_code, ""));
    out.append(" ");
    out.append(str_or(&q.severity, ""));
    out.append("\n");
    out.append(
        detail_text(crate::text::opt_str(&q.ast_node_path), &q.suggested_fix, "    ").as_str(),
    );
    out
}

pub fn render_text_plain(resp: &CheckResponse, files: &[String], quiet: bool) -> (r: String)
    ensures
        r@ == plain_report(*resp, files@, quiet),
{
    let mut out: String = String::new();
    if !quiet {
        let ghost qs = resp.queries@;
        let mut i: usize = 0;
        while i < resp.queries.len()
            invariant
                qs == resp.queries@,
                i <= qs.len(),
                out@ == plain_findings(findings(qs.take(i as int)), files@),
            decreases qs.len() - i,
        {
            let q = &resp.queries[i];
            let ghost fs = findings(qs.take(i as int));
            assert(qs.take(i + 1).drop_last() =~= qs.take(i as int));
            if is_finding(q) {
                assert(fs.push(*q).drop_last() =~= fs);
                out.append(plain_finding_text(q, files).as_str());
            }
            i = i + 1;
        }
        assert(qs.take(i as int) =~= qs);
    }
    let mut last = summary_text(&resp.summary);
    last.append("\n");
    out.append(last.as_str());
    out
}

/// The line of a finding in a styled report.
pub open spec fn styled_line(q: QueryResult, files: Seq<String>) -> Seq<char> {
    styled(
        status_look(q.status@),
        status_mark(q.status@) + " "@ + source_of(files, q.line) + "  "@ + q.status@,
    ) + "  "@ + text_or(q.rule_code, ""@) + " "@ + text_or(q.severity, ""@) + "\n"@
}

fn styled_line_text(q: &QueryResult, files: &[String]) -> (r: String)
    ensures
        r@ == styled_line(*q, files@),
{
    let (mark, look) = status_style(q.status.as_str());
    let mut inner = mark.to_owned();
    inner.append(" ");
    inner.append(file_for(files, q.line).as_str());
    inner.append("  ");
    inner.append(q.status.as_str());
    let mut out = styled_text(look, inner.as_str());
    out.append("  ");
    out.append(str_or(&q.rule_code, ""));
    out.append(" ");
    out.append(str_or(&q.severity, ""));
    out.append("\n");
    out
}

/// A finding in the colored text report.
pub open spec fn colored_finding(q: QueryResult, files: Seq<String>) -> Seq<char> {
    styled_line(q, files) + details(opt_view(q.ast_node_path), opt_view(q.suggested_fix), "    "@)
}

pub open spec fn colored_findings(fs: Seq<QueryResult>, files: Seq<String>) -> Seq<char>
    decreases fs.len(),
{
    if fs.len() == 0 {
        seq![]
    } else {
        colored_findings(fs.drop_last(), files) + colored_finding(fs.last(), files)
    }
}

/// The text report with escape codes.
pub open spec fn colored_report(resp: CheckResponse, files: Seq<String>, quiet: bool) -> Seq<char> {
    (if quiet {
        seq![]
    } else {
        colored_findings(findings(resp.queries@), files)
    }) + (styled(dim_style(), summary_line(resp.summary)) + "\n"@)
}

pub fn render_text_colored(resp: &CheckResponse, files: &[String], quiet: bool) -> (r: String)
    ensures
        r@ == colored_report(*resp, files@, quiet),
{
    let mut out: String = String::new();
    if !quiet {
        let ghost qs = resp.queries@;
        let mut i: usize = 0;
        while i < resp.queries.len()
            invariant
                qs == resp.queries@,
                i <= qs.len(),
                out@ == colored_findings(findings(qs.take(i as int)), files@),
            decreases qs.len() - i,
        {
            let q = &resp.queries[i];
            let ghost fs = findings(qs.take(i as int));
            assert(qs.take(i + 1).drop_last() =~= qs.take(i as int));
            if is_finding(q) {
                assert(fs.push(*q).drop_last() =~= fs);
                let mut one = styled_line_text(q, files);
                one.append(
                    detail_text(
                        crate::text::opt_str(&q.ast_node_path),
                        &q.suggested_fix,
                        "    ",
                    ).as_str(),
                );
                out.append(one.as_str());
            }
            i = i + 1;
        }
        assert(qs.take(i as int) =~= qs);
    }
    let mut last = styled_text(dim(), summary_text(&resp.summary).as_str());
    last.append("\n");
    out.append(last.as_str());
    out
}

/// Where a report goes.
#[derive(Clone, Copy, Debug, PartialEq, Eq, Structural)]
pub enum Target {
    /// A file, which is written as it stands.
    File,
    /// The terminal or a pipe.
    Stdout,
}

/// The report of a check in a format. Machine formats end with a line ending on
/// standard output; text is colored only there, and only where color is wanted.
pub open spec fn report(
    resp: CheckResponse,
    format: Format,
    files: Seq<String>,
    quiet: bool,
    target: Target,
    color: bool,
) -> Seq<char> {
    let end = if target is File {
        seq![]
    } else {
        "\n"@
    };
    match format {
        Format::Json => json_pretty_text(json_report(resp)) + end,
        Format::Sarif => json_pretty_text(sarif_report(resp, files)) + end,
        Format::GitlabCodequality => json_pretty_text(cq_report(resp, files)) + end,
        Format::GitlabSast => json_pretty_text(sast_report(resp, files)) + end,
        Format::Text => if target is File || !color {
            plain_report(resp, files, quiet)
        } else {
            colored_report(resp, files, quiet)
        },
    }
}

/// The report of a check in a format.
pub fn render(
    resp: &CheckResponse,
    format: Format,
    files: &[String],
    quiet: bool,
    target: Target,
    color: bool,
) -> (r: String)
    ensures
        r@ == report(*resp, format, files@, quiet, target, color),
{
    let mut body = match format {
        Format::Json => render_json(resp),
        Format::Sarif => render_sarif(resp, files),
        Format::GitlabCodequality => render_gitlab_codequality(resp, files),
        Format::GitlabSast => render_gitlab_sast(resp, files),
        Format::Text => {
            return if target == Target::File || !color {
                render_text_plain(resp, files, quiet)
            } else {
                render_text_colored(resp, files, quiet)
            };
        },
    };
    if target == Target::Stdout {
        body.append("\n");
    } else {
        assert(body@ + Seq::<char>::empty() =~= body@);
    }
    body
}

// ── Failure summary ───────────────────────────────────────────────────────────

/// The title of a finding's annotation.
pub open spec fn annotation_title(q: QueryResult) -> Seq<char> {
    (match q.rule_code {
        Some(code) => "Vericto "@ + code@ + " ["@,
        None => "Vericto ["@,
    }) + q.status@ + "]"@
}

/// The workflow command that annotates a finding's file.
pub open spec fn annotation(q: QueryResult, files: Seq<String>) -> Seq<char> {
    "::error file="@ + source_of(files, q.line) + ",line=1,title="@ + annotation_title(q) + "::"@
        + gha_text(message_of(q)) + "\n"@
}

pub open spec fn annotations(failing: Seq<&QueryResult>, files: Seq<String>) -> Seq<char>
    decreases failing.len(),
{
    if failing.len() == 0 {
        seq![]
    } else {
        annotations(failing.drop_last(), files) + annotation(*failing.last(), files)
    }
}

fn annotation_text(q: &QueryResult, files: &[String]) -> (r: String)
    ensures
        r@ == annotation(*q, files@),
{
    let mut title = match &q.rule_code {
        Some(code) => {
            let mut head = "Vericto ".to_owned();
            head.append(code.as_str());
            head.append(" [");
            head
        },
        None => "Vericto [".to_owned(),
    };
    title.append(q.status.as_str());
    title.append("]");
    let mut out = "::error file=".to_owned();
    out.append(file_for(files, q.line).as_str());
    out.append(",line=1,title=");
    out.append(title.as_str());
    out.append("::");
    out.append(gha_encode(finding_message(q).as_str()).as_str());
    out.append("\n");
    out
}

/// A failing finding in the summary. A syntax path that only repeats the status is
/// left out.
pub open spec fn failing_finding(q: QueryResult, files: Seq<String>) -> Seq<char> {
    let path = opt_view(q.ast_node_path);
    "  "@ + styled_line(q, files) + details(
        if path == Some(q.status@) {
            None
        } else {
            path
        },
        opt_view(q.suggested_fix),
        "      "@,
    )
}

pub open spec fn failing_findings(failing: Seq<&QueryResult>, files: Seq<String>) -> Seq<char>
    decreases failing.len(),
{
    if failing.len() == 0 {
        seq![]
    } else {
        failing_findings(failing.drop_last(), files) + failing_finding(*failing.last(), files)
    }
}

/// The rule of the first finding that names one.
pub open spec fn first_rule(failing: Seq<&QueryResult>) -> Seq<char>
    decreases failing.len(),
{
    if failing.len() == 0 {
        "RULE"@
    } else {
        match failing[0].rule_code {
            Some(code) => code@,
            None => first_rule(failing.drop_first()),
        }
    }
}

pub open spec fn failure_head(n: nat, version: Seq<char>) -> Seq<char> {
    "\n"@ + styled(
        bold_red_style(),
        "✖ Vericto blocked "@ + decimal(n) + " statement"@ + (if n == 1 {
            ""@
        } else {
            "s"@
        }),
    ) + "  "@ + styled(dim_style(), "(ruleset "@ + version + ")"@) + "\n"@
}

pub open spec fn failure_tail(rule: Seq<char>) -> Seq<char> {
    "\n"@ + styled(
        dim_style(),
        "This is Vericto enforcing a rule — the exit code is intentional, not a crash."@,
    ) + "\n"@ + styled(
        dim_style(),
        "To allow a finding on purpose, add an inline comment on the statement:"@,
    ) + "\n"@ + styled(
        dim_style(),
        "    -- vericto:ignore["@ + rule + "] <reason>   (a reason is required)"@,
    ) + "\n"@
}

/// What is said about a run that fails on findings.
#[derive(Debug)]
pub struct FailureSummary {
    /// Workflow commands for the raw log of GitHub Actions.
    pub annotations: String,
    /// The explanation for a human.
    pub explanation: String,
}

/// Explains a failed run: what matched, where, that it was a decision and not a crash,
/// and how to allow it on purpose. `failing` are the findings that caused it. With no
/// such finding there is nothing to say.
pub fn render_ci_failure_summary(
    resp: &CheckResponse,
    failing: &[&QueryResult],
    files: &[String],
    on_github: bool,
) -> (r: FailureSummary)
    ensures
        r.annotations@ == (if on_github {
            annotations(failing@, files@)
        } else {
            seq![]
        }),
        r.explanation@ == (if failing@.len() == 0 {
            seq![]
        } else {
            failure_head(failing@.len(), resp.summary.ruleset_version@) + failing_findings(
                failing@,
                files@,
            ) + failure_tail(first_rule(failing@))
        }),
{
    let mut marks: String = String::new();
    if failing.len() == 0 {
        return FailureSummary { annotations: marks, explanation: String::new() };
    }
    if on_github {
        let mut i: usize = 0;
        while i < failing.len()
            invariant
                i <= failing@.len(),
                marks@ == annotations(failing@.take(i as int), files@),
            decreases failing@.len() - i,
        {
            assert(failing@.take(i + 1).drop_last() =~= failing@.take(i as int));
            marks.append(annotation_text(failing[i], files).as_str());
            i = i + 1;
        }
        assert(failing@.take(i as int) =~= failing@);
    }
    let mut explanation = failure_head_text(failing.len(), resp.summary.ruleset_version.as_str());
    let mut listed: String = String::new();
    let mut i: usize = 0;
    while i < failing.len()
        invariant
            i <= failing@.len(),
            listed@ == failing_findings(failing@.take(i as int), files@),
        decreases failing@.len() - i,
    {
        assert(failing@.take(i + 1).drop_last() =~= failing@.take(i as int));
        listed.append(failing_finding_text(failing[i], files).as_str());
        i = i + 1;
    }
    assert(failing@.take(i as int) =~= failing@);
    explanation.append(listed.as_str());
    explanation.append(failure_tail_text(first_rule_text(failing)).as_str());
    FailureSummary { annotations: marks, explanation }
}

fn first_rule_text<'a>(failing: &[&'a QueryResult]) -> (r: &'a str)
    ensures
        r@ == first_rule(failing@),
{
    let mut i: usize = 0;
    assert(failing@.skip(0) =~= failing@);
    while i < failing.len()
        invariant
            i <= failing@.len(),
            first_rule(failing@) == first_rule(failing@.skip(i as int)),
        decreases failing@.len() - i,
    {
        if let Some(code) = &failing[i].rule_code {
            return code.as_str();
        }
        assert(failing@.skip(i as int).drop_first() =~= failing@.skip(i + 1));
        i = i + 1;
    }
    "RULE"
}

fn failing_finding_text(q: &QueryResult, files: &[String]) -> (r: String)
    ensures
        r@ == failing_finding(*q, files@),
{
    let path = if opt_is(&q.ast_node_path, q.status.as_str()) {
        None
    } else {
        crate::text::opt_str(&q.ast_node_path)
    };
    let mut out = "  ".to_owned();
    out.append(styled_line_text(q, files).as_str());
    out.append(detail_text(path, &q.suggested_fix, "      ").as_str());
    out
}

fn failure_head_text(n: usize, version: &str) -> (r: String)
    ensures
        r@ == failure_head(n as nat, version@),
{
    let mut title = "✖ Vericto blocked ".to_owned();
    title.append(decimal_text(n as u128).as_str());
    title.append(" statement");
    title.append(if n == 1 {
        ""
    } else {
        "s"
    });
    let mut ruleset = "(ruleset ".to_owned();
    ruleset.append(version);
    ruleset.append(")");
    let mut out = "\n".to_owned();
    out.append(styled_text(bold_red(), title.as_str()).as_str());
    out.append("  ");
    out.append(styled_text(dim(), ruleset.as_str()).as_str());
    out.append("\n");
    out
}

fn failure_tail_text(rule: &str) -> (r: String)
    ensures
        r@ == failure_tail(rule@),
{
    let mut comment = "    -- vericto:ignore[".to_owned();
    comment.append(rule);
    comment.append("] <reason>   (a reason is required)");
    let mut out = "\n".to_owned();
    out.append(
        styled_text(
            dim(),
            "This is Vericto enforcing a rule — the exit code is intentional, not a crash.",
        ).as_str(),
    );
    out.append("\n");
    out.append(
        styled_text(
            dim(),
            "To allow a finding on purpose, add an inline comment on the statement:",
        ).as_str(),
    );
    out.append("\n");
    out.append(styled_text(dim(), comment.as_str()).as_str());
    out.append("\n");
    out
}

// ── Rules, keys and documentation ─────────────────────────────────────────────

/// The style of a severity.
pub open spec fn severity_look(severity: Seq<char>) -> TextStyle {
    if severity == "critical"@ {
        bold_red_style()
    } else if severity == "high"@ {
        color_style(Color::Red)
    } else if severity == "medium"@ {
        color_style(Color::Yellow)
    } else if severity == "low"@ {
        color_style(Color::Blue)
    } else {
        dim_style()
    }
}

pub fn severity_style(severity: &str) -> (r: TextStyle)
    ensures
        r == severity_look(severity@),
{
    if same_text(severity, "critical") {
        bold_red()
    } else if same_text(severity, "high") {
        colored(Color::Red)
    } else if same_text(severity, "medium") {
        colored(Color::Yellow)
    } else if same_text(severity, "low") {
        colored(Color::Blue)
    } else {
        dim()
    }
}

pub open spec fn larger(a: nat, b: nat) -> nat {
    if a < b {
        b
    } else {
        a
    }
}

pub open spec fn code_width(rules: Seq<&RuleSummary>) -> nat
    decreases rules.len(),
{
    if rules.len() == 0 {
        4
    } else {
        larger(code_width(rules.drop_last()), byte_len(rules.last().code@))
    }
}

pub open spec fn severity_width(rules: Seq<&RuleSummary>) -> nat
    decreases rules.len(),
{
    if rules.len() == 0 {
        8
    } else {
        larger(severity_width(rules.drop_last()), byte_len(rules.last().severity@))
    }
}

pub open spec fn activity(active: bool) -> Seq<char> {
    if active {
        "active"@
    } else {
        "inactive"@
    }
}

fn activity_text(active: bool) -> (r: &'static str)
    ensures
        r@ == activity(active),
{
    if active {
        "active"
    } else {
        "inactive"
    }
}

/// One rule of the list, in columns.
pub open spec fn rule_line(r: RuleSummary, code_w: nat, severity_w: nat) -> Seq<char> {
    padded(r.code@, code_w) + "  "@ + styled(
        severity_look(r.severity@),
        padded(r.severity@, severity_w),
    ) + "  "@ + padded(r.resolved_action@, 7) + "  "@ + padded(activity(r.is_active), 8) + "  "@
        + r.name@ + "\n"@
}

pub open spec fn rule_lines(rules: Seq<&RuleSummary>, code_w: nat, severity_w: nat) -> Seq<char>
    decreases rules.len(),
{
    if rules.len() == 0 {
        seq![]
    } else {
        rule_lines(rules.drop_last(), code_w, severity_w) + rule_line(
            *rules.last(),
            code_w,
            severity_w,
        )
    }
}

/// The list of rules as text.
pub open spec fn rules_report(rules: Seq<&RuleSummary>, version: Seq<char>) -> Seq<char> {
    if rules.len() == 0 {
        "No rules found.\n"@
    } else {
        rule_lines(rules, code_width(rules), severity_width(rules)) + (styled(
            dim_style(),
            decimal(rules.len()) + " rules   (ruleset "@ + version + ")"@,
        ) + "\n"@)
    }
}

fn rule_line_text(r: &RuleSummary, code_w: usize, severity_w: usize) -> (out: String)
    ensures
        out@ == rule_line(*r, code_w as nat, severity_w as nat),
{
    let mut out = padded_text(r.code.as_str(), code_w);
    out.append("  ");
    out.append(
        styled_text(
            severity_style(r.severity.as_str()),
            padded_text(r.severity.as_str(), severity_w).as_str(),
        ).as_str(),
    );
    out.append("  ");
    out.append(padded_text(r.resolved_action.as_str(), 7).as_str());
    out.append("  ");
    out.append(padded_text(activity_text(r.is_active), 8).as_str());
    out.append("  ");
    out.append(r.name.as_str());
    out.append("\n");
    out
}

pub fn render_rules_list(rules: &[&RuleSummary], ruleset_version: &str) -> (r: String)
    ensures
        r@ == rules_report(rules@, ruleset_version@),
{
    if rules.len() == 0 {
        return "No rules found.\n".to_owned();
    }
    let mut code_w: usize = 4;
    let mut severity_w: usize = 8;
    let mut i: usize = 0;
    while i < rules.len()
        invariant
            i <= rules@.len(),
            code_w == code_width(rules@.take(i as int)),
            severity_w == severity_width(rules@.take(i as int)),
        decreases rules@.len() - i,
    {
        assert(rules@.take(i + 1).drop_last() =~= rules@.take(i as int));
        let code_len: usize = byte_count(rules[i].code.as_str());
        let severity_len: usize = byte_count(rules[i].severity.as_str());
        if code_w < code_len {
            code_w = code_len;
        }
        if severity_w < severity_len {
            severity_w = severity_len;
        }
        i = i + 1;
    }
    assert(rules@.take(i as int) =~= rules@);
    let mut out: String = String::new();
    let mut k: usize = 0;
    while k < rules.len()
        invariant
            k <= rules@.len(),
            out@ == rule_lines(rules@.take(k as int), code_w as nat, severity_w as nat),
        decreases rules@.len() - k,
    {
        assert(rules@.take(k + 1).drop_last() =~= rules@.take(k as int));
        out.append(rule_line_text(rules[k], code_w, severity_w).as_str());
        k = k + 1;
    }
    assert(rules@.take(k as int) =~= rules@);
    let mut count = decimal_text(rules.len() as u128);
    count.append(" rules   (ruleset ");
    count.append(ruleset_version);
    count.append(")");
    let mut last = styled_text(dim(), count.as_str());
    last.append("\n");
    out.append(last.as_str());
    out
}

pub open spec fn name_width(keys: Seq<ApiKeyInfo>) -> nat
    decreases keys.len(),
{
    if keys.len() == 0 {
        4
    } else {
        larger(name_width(keys.drop_last()), byte_len(keys.last().name@))
    }
}

/// Texts with commas between them.
pub open spec fn comma_joined(items: Seq<String>) -> Seq<char>
    decreases items.len(),
{
    if items.len() == 0 {
        seq![]
    } else if items.len() == 1 {
        items[0]@
    } else {
        comma_joined(items.drop_last()) + ","@ + items.last()@
    }
}

fn comma_text(items: &[String]) -> (r: String)
    ensures
        r@ == comma_joined(items@),
{
    if items.len() == 0 {
        return String::new();
    }
    let mut out = items[0].clone();
    let mut i: usize = 1;
    assert(items@.take(1).len() == 1 && items@.take(1)[0] == items@[0]);
    while i < items.len()
        invariant
            1 <= i <= items@.len(),
            out@ == comma_joined(items@.take(i as int)),
        decreases items@.len() - i,
    {
        assert(items@.take(i + 1).drop_last() =~= items@.take(i as int));
        out.append(",");
        out.append(items[i].as_str());
        i = i + 1;
    }
    assert(items@.take(i as int) =~= items@);
    out
}

/// One key of the list: a star for the key in use, and a dimmed line for one that is
/// no longer active.
pub open spec fn key_line(k: ApiKeyInfo, width: nat) -> Seq<char> {
    let line = (if k.is_current {
        "*"@
    } else {
        " "@
    }) + " "@ + padded(k.name@, width) + "  "@ + padded(
        if k.is_active {
            "active"@
        } else {
            "revoked"@
        },
        7,
    ) + "  "@ + comma_joined(k.scopes@) + "  last used: "@ + text_or(k.last_used_at, "never"@);
    (if k.is_active {
        line
    } else {
        styled(dim_style(), line)
    }) + "\n"@
}

pub open spec fn key_lines(keys: Seq<ApiKeyInfo>, width: nat) -> Seq<char>
    decreases keys.len(),
{
    if keys.len() == 0 {
        seq![]
    } else {
        key_lines(keys.drop_last(), width) + key_line(keys.last(), width)
    }
}

/// The list of API keys as text.
pub open spec fn keys_report(keys: Seq<ApiKeyInfo>) -> Seq<char> {
    key_lines(keys, name_width(keys)) + (styled(
        dim_style(),
        "* = the key you're using   ("@ + decimal(keys.len()) + " total)"@,
    ) + "\n"@)
}

fn key_line_text(k: &ApiKeyInfo, width: usize) -> (r: String)
    ensures
        r@ == key_line(*k, width as nat),
{
    let mut line = (if k.is_current {
        "*"
    } else {
        " "
    }).to_owned();
    line.append(" ");
    line.append(padded_text(k.name.as_str(), width).as_str());
    line.append("  ");
    line.append(
        padded_text(
            if k.is_active {
                "active"
            } else {
                "revoked"
            },
            7,
        ).as_str(),
    );
    line.append("  ");
    line.append(comma_text(k.scopes.as_slice()).as_str());
    line.append("  last used: ");
    line.append(str_or(&k.last_used_at, "never"));
    let mut out = if k.is_active {
        line
    } else {
        styled_text(dim(), line.as_str())
    };
    out.append("\n");
    out
}

pub fn render_keys(keys: &[ApiKeyInfo]) -> (r: String)
    ensures
        r@ == keys_report(keys@),
{
    let mut width: usize = 4;
    let mut i: usize = 0;
    while i < keys.len()
        invariant
            i <= keys@.len(),
            width == name_width(keys@.take(i as int)),
        decreases keys@.len() - i,
    {
        assert(keys@.take(i + 1).drop_last() =~= keys@.take(i as int));
        let len: usize = byte_count(keys[i].name.as_str());
        if width < len {
            width = len;
        }
        i = i + 1;
    }
    assert(keys@.take(i as int) =~= keys@);
    let mut out: String = String::new();
    let mut k: usize = 0;
    while k < keys.len()
        invariant
            k <= keys@.len(),
            out@ == key_lines(keys@.take(k as int), width as nat),
        decreases keys@.len() - k,
    {
        assert(keys@.take(k + 1).drop_last() =~= keys@.take(k as int));
        out.append(key_line_text(&keys[k], width).as_str());
        k = k + 1;
    }
    assert(keys@.take(k as int) =~= keys@);
    let mut count = "* = the key you're using   (".to_owned();
    count.append(decimal_text(keys.len() as u128).as_str());
    count.append(" total)");
    let mut last = styled_text(dim(), count.as_str());
    last.append("\n");
    out.append(last.as_str());
    out
}

/// One topic of the documentation list.
#[derive(Clone, Copy, Debug)]
pub struct DocRow<'a> {
    pub slug: &'a str,
    pub blurb: &'a str,
    pub category: &'a str,
}

pub open spec fn slug_width(rows: Seq<DocRow>) -> nat
    decreases rows.len(),
{
    if rows.len() == 0 {
        0
    } else {
        larger(slug_width(rows.drop_last()), byte_len(rows.last().slug@))
    }
}

pub open spec fn linked(url: Seq<char>, text: Seq<char>, linkify: bool) -> Seq<char> {
    if linkify {
        link(url, text)
    } else {
        text
    }
}

/// The heading of a category, which stands where the category changes.
pub open spec fn doc_heading(category: Seq<char>, current: Seq<char>) -> Seq<char> {
    if category != current {
        "\n  "@ + styled(bold_style(), category) + "\n\n"@
    } else {
        seq![]
    }
}

/// A topic: its slug and what it is about, and below them its address.
pub open spec fn doc_block(base: Seq<char>, r: DocRow, width: nat, linkify: bool) -> Seq<char> {
    let url = base + "/"@ + r.slug@;
    let fill = if byte_len(r.slug@) < width {
        spaces((width - byte_len(r.slug@)) as nat)
    } else {
        seq![]
    };
    "    "@ + linked(url, r.slug@, linkify) + fill + "  "@ + r.blurb@ + "\n"@ + "    "@ + spaces(width)
        + "  "@ + styled(dim_style(), "↳ "@ + linked(url, url, linkify)) + "\n\n"@
}

/// The category of the last topic; nothing before the first.
pub open spec fn last_category(rows: Seq<DocRow>) -> Seq<char> {
    if rows.len() == 0 {
        ""@
    } else {
        rows.last().category@
    }
}

pub open spec fn doc_blocks(base: Seq<char>, rows: Seq<DocRow>, width: nat, linkify: bool) -> Seq<
    char,
>
    decreases rows.len(),
{
    if rows.len() == 0 {
        seq![]
    } else {
        let r = rows.last();
        doc_blocks(base, rows.drop_last(), width, linkify) + (doc_heading(
            r.category@,
            last_category(rows.drop_last()),
        ) + doc_block(base, r, width, linkify))
    }
}

/// The documentation list as text: topics under the headings of their categories, with
/// their slugs in a column and, on a terminal, as hyperlinks.
pub open spec fn docs_report(base: Seq<char>, rows: Seq<DocRow>, linkify: bool) -> Seq<char> {
    (styled(bold_style(), "Vericto docs"@) + " "@ + styled(dim_style(), "· "@ + base) + "\n"@)
        + doc_blocks(base, rows, slug_width(rows), linkify) + (styled(
        dim_style(),
        "Open one: vericto docs <topic>   ·   JSON: vericto docs --json"@,
    ) + "\n"@)
}

fn linked_text(url: &str, text: &str, linkify: bool) -> (r: String)
    ensures
        r@ == linked(url@, text@, linkify),
{
    if linkify {
        osc8_link(url, text)
    } else {
        text.to_owned()
    }
}

fn doc_heading_text(category: &str, current: &str) -> (r: String)
    ensures
        r@ == doc_heading(category@, current@),
{
    if same_text(category, current) {
        return String::new();
    }
    let mut out = "\n  ".to_owned();
    out.append(styled_text(bold(), category).as_str());
    out.append("\n\n");
    out
}

fn doc_block_text(base: &str, r: &DocRow, width: usize, linkify: bool) -> (out: String)
    ensures
        out@ == doc_block(base@, *r, width as nat, linkify),
{
    let mut url = base.to_owned();
    url.append("/");
    url.append(r.slug);
    let len: usize = byte_count(r.slug);
    let fill = if len < width {
        space_text(width - len)
    } else {
        String::new()
    };
    let mut target = "↳ ".to_owned();
    target.append(linked_text(url.as_str(), url.as_str(), linkify).as_str());
    let mut out = "    ".to_owned();
    out.append(linked_text(url.as_str(), r.slug, linkify).as_str());
    out.append(fill.as_str());
    out.append("  ");
    out.append(r.blurb);
    out.append("\n");
    out.append("    ");
    out.append(space_text(width).as_str());
    out.append("  ");
    out.append(styled_text(dim(), target.as_str()).as_str());
    out.append("\n\n");
    out
}

pub fn render_docs(base: &str, rows: &[DocRow], linkify: bool) -> (r: String)
    ensures
        r@ == docs_report(base@, rows@, linkify),
{
    let mut width: usize = 0;
    let mut i: usize = 0;
    while i < rows.len()
        invariant
            i <= rows@.len(),
            width == slug_width(rows@.take(i as int)),
        decreases rows@.len() - i,
    {
        assert(rows@.take(i + 1).drop_last() =~= rows@.take(i as int));
        let len: usize = byte_count(rows[i].slug);
        if width < len {
            width = len;
        }
        i = i + 1;
    }
    assert(rows@.take(i as int) =~= rows@);
    let mut blocks: String = String::new();
    let mut k: usize = 0;
    while k < rows.len()
        invariant
            k <= rows@.len(),
            blocks@ == doc_blocks(base@, rows@.take(k as int), width as nat, linkify),
        decreases rows@.len() - k,
    {
        assert(rows@.take(k + 1).drop_last() =~= rows@.take(k as int));
        let current = if k == 0 {
            ""
        } else {
            rows[k - 1].category
        };
        let mut one = doc_heading_text(rows[k].category, current);
        one.append(doc_block_text(base, &rows[k], width, linkify).as_str());
        blocks.append(one.as_str());
        k = k + 1;
    }
    assert(rows@.take(k as int) =~= rows@);
    let mut prefix = "· ".to_owned();
    prefix.append(base);
    let mut out = styled_text(bold(), "Vericto docs");
    out.append(" ");
    out.append(styled_text(dim(), prefix.as_str()).as_str());
    out.append("\n");
    out.append(blocks.as_str());
    let mut last = styled_text(
        dim(),
        "Open one: vericto docs <topic>   ·   JSON: vericto docs --json",
    );
    last.append("\n");
    out.append(last.as_str());
    out
}

/// The lines of a rule's condition, indented.
pub open spec fn indented(ls: Seq<Seq<char>>) -> Seq<char>
    decreases ls.len(),
{
    if ls.len() == 0 {
        seq![]
    } else {
        indented(ls.drop_last()) + ("    "@ + ls.last() + "\n"@)
    }
}

pub open spec fn condition_block(yaml: Option<Seq<char>>) -> Seq<char> {
    match yaml {
        Some(y) => "\n  condition:\n"@ + indented(lines(y)),
        None => seq![],
    }
}

pub open spec fn description_block(description: Option<Seq<char>>) -> Seq<char> {
    match description {
        Some(d) => if d.len() > 0 {
            "\n  "@ + d + "\n"@
        } else {
            seq![]
        },
        None => seq![],
    }
}

pub open spec fn examples_block(bad: Option<Seq<char>>, good: Option<Seq<char>>) -> Seq<char> {
    if bad is None && good is None {
        seq![]
    } else {
        "\n  examples:\n"@ + (match bad {
            Some(sql) => "    "@ + styled(color_style(Color::Red), "✗ triggers:"@) + " "@ + sql + "\n"@,
            None => seq![],
        }) + (match good {
            Some(sql) => "    "@ + styled(color_style(Color::Green), "✓ safe:"@) + "     "@ + sql
                + "\n"@,
            None => seq![],
        })
    }
}

pub open spec fn rule_head(r: RuleDetail) -> Seq<char> {
    r.code@ + " — "@ + r.name@ + "\n  severity: "@ + styled(severity_look(r.severity@), r.severity@)
        + "    action: "@ + r.resolved_action@ + "    type: "@ + r.rule_type@ + "    dialect: "@
        + r.dialect@ + "    "@ + activity(r.is_active) + "\n"@
}

/// One rule in full, as text.
pub open spec fn rule_report(r: RuleDetail) -> Seq<char> {
    rule_head(r) + description_block(opt_view(r.description)) + condition_block(
        opt_view(r.ast_condition_yaml),
    ) + examples_block(opt_view(r.example_bad), opt_view(r.example_good)) + ("\n"@ + styled(
        dim_style(),
        "ruleset "@ + r.ruleset_version@,
    ) + "\n"@)
}

fn indented_text(yaml: &str) -> (r: String)
    ensures
        r@ == indented(lines(yaml@)),
{
    let cs = to_chars(yaml);
    let spans = line_spans(cs.as_slice());
    let mut out: String = String::new();
    let mut i: usize = 0;
    let ghost all = span_texts(cs@, spans@);
    while i < spans.len()
        invariant
            i <= spans@.len(),
            all == span_texts(cs@, spans@),
            forall|k: int|
                0 <= k < spans@.len() ==> (#[trigger] spans@[k]).0 <= spans@[k].1 <= cs@.len(),
            out@ == indented(all.take(i as int)),
        decreases spans@.len() - i,
    {
        assert(all.take(i + 1).drop_last() =~= all.take(i as int));
        let mut line = "    ".to_owned();
        line.append(slice_text(cs.as_slice(), spans[i].0, spans[i].1).as_str());
        line.append("\n");
        out.append(line.as_str());
        i = i + 1;
    }
    assert(all.take(i as int) =~= all);
    out
}

fn examples_text(bad: &Option<String>, good: &Option<String>) -> (r: String)
    ensures
        r@ == examples_block(opt_view(*bad), opt_view(*good)),
{
    if bad.is_none() && good.is_none() {
        return String::new();
    }
    let mut out = "\n  examples:\n".to_owned();
    let ghost head = out@;
    if let Some(sql) = bad {
        let mut line = "    ".to_owned();
        line.append(styled_text(colored(Color::Red), "✗ triggers:").as_str());
        line.append(" ");
        line.append(sql.as_str());
        line.append("\n");
        out.append(line.as_str());
    } else {
        assert(out@ =~= head + Seq::<char>::empty());
    }
    let ghost middle = out@;
    if let Some(sql) = good {
        let mut line = "    ".to_owned();
        line.append(styled_text(colored(Color::Green), "✓ safe:").as_str());
        line.append("     ");
        line.append(sql.as_str());
        line.append("\n");
        out.append(line.as_str());
    } else {
        assert(out@ =~= middle + Seq::<char>::empty());
    }
    out
}

fn description_text(description: &Option<String>) -> (r: String)
    ensures
        r@ == description_block(opt_view(*description)),
{
    match description {
        Some(d) => {
            if d.as_str().unicode_len() == 0 {
                return String::new();
            }
            let mut out = "\n  ".to_owned();
            out.append(d.as_str());
            out.append("\n");
            out
        },
        None => String::new(),
    }
}

pub fn render_rule_detail(r: &RuleDetail) -> (out: String)
    ensures
        out@ == rule_report(*r),
{
    let mut out = r.code.clone();
    out.append(" — ");
    out.append(r.name.as_str());
    out.append("\n  severity: ");
    out.append(
        styled_text(severity_style(r.severity.as_str()), r.severity.as_str()).as_str(),
    );
    out.append("    action: ");
    out.append(r.resolved_action.as_str());
    out.append("    type: ");
    out.append(r.rule_type.as_str());
    out.append("    dialect: ");
    out.append(r.dialect.as_str());
    out.append("    ");
    out.append(activity_text(r.is_active));
    out.append("\n");
    out.append(description_text(&r.description).as_str());
    let condition = match &r.ast_condition_yaml {
        Some(yaml) => {
            let mut block = "\n  condition:\n".to_owned();
            block.append(indented_text(yaml.as_str()).as_str());
            block
        },
        None => String::new(),
    };
    out.append(condition.as_str());
    out.append(examples_text(&r.example_bad, &r.example_good).as_str());
    let mut version = "ruleset ".to_owned();
    version.append(r.ruleset_version.as_str());
    let mut last = "\n".to_owned();
    last.append(styled_text(dim(), version.as_str()).as_str());
    last.append("\n");
    out.append(last.as_str());
    out
}

} // verus!
