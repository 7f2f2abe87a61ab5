//! Every finding of a run stands in every report of it, with its own rule, file and severity.
use vstd::prelude::*;
use crate::api::{CheckResponse, QueryResult, Summary};
use crate::json::{json_pretty_text, lemma_member, member, number, object, JsonView};
use crate::laws::baselines::{file_of, law_findings_are_known_by_rule_file_and_path, law_findings_are_what_is_not_allowed, print_of};
use crate::output::{annotation, annotations, colored_finding, colored_findings, colored_report, cq_issue, cq_issues, cq_report, cq_severity_of, failing_finding, failing_findings, findings, first_rule, gha_char, gha_text, json_report, message_of, plain_finding, plain_findings, plain_report, report, result_doc, result_docs, result_fingerprint, rule_ids, sarif_driver, sarif_level_of, sarif_location, sarif_report, sarif_result, sarif_results, sarif_rules, sarif_run, sast_finding, sast_findings, sast_identifier, sast_report, sast_scan, sast_severity_of, source_of, status_look, status_mark, styled_line, summary_doc, text_field, Format, Target, CLI_VERSION};
use crate::style::{styled, TextStyle, Color};
use crate::text::{decimal, opt_view, text_or};

verus! {

// ── Parts of a document ───────────────────────────────────────────────────────

/// The member `key` of what is there.
pub open spec fn at(v: Option<JsonView>, key: Seq<char>) -> Option<JsonView> {
    match v {
        Some(JsonView::Object(m)) => if m.dom().contains(key) {
            Some(m[key])
        } else {
            None
        },
        _ => None,
    }
}

/// Item `i` of what is there.
pub open spec fn item(v: Option<JsonView>, i: int) -> Option<JsonView> {
    match v {
        Some(JsonView::Array(items)) => if 0 <= i < items.len() {
            Some(items[i])
        } else {
            None
        },
        _ => None,
    }
}

pub open spec fn is_list_of(v: Option<JsonView>, n: nat) -> bool {
    v matches Some(JsonView::Array(items)) && items.len() == n
}

pub open spec fn text(s: Seq<char>) -> Option<JsonView> {
    Some(JsonView::Text(s))
}

pub open spec fn text_or_nothing(o: Option<String>) -> Option<JsonView> {
    match o {
        Some(s) => Some(JsonView::Text(s@)),
        None => Some(JsonView::Null),
    }
}

pub open spec fn whole(n: int) -> Option<JsonView> {
    Some(JsonView::Number(if n < 0 {
        seq!['-'] + decimal((-n) as nat)
    } else {
        decimal(n as nat)
    }))
}

// ── What a report says of a finding ───────────────────────────────────────────

/// The results that a report speaks of.
pub open spec fn reported(resp: CheckResponse) -> Seq<QueryResult> {
    resp.queries@.filter(|q: QueryResult| q.status@ != "ALLOWED"@)
}

/// The rule of a finding; one without a rule goes by the name of the tool.
pub open spec fn rule_of(q: QueryResult) -> Seq<char> {
    match q.rule_code {
        Some(code) => code@,
        None => "VERICTO"@,
    }
}

pub open spec fn has_severity(q: QueryResult, s: Seq<char>) -> bool {
    q.severity is Some && q.severity->Some_0@ == s
}

/// A blocked statement is an error whatever its severity, one that was not parsed a warning;
/// else the severity decides.
pub open spec fn level_of(q: QueryResult) -> Seq<char> {
    if q.status@ == "BLOCKED"@ {
        "error"@
    } else if q.status@ == "PARSE_ERROR"@ {
        "warning"@
    } else if has_severity(q, "critical"@) || has_severity(q, "high"@) {
        "error"@
    } else if has_severity(q, "medium"@) {
        "warning"@
    } else {
        "note"@
    }
}

pub open spec fn code_quality_severity(q: QueryResult) -> Seq<char> {
    if q.status@ == "BLOCKED"@ {
        "blocker"@
    } else if q.status@ == "PARSE_ERROR"@ {
        "info"@
    } else if has_severity(q, "critical"@) {
        "critical"@
    } else if has_severity(q, "high"@) {
        "major"@
    } else if has_severity(q, "medium"@) {
        "minor"@
    } else {
        "info"@
    }
}

pub open spec fn scan_severity(q: QueryResult) -> Seq<char> {
    if q.status@ == "BLOCKED"@ {
        "Critical"@
    } else if q.status@ == "PARSE_ERROR"@ {
        "Info"@
    } else if has_severity(q, "critical"@) {
        "Critical"@
    } else if has_severity(q, "high"@) {
        "High"@
    } else if has_severity(q, "medium"@) {
        "Medium"@
    } else if has_severity(q, "low"@) {
        "Low"@
    } else if has_severity(q, "informational"@) {
        "Info"@
    } else {
        "Unknown"@
    }
}

/// A part of a line that is there only under a condition.
pub open spec fn part(there: bool, s: Seq<char>) -> Seq<char> {
    if there {
        s
    } else {
        Seq::<char>::empty()
    }
}

pub open spec fn or_nothing(o: Option<String>) -> Seq<char> {
    match o {
        Some(s) => s@,
        None => Seq::<char>::empty(),
    }
}

/// The message of a finding: rule and status, then its severity, its syntax path where that
/// says more than the status, and how to fix it, each where there is one.
pub open spec fn says(q: QueryResult) -> Seq<char> {
    if q.status@ == "PARSE_ERROR"@ {
        "Could not parse this SQL — skipped, not blocked (check the syntax or --dialect)"@
    } else {
        rule_of(q) + " ["@ + q.status@ + "]"@ + part(
            or_nothing(q.severity).len() > 0,
            " ("@ + or_nothing(q.severity) + ")"@,
        ) + part(
            or_nothing(q.ast_node_path).len() > 0 && or_nothing(q.ast_node_path) != q.status@,
            " — "@ + or_nothing(q.ast_node_path),
        ) + part(q.suggested_fix is Some, " · fix: "@ + or_nothing(q.suggested_fix))
    }
}

proof fn lemma_empty()
    ensures
        ""@ == Seq::<char>::empty(),
{
    reveal_strlit("");
    assert(""@ =~= Seq::<char>::empty());
}

/// The message of a finding holds its own fields, in order.
pub proof fn law_messages_hold_the_fields(q: QueryResult)
    ensures
        message_of(q) == says(q),
{
    lemma_empty();
    if q.status@ != "PARSE_ERROR"@ {
        let head = rule_of(q) + " ["@ + q.status@ + "]"@;
        let severity = or_nothing(q.severity);
        let path = or_nothing(q.ast_node_path);
        let a = head + part(severity.len() > 0, " ("@ + severity + ")"@);
        let b = a + part(path.len() > 0 && path != q.status@, " — "@ + path);
        assert(head + " ("@ + severity + ")"@ =~= head + (" ("@ + severity + ")"@));
        assert(head + Seq::<char>::empty() =~= head);
        assert(a + " — "@ + path =~= a + (" — "@ + path));
        assert(a + Seq::<char>::empty() =~= a);
        let fix = or_nothing(q.suggested_fix);
        assert(b + " · fix: "@ + fix =~= b + (" · fix: "@ + fix));
        assert(b + Seq::<char>::empty() =~= b);
    }
}

proof fn lemma_location(uri: Seq<char>)
    ensures
        member(sarif_location(uri), "physicalLocation"@) == Some(
            object(
                seq![
                    ("artifactLocation"@, object(seq![text_field("uri"@, uri)])),
                    ("region"@, object(seq![("startLine"@, number(1))])),
                ],
            ),
        ),
{
    reveal_strlit("physicalLocation");
    let fields = seq![
        (
            "physicalLocation"@,
            object(
                seq![
                    ("artifactLocation"@, object(seq![text_field("uri"@, uri)])),
                    ("region"@, object(seq![("startLine"@, number(1))])),
                ],
            ),
        ),
    ];
    assert(object(fields) == sarif_location(uri));
    assert("physicalLocation"@.len() == 16);
    assert(fields[0].0 == "physicalLocation"@);
    lemma_member(fields, 0);
}

proof fn lemma_place(uri: Seq<char>)
    ensures
        member(
            object(
                seq![
                    ("artifactLocation"@, object(seq![text_field("uri"@, uri)])),
                    ("region"@, object(seq![("startLine"@, number(1))])),
                ],
            ),
            "artifactLocation"@,
        )
            == Some(object(seq![text_field("uri"@, uri)])),
        member(
            object(
                seq![
                    ("artifactLocation"@, object(seq![text_field("uri"@, uri)])),
                    ("region"@, object(seq![("startLine"@, number(1))])),
                ],
            ),
            "region"@,
        )
            == Some(object(seq![("startLine"@, number(1))])),
{
    reveal_strlit("artifactLocation");
    reveal_strlit("region");
    let fields = seq![
        ("artifactLocation"@, object(seq![text_field("uri"@, uri)])),
        ("region"@, object(seq![("startLine"@, number(1))])),
    ];
    assert(object(fields) == object(
        seq![
            ("artifactLocation"@, object(seq![text_field("uri"@, uri)])),
            ("region"@, object(seq![("startLine"@, number(1))])),
        ],
    ));
    assert("artifactLocation"@.len() == 16 && "region"@.len() == 6);
    assert(fields[0].0 == "artifactLocation"@ && fields[1].0 == "region"@);
    lemma_member(fields, 0);
    lemma_member(fields, 1);
}

proof fn lemma_uri(uri: Seq<char>)
    ensures
        member(object(seq![text_field("uri"@, uri)]), "uri"@) == Some(JsonView::Text(uri)),
{
    reveal_strlit("uri");
    let fields = seq![
        ("uri"@, JsonView::Text(uri)),
    ];
    assert(object(fields) == object(seq![text_field("uri"@, uri)]));
    assert("uri"@.len() == 3);
    assert(fields[0].0 == "uri"@);
    lemma_member(fields, 0);
}

proof fn lemma_region()
    ensures
        member(object(seq![("startLine"@, number(1))]), "startLine"@) == Some(number(1)),
{
    reveal_strlit("startLine");
    let fields = seq![
        ("startLine"@, number(1)),
    ];
    assert(object(fields) == object(seq![("startLine"@, number(1))]));
    assert("startLine"@.len() == 9);
    assert(fields[0].0 == "startLine"@);
    lemma_member(fields, 0);
}

proof fn lemma_sarif_result(q: QueryResult, files: Seq<String>)
    ensures
        member(sarif_result(q, files), "ruleId"@) == Some(
            JsonView::Text(text_or(q.rule_code, "VERICTO"@)),
        ),
        member(sarif_result(q, files), "level"@) == Some(
            JsonView::Text(sarif_level_of(q.status@, opt_view(q.severity))),
        ),
        member(sarif_result(q, files), "message"@) == Some(
            object(seq![text_field("text"@, message_of(q))]),
        ),
        member(sarif_result(q, files), "locations"@) == Some(
            JsonView::Array(seq![sarif_location(source_of(files, q.line))]),
        ),
{
    reveal_strlit("ruleId");
    reveal_strlit("level");
    reveal_strlit("message");
    reveal_strlit("locations");
    let fields = seq![
        ("ruleId"@, JsonView::Text(text_or(q.rule_code, "VERICTO"@))),
        ("level"@, JsonView::Text(sarif_level_of(q.status@, opt_view(q.severity)))),
        ("message"@, object(seq![text_field("text"@, message_of(q))])),
        ("locations"@, JsonView::Array(seq![sarif_location(source_of(files, q.line))])),
    ];
    assert(object(fields) == sarif_result(q, files));
    assert("ruleId"@.len() == 6 && "level"@.len() == 5 && "message"@.len() == 7
        && "locations"@.len() == 9);
    assert(fields[0].0 == "ruleId"@ && fields[1].0 == "level"@ && fields[2].0 == "message"@
        && fields[3].0 == "locations"@);
    lemma_member(fields, 0);
    lemma_member(fields, 1);
    lemma_member(fields, 2);
    lemma_member(fields, 3);
}

proof fn lemma_message(m: Seq<char>)
    ensures
        member(object(seq![text_field("text"@, m)]), "text"@) == Some(JsonView::Text(m)),
{
    reveal_strlit("text");
    let fields = seq![
        ("text"@, JsonView::Text(m)),
    ];
    assert(object(fields) == object(seq![text_field("text"@, m)]));
    assert("text"@.len() == 4);
    assert(fields[0].0 == "text"@);
    lemma_member(fields, 0);
}

proof fn lemma_sarif_report(resp: CheckResponse, files: Seq<String>)
    ensures
        member(sarif_report(resp, files), "$schema"@) == Some(
            JsonView::Text("https://json.schemastore.org/sarif-2.1.0.json"@),
        ),
        member(sarif_report(resp, files), "version"@) == Some(JsonView::Text("2.1.0"@)),
        member(sarif_report(resp, files), "runs"@) == Some(
            JsonView::Array(seq![sarif_run(findings(resp.queries@), files)]),
        ),
{
    reveal_strlit("$schema");
    reveal_strlit("version");
    reveal_strlit("runs");
    let fields = seq![
        ("$schema"@, JsonView::Text("https://json.schemastore.org/sarif-2.1.0.json"@)),
        ("version"@, JsonView::Text("2.1.0"@)),
        ("runs"@, JsonView::Array(seq![sarif_run(findings(resp.queries@), files)])),
    ];
    assert(object(fields) == sarif_report(resp, files));
    assert("$schema"@.len() == 7 && "version"@.len() == 7 && "runs"@.len() == 4);
    assert("$schema"@[0] == '$' && "version"@[0] == 'v');
    assert(fields[0].0 == "$schema"@ && fields[1].0 == "version"@ && fields[2].0 == "runs"@);
    lemma_member(fields, 0);
    lemma_member(fields, 1);
    lemma_member(fields, 2);
}

proof fn lemma_sarif_run(fs: Seq<QueryResult>, files: Seq<String>)
    ensures
        member(sarif_run(fs, files), "tool"@) == Some(
            object(seq![("driver"@, sarif_driver(rule_ids(fs)))]),
        ),
        member(sarif_run(fs, files), "results"@) == Some(JsonView::Array(sarif_results(fs, files))),
{
    reveal_strlit("tool");
    reveal_strlit("results");
    let fields = seq![
        ("tool"@, object(seq![("driver"@, sarif_driver(rule_ids(fs)))])),
        ("results"@, JsonView::Array(sarif_results(fs, files))),
    ];
    assert(object(fields) == sarif_run(fs, files));
    assert("tool"@.len() == 4 && "results"@.len() == 7);
    assert(fields[0].0 == "tool"@ && fields[1].0 == "results"@);
    lemma_member(fields, 0);
    lemma_member(fields, 1);
}

proof fn lemma_tool(d: JsonView)
    ensures
        member(object(seq![("driver"@, d)]), "driver"@) == Some(d),
{
    reveal_strlit("driver");
    let fields = seq![
        ("driver"@, d),
    ];
    assert(object(fields) == object(seq![("driver"@, d)]));
    assert("driver"@.len() == 6);
    assert(fields[0].0 == "driver"@);
    lemma_member(fields, 0);
}

proof fn lemma_driver(ids: Seq<Seq<char>>)
    ensures
        member(sarif_driver(ids), "name"@) == Some(JsonView::Text("vericto"@)),
        member(sarif_driver(ids), "informationUri"@) == Some(JsonView::Text("https://vericto.com"@)),
        member(sarif_driver(ids), "version"@) == Some(JsonView::Text(CLI_VERSION@)),
        member(sarif_driver(ids), "rules"@) == Some(JsonView::Array(sarif_rules(ids))),
{
    reveal_strlit("name");
    reveal_strlit("informationUri");
    reveal_strlit("version");
    reveal_strlit("rules");
    let fields = seq![
        ("name"@, JsonView::Text("vericto"@)),
        ("informationUri"@, JsonView::Text("https://vericto.com"@)),
        ("version"@, JsonView::Text(CLI_VERSION@)),
        ("rules"@, JsonView::Array(sarif_rules(ids))),
    ];
    assert(object(fields) == sarif_driver(ids));
    assert("name"@.len() == 4 && "informationUri"@.len() == 14 && "version"@.len() == 7
        && "rules"@.len() == 5);
    assert(fields[0].0 == "name"@ && fields[1].0 == "informationUri"@ && fields[2].0 == "version"@
        && fields[3].0 == "rules"@);
    lemma_member(fields, 0);
    lemma_member(fields, 1);
    lemma_member(fields, 2);
    lemma_member(fields, 3);
}

proof fn lemma_rule(id: Seq<char>)
    ensures
        member(object(seq![text_field("id"@, id), text_field("name"@, id)]), "id"@) == Some(
            JsonView::Text(id),
        ),
        member(object(seq![text_field("id"@, id), text_field("name"@, id)]), "name"@) == Some(
            JsonView::Text(id),
        ),
{
    reveal_strlit("id");
    reveal_strlit("name");
    let fields = seq![
        ("id"@, JsonView::Text(id)),
        ("name"@, JsonView::Text(id)),
    ];
    assert(object(fields) == object(seq![text_field("id"@, id), text_field("name"@, id)]));
    assert("id"@.len() == 2 && "name"@.len() == 4);
    assert(fields[0].0 == "id"@ && fields[1].0 == "name"@);
    lemma_member(fields, 0);
    lemma_member(fields, 1);
}

proof fn lemma_cq(q: QueryResult, files: Seq<String>)
    ensures
        member(cq_issue(q, files), "description"@) == Some(JsonView::Text(message_of(q))),
        member(cq_issue(q, files), "check_name"@) == Some(
            JsonView::Text(text_or(q.rule_code, "VERICTO"@)),
        ),
        member(cq_issue(q, files), "fingerprint"@) == Some(
            JsonView::Text(result_fingerprint(q, source_of(files, q.line))),
        ),
        member(cq_issue(q, files), "severity"@) == Some(
            JsonView::Text(cq_severity_of(q.status@, opt_view(q.severity))),
        ),
        member(cq_issue(q, files), "location"@) == Some(
            object(
                seq![
                    text_field("path"@, source_of(files, q.line)),
                    ("lines"@, object(seq![("begin"@, number(1))])),
                ],
            ),
        ),
{
    reveal_strlit("description");
    reveal_strlit("check_name");
    reveal_strlit("fingerprint");
    reveal_strlit("severity");
    reveal_strlit("location");
    let fields = seq![
        ("description"@, JsonView::Text(message_of(q))),
        ("check_name"@, JsonView::Text(text_or(q.rule_code, "VERICTO"@))),
        ("fingerprint"@, JsonView::Text(result_fingerprint(q, source_of(files, q.line)))),
        ("severity"@, JsonView::Text(cq_severity_of(q.status@, opt_view(q.severity)))),
        (
            "location"@,
            object(
                seq![
                    text_field("path"@, source_of(files, q.line)),
                    ("lines"@, object(seq![("begin"@, number(1))])),
                ],
            ),
        ),
    ];
    assert(object(fields) == cq_issue(q, files));
    assert("description"@.len() == 11 && "check_name"@.len() == 10 && "fingerprint"@.len() == 11
        && "severity"@.len() == 8 && "location"@.len() == 8);
    assert("description"@[0] == 'd' && "fingerprint"@[0] == 'f');
    assert("severity"@[0] == 's' && "location"@[0] == 'l');
    assert(fields[0].0 == "description"@ && fields[1].0 == "check_name"@
        && fields[2].0 == "fingerprint"@ && fields[3].0 == "severity"@
        && fields[4].0 == "location"@);
    lemma_member(fields, 0);
    lemma_member(fields, 1);
    lemma_member(fields, 2);
    lemma_member(fields, 3);
    lemma_member(fields, 4);
}

proof fn lemma_cq_location(path: Seq<char>)
    ensures
        member(
            object(seq![text_field("path"@, path), ("lines"@, object(seq![("begin"@, number(1))]))]),
            "path"@,
        )
            == Some(JsonView::Text(path)),
        member(
            object(seq![text_field("path"@, path), ("lines"@, object(seq![("begin"@, number(1))]))]),
            "lines"@,
        )
            == Some(object(seq![("begin"@, number(1))])),
{
    reveal_strlit("path");
    reveal_strlit("lines");
    let fields = seq![
        ("path"@, JsonView::Text(path)),
        ("lines"@, object(seq![("begin"@, number(1))])),
    ];
    assert(object(fields) == object(
        seq![text_field("path"@, path), ("lines"@, object(seq![("begin"@, number(1))]))],
    ));
    assert("path"@.len() == 4 && "lines"@.len() == 5);
    assert(fields[0].0 == "path"@ && fields[1].0 == "lines"@);
    lemma_member(fields, 0);
    lemma_member(fields, 1);
}

proof fn lemma_cq_lines()
    ensures
        member(object(seq![("begin"@, number(1))]), "begin"@) == Some(number(1)),
{
    reveal_strlit("begin");
    let fields = seq![
        ("begin"@, number(1)),
    ];
    assert(object(fields) == object(seq![("begin"@, number(1))]));
    assert("begin"@.len() == 5);
    assert(fields[0].0 == "begin"@);
    lemma_member(fields, 0);
}

proof fn lemma_sast(q: QueryResult, files: Seq<String>)
    ensures
        member(sast_finding(q, files), "id"@) == Some(
            JsonView::Text(result_fingerprint(q, source_of(files, q.line))),
        ),
        member(sast_finding(q, files), "category"@) == Some(JsonView::Text("sast"@)),
        member(sast_finding(q, files), "name"@) == Some(
            JsonView::Text(text_or(q.rule_code, "VERICTO"@)),
        ),
        member(sast_finding(q, files), "message"@) == Some(JsonView::Text(message_of(q))),
        member(sast_finding(q, files), "severity"@) == Some(
            JsonView::Text(sast_severity_of(q.status@, opt_view(q.severity))),
        ),
        member(sast_finding(q, files), "location"@) == Some(
            object(seq![text_field("file"@, source_of(files, q.line)), ("start_line"@, number(1))]),
        ),
        member(sast_finding(q, files), "identifiers"@) == Some(
            JsonView::Array(seq![sast_identifier(text_or(q.rule_code, "VERICTO"@))]),
        ),
{
    reveal_strlit("id");
    reveal_strlit("category");
    reveal_strlit("name");
    reveal_strlit("message");
    reveal_strlit("severity");
    reveal_strlit("location");
    reveal_strlit("identifiers");
    let fields = seq![
        ("id"@, JsonView::Text(result_fingerprint(q, source_of(files, q.line)))),
        ("category"@, JsonView::Text("sast"@)),
        ("name"@, JsonView::Text(text_or(q.rule_code, "VERICTO"@))),
        ("message"@, JsonView::Text(message_of(q))),
        ("severity"@, JsonView::Text(sast_severity_of(q.status@, opt_view(q.severity)))),
        (
            "location"@,
            object(seq![text_field("file"@, source_of(files, q.line)), ("start_line"@, number(1))]),
        ),
        ("identifiers"@, JsonView::Array(seq![sast_identifier(text_or(q.rule_code, "VERICTO"@))])),
    ];
    assert(object(fields) == sast_finding(q, files));
    assert("id"@.len() == 2 && "category"@.len() == 8 && "name"@.len() == 4
        && "message"@.len() == 7 && "severity"@.len() == 8 && "location"@.len() == 8
        && "identifiers"@.len() == 11);
    assert("category"@[0] == 'c' && "severity"@[0] == 's');
    assert("category"@[0] == 'c' && "location"@[0] == 'l');
    assert("severity"@[0] == 's' && "location"@[0] == 'l');
    assert(fields[0].0 == "id"@ && fields[1].0 == "category"@ && fields[2].0 == "name"@
        && fields[3].0 == "message"@ && fields[4].0 == "severity"@ && fields[5].0 == "location"@
        && fields[6].0 == "identifiers"@);
    lemma_member(fields, 0);
    lemma_member(fields, 1);
    lemma_member(fields, 2);
    lemma_member(fields, 3);
    lemma_member(fields, 4);
    lemma_member(fields, 5);
    lemma_member(fields, 6);
}

proof fn lemma_sast_location(file: Seq<char>)
    ensures
        member(object(seq![text_field("file"@, file), ("start_line"@, number(1))]), "file"@)
            == Some(JsonView::Text(file)),
        member(object(seq![text_field("file"@, file), ("start_line"@, number(1))]), "start_line"@)
            == Some(number(1)),
{
    reveal_strlit("file");
    reveal_strlit("start_line");
    let fields = seq![
        ("file"@, JsonView::Text(file)),
        ("start_line"@, number(1)),
    ];
    assert(object(fields) == object(seq![text_field("file"@, file), ("start_line"@, number(1))]));
    assert("file"@.len() == 4 && "start_line"@.len() == 10);
    assert(fields[0].0 == "file"@ && fields[1].0 == "start_line"@);
    lemma_member(fields, 0);
    lemma_member(fields, 1);
}

proof fn lemma_identifier(rule: Seq<char>)
    ensures
        member(sast_identifier(rule), "type"@) == Some(JsonView::Text("vericto_rule"@)),
        member(sast_identifier(rule), "name"@) == Some(JsonView::Text(rule)),
        member(sast_identifier(rule), "value"@) == Some(JsonView::Text(rule)),
{
    reveal_strlit("type");
    reveal_strlit("name");
    reveal_strlit("value");
    let fields = seq![
        ("type"@, JsonView::Text("vericto_rule"@)),
        ("name"@, JsonView::Text(rule)),
        ("value"@, JsonView::Text(rule)),
    ];
    assert(object(fields) == sast_identifier(rule));
    assert("type"@.len() == 4 && "name"@.len() == 4 && "value"@.len() == 5);
    assert("type"@[0] == 't' && "name"@[0] == 'n');
    assert(fields[0].0 == "type"@ && fields[1].0 == "name"@ && fields[2].0 == "value"@);
    lemma_member(fields, 0);
    lemma_member(fields, 1);
    lemma_member(fields, 2);
}

proof fn lemma_sast_report(resp: CheckResponse, files: Seq<String>)
    ensures
        member(sast_report(resp, files), "version"@) == Some(JsonView::Text("15.0.6"@)),
        member(sast_report(resp, files), "scan"@) == Some(sast_scan()),
        member(sast_report(resp, files), "vulnerabilities"@) == Some(
            JsonView::Array(sast_findings(findings(resp.queries@), files)),
        ),
{
    reveal_strlit("version");
    reveal_strlit("scan");
    reveal_strlit("vulnerabilities");
    let fields = seq![
        ("version"@, JsonView::Text("15.0.6"@)),
        ("scan"@, sast_scan()),
        ("vulnerabilities"@, JsonView::Array(sast_findings(findings(resp.queries@), files))),
    ];
    assert(object(fields) == sast_report(resp, files));
    assert("version"@.len() == 7 && "scan"@.len() == 4 && "vulnerabilities"@.len() == 15);
    assert(fields[0].0 == "version"@ && fields[1].0 == "scan"@
        && fields[2].0 == "vulnerabilities"@);
    lemma_member(fields, 0);
    lemma_member(fields, 1);
    lemma_member(fields, 2);
}

proof fn lemma_summary(s: Summary)
    ensures
        member(summary_doc(s), "total"@) == Some(number(s.total as int)),
        member(summary_doc(s), "blocked"@) == Some(number(s.blocked as int)),
        member(summary_doc(s), "allowed"@) == Some(number(s.allowed as int)),
        member(summary_doc(s), "flagged"@) == Some(number(s.flagged as int)),
        member(summary_doc(s), "monitored"@) == Some(number(s.monitored as int)),
        member(summary_doc(s), "parse_errors"@) == Some(number(s.parse_errors as int)),
        member(summary_doc(s), "ruleset_version"@) == Some(JsonView::Text(s.ruleset_version@)),
{
    reveal_strlit("total");
    reveal_strlit("blocked");
    reveal_strlit("allowed");
    reveal_strlit("flagged");
    reveal_strlit("monitored");
    reveal_strlit("parse_errors");
    reveal_strlit("ruleset_version");
    let fields = seq![
        ("total"@, number(s.total as int)),
        ("blocked"@, number(s.blocked as int)),
        ("allowed"@, number(s.allowed as int)),
        ("flagged"@, number(s.flagged as int)),
        ("monitored"@, number(s.monitored as int)),
        ("parse_errors"@, number(s.parse_errors as int)),
        ("ruleset_version"@, JsonView::Text(s.ruleset_version@)),
    ];
    assert(object(fields) == summary_doc(s));
    assert("total"@.len() == 5 && "blocked"@.len() == 7 && "allowed"@.len() == 7
        && "flagged"@.len() == 7 && "monitored"@.len() == 9 && "parse_errors"@.len() == 12
        && "ruleset_version"@.len() == 15);
    assert("blocked"@[0] == 'b' && "allowed"@[0] == 'a');
    assert("blocked"@[0] == 'b' && "flagged"@[0] == 'f');
    assert("allowed"@[0] == 'a' && "flagged"@[0] == 'f');
    assert(fields[0].0 == "total"@ && fields[1].0 == "blocked"@ && fields[2].0 == "allowed"@
        && fields[3].0 == "flagged"@ && fields[4].0 == "monitored"@
        && fields[5].0 == "parse_errors"@ && fields[6].0 == "ruleset_version"@);
    lemma_member(fields, 0);
    lemma_member(fields, 1);
    lemma_member(fields, 2);
    lemma_member(fields, 3);
    lemma_member(fields, 4);
    lemma_member(fields, 5);
    lemma_member(fields, 6);
}

proof fn lemma_result(q: QueryResult)
    ensures
        member(result_doc(q), "line"@) == Some(number(q.line as int)),
        member(result_doc(q), "status"@) == Some(JsonView::Text(q.status@)),
        member(result_doc(q), "action"@) == Some(crate::json::text_or_null(opt_view(q.action))),
        member(result_doc(q), "rule_code"@) == Some(
            crate::json::text_or_null(opt_view(q.rule_code)),
        ),
        member(result_doc(q), "severity"@) == Some(crate::json::text_or_null(opt_view(q.severity))),
        member(result_doc(q), "ast_node_path"@) == Some(
            crate::json::text_or_null(opt_view(q.ast_node_path)),
        ),
        member(result_doc(q), "suggested_fix"@) == Some(
            crate::json::text_or_null(opt_view(q.suggested_fix)),
        ),
        member(result_doc(q), "sql_preview"@) == Some(JsonView::Text(q.sql_preview@)),
{
    reveal_strlit("line");
    reveal_strlit("status");
    reveal_strlit("action");
    reveal_strlit("rule_code");
    reveal_strlit("severity");
    reveal_strlit("ast_node_path");
    reveal_strlit("suggested_fix");
    reveal_strlit("sql_preview");
    let fields = seq![
        ("line"@, number(q.line as int)),
        ("status"@, JsonView::Text(q.status@)),
        ("action"@, crate::json::text_or_null(opt_view(q.action))),
        ("rule_code"@, crate::json::text_or_null(opt_view(q.rule_code))),
        ("severity"@, crate::json::text_or_null(opt_view(q.severity))),
        ("ast_node_path"@, crate::json::text_or_null(opt_view(q.ast_node_path))),
        ("suggested_fix"@, crate::json::text_or_null(opt_view(q.suggested_fix))),
        ("sql_preview"@, JsonView::Text(q.sql_preview@)),
    ];
    assert(object(fields) == result_doc(q));
    assert("line"@.len() == 4 && "status"@.len() == 6 && "action"@.len() == 6
        && "rule_code"@.len() == 9 && "severity"@.len() == 8 && "ast_node_path"@.len() == 13
        && "suggested_fix"@.len() == 13 && "sql_preview"@.len() == 11);
    assert("status"@[0] == 's' && "action"@[0] == 'a');
    assert("ast_node_path"@[0] == 'a' && "suggested_fix"@[0] == 's');
    assert(fields[0].0 == "line"@ && fields[1].0 == "status"@ && fields[2].0 == "action"@
        && fields[3].0 == "rule_code"@ && fields[4].0 == "severity"@
        && fields[5].0 == "ast_node_path"@ && fields[6].0 == "suggested_fix"@
        && fields[7].0 == "sql_preview"@);
    lemma_member(fields, 0);
    lemma_member(fields, 1);
    lemma_member(fields, 2);
    lemma_member(fields, 3);
    lemma_member(fields, 4);
    lemma_member(fields, 5);
    lemma_member(fields, 6);
    lemma_member(fields, 7);
}

proof fn lemma_json_report(resp: CheckResponse)
    ensures
        member(json_report(resp), "summary"@) == Some(summary_doc(resp.summary)),
        member(json_report(resp), "queries"@) == Some(JsonView::Array(result_docs(resp.queries@))),
        member(json_report(resp), "exit_code"@) == Some(number(resp.exit_code as int)),
{
    reveal_strlit("summary");
    reveal_strlit("queries");
    reveal_strlit("exit_code");
    let fields = seq![
        ("summary"@, summary_doc(resp.summary)),
        ("queries"@, JsonView::Array(result_docs(resp.queries@))),
        ("exit_code"@, number(resp.exit_code as int)),
    ];
    assert(object(fields) == json_report(resp));
    assert("summary"@.len() == 7 && "queries"@.len() == 7 && "exit_code"@.len() == 9);
    assert("summary"@[0] == 's' && "queries"@[0] == 'q');
    assert(fields[0].0 == "summary"@ && fields[1].0 == "queries"@ && fields[2].0 == "exit_code"@);
    lemma_member(fields, 0);
    lemma_member(fields, 1);
    lemma_member(fields, 2);
}

// ── Machine-readable reports ──────────────────────────────────────────────────

/// Result `k` of a SARIF document.
pub open spec fn sarif_item(doc: JsonView, k: int) -> Option<JsonView> {
    item(at(item(at(Some(doc), "runs"@), 0), "results"@), k)
}

/// A SARIF report holds one result for each finding, in order, with the rule, the level, the
/// message and the file of that finding.
pub proof fn law_sarif_results_are_the_findings(resp: CheckResponse, files: Seq<String>, k: int)
    requires
        0 <= k < reported(resp).len(),
    ensures
        ({
            let doc = sarif_report(resp, files);
            let q = reported(resp)[k];
            let result = sarif_item(doc, k);
            let place = at(item(at(result, "locations"@), 0), "physicalLocation"@);
            &&& is_list_of(at(item(at(Some(doc), "runs"@), 0), "results"@), reported(resp).len())
            &&& is_list_of(at(Some(doc), "runs"@), 1)
            &&& at(result, "ruleId"@) == text(rule_of(q))
            &&& at(result, "level"@) == text(level_of(q))
            &&& at(at(result, "message"@), "text"@) == text(says(q))
            &&& is_list_of(at(result, "locations"@), 1)
            &&& at(at(place, "artifactLocation"@), "uri"@) == text(file_of(q, files))
            &&& at(at(place, "region"@), "startLine"@) == whole(1)
        }),
{
    let fs = findings(resp.queries@);
    law_findings_are_what_is_not_allowed(resp.queries@);
    let q = fs[k];
    let uri = source_of(files, q.line);
    law_findings_are_known_by_rule_file_and_path(q, files);
    law_messages_hold_the_fields(q);
    lemma_sarif_report(resp, files);
    lemma_sarif_run(fs, files);
    lemma_sarif_result(q, files);
    lemma_message(message_of(q));
    lemma_location(uri);
    lemma_place(uri);
    lemma_uri(uri);
    lemma_region();
    assert(sarif_results(fs, files)[k] == sarif_result(q, files));
}

/// The file that a SARIF result names is the one that the result was checked in: that at the
/// place of its line in the list of files.
pub proof fn law_sarif_results_name_their_file(q: QueryResult, files: Seq<String>)
    ensures
        1 <= q.line <= files.len() && files[q.line - 1]@ != "-"@ ==> at(
            at(
                at(item(at(Some(sarif_result(q, files)), "locations"@), 0), "physicalLocation"@),
                "artifactLocation"@,
            ),
            "uri"@,
        ) == text(files[q.line - 1]@),
        !(1 <= q.line <= files.len() && files[q.line - 1]@ != "-"@) ==> at(
            at(
                at(item(at(Some(sarif_result(q, files)), "locations"@), 0), "physicalLocation"@),
                "artifactLocation"@,
            ),
            "uri"@,
        ) == text("<stdin>"@),
{
    let uri = source_of(files, q.line);
    lemma_sarif_result(q, files);
    lemma_location(uri);
    lemma_place(uri);
    lemma_uri(uri);
}

/// The three reports and the baseline name one file for one finding.
pub proof fn law_reports_agree_on_the_file(q: QueryResult, files: Seq<String>)
    ensures
        at(
            at(
                at(item(at(Some(sarif_result(q, files)), "locations"@), 0), "physicalLocation"@),
                "artifactLocation"@,
            ),
            "uri"@,
        ) == at(at(Some(cq_issue(q, files)), "location"@), "path"@),
        at(at(Some(cq_issue(q, files)), "location"@), "path"@) == at(
            at(Some(sast_finding(q, files)), "location"@),
            "file"@,
        ),
        at(at(Some(sast_finding(q, files)), "location"@), "file"@) == text(
            crate::baseline::entry_of(q, files).file,
        ),
        at(at(Some(sast_finding(q, files)), "location"@), "file"@) == text(file_of(q, files)),
{
    let uri = source_of(files, q.line);
    law_sarif_results_name_their_file(q, files);
    lemma_cq(q, files);
    lemma_cq_location(uri);
    lemma_sast(q, files);
    lemma_sast_location(uri);
}

/// A Code Quality report holds one issue for each finding, in order.
pub proof fn law_code_quality_issues_are_the_findings(
    resp: CheckResponse,
    files: Seq<String>,
    k: int,
)
    requires
        0 <= k < reported(resp).len(),
    ensures
        ({
            let doc = Some(cq_report(resp, files));
            let q = reported(resp)[k];
            let issue = item(doc, k);
            &&& is_list_of(doc, reported(resp).len())
            &&& at(issue, "description"@) == text(says(q))
            &&& at(issue, "check_name"@) == text(rule_of(q))
            &&& at(issue, "fingerprint"@) == text(print_of(q, files))
            &&& at(issue, "severity"@) == text(code_quality_severity(q))
            &&& at(at(issue, "location"@), "path"@) == text(file_of(q, files))
            &&& at(at(at(issue, "location"@), "lines"@), "begin"@) == whole(1)
        }),
{
    let fs = findings(resp.queries@);
    law_findings_are_what_is_not_allowed(resp.queries@);
    let q = fs[k];
    let uri = source_of(files, q.line);
    law_findings_are_known_by_rule_file_and_path(q, files);
    law_messages_hold_the_fields(q);
    lemma_cq(q, files);
    lemma_cq_location(uri);
    lemma_cq_lines();
    assert(cq_issues(fs, files)[k] == cq_issue(q, files));
}

/// A SAST report holds one vulnerability for each finding, in order.
pub proof fn law_scan_findings_are_the_findings(resp: CheckResponse, files: Seq<String>, k: int)
    requires
        0 <= k < reported(resp).len(),
    ensures
        ({
            let doc = Some(sast_report(resp, files));
            let q = reported(resp)[k];
            let found = item(at(doc, "vulnerabilities"@), k);
            let identifier = item(at(found, "identifiers"@), 0);
            &&& is_list_of(at(doc, "vulnerabilities"@), reported(resp).len())
            &&& at(doc, "version"@) == text("15.0.6"@)
            &&& at(found, "id"@) == text(print_of(q, files))
            &&& at(found, "category"@) == text("sast"@)
            &&& at(found, "name"@) == text(rule_of(q))
            &&& at(found, "message"@) == text(says(q))
            &&& at(found, "severity"@) == text(scan_severity(q))
            &&& at(at(found, "location"@), "file"@) == text(file_of(q, files))
            &&& at(at(found, "location"@), "start_line"@) == whole(1)
            &&& is_list_of(at(found, "identifiers"@), 1)
            &&& at(identifier, "type"@) == text("vericto_rule"@)
            &&& at(identifier, "name"@) == text(rule_of(q))
            &&& at(identifier, "value"@) == text(rule_of(q))
        }),
{
    let fs = findings(resp.queries@);
    law_findings_are_what_is_not_allowed(resp.queries@);
    let q = fs[k];
    let uri = source_of(files, q.line);
    law_findings_are_known_by_rule_file_and_path(q, files);
    law_messages_hold_the_fields(q);
    lemma_sast_report(resp, files);
    lemma_sast(q, files);
    lemma_sast_location(uri);
    lemma_identifier(rule_of(q));
    assert(sast_findings(fs, files)[k] == sast_finding(q, files));
}

/// A JSON report holds every result of the run, in order, each with all its fields.
pub proof fn law_json_results_are_the_results(resp: CheckResponse, k: int)
    requires
        0 <= k < resp.queries@.len(),
    ensures
        ({
            let doc = Some(json_report(resp));
            let q = resp.queries@[k];
            let result = item(at(doc, "queries"@), k);
            &&& is_list_of(at(doc, "queries"@), resp.queries@.len())
            &&& at(result, "line"@) == whole(q.line as int)
            &&& at(result, "status"@) == text(q.status@)
            &&& at(result, "action"@) == text_or_nothing(q.action)
            &&& at(result, "rule_code"@) == text_or_nothing(q.rule_code)
            &&& at(result, "severity"@) == text_or_nothing(q.severity)
            &&& at(result, "ast_node_path"@) == text_or_nothing(q.ast_node_path)
            &&& at(result, "suggested_fix"@) == text_or_nothing(q.suggested_fix)
            &&& at(result, "sql_preview"@) == text(q.sql_preview@)
        }),
{
    let q = resp.queries@[k];
    lemma_json_report(resp);
    lemma_result(q);
    assert(result_docs(resp.queries@)[k] == result_doc(q));
}

/// A JSON report holds the counts and the exit code of the run.
pub proof fn law_json_summary_is_the_summary(resp: CheckResponse)
    ensures
        ({
            let doc = Some(json_report(resp));
            let summary = at(doc, "summary"@);
            &&& at(summary, "total"@) == whole(resp.summary.total as int)
            &&& at(summary, "blocked"@) == whole(resp.summary.blocked as int)
            &&& at(summary, "allowed"@) == whole(resp.summary.allowed as int)
            &&& at(summary, "flagged"@) == whole(resp.summary.flagged as int)
            &&& at(summary, "monitored"@) == whole(resp.summary.monitored as int)
            &&& at(summary, "parse_errors"@) == whole(resp.summary.parse_errors as int)
            &&& at(summary, "ruleset_version"@) == text(resp.summary.ruleset_version@)
            &&& at(doc, "exit_code"@) == whole(resp.exit_code as int)
        }),
{
    lemma_json_report(resp);
    lemma_summary(resp.summary);
}

proof fn lemma_rule_ids(fs: Seq<QueryResult>)
    ensures
        rule_ids(fs).no_duplicates(),
        forall|id: Seq<char>| #[trigger]
            rule_ids(fs).contains(id) <==> exists|i: int|
                0 <= i < fs.len() && opt_view((#[trigger] fs[i]).rule_code) == Some(id),
    decreases fs.len(),
{
    if fs.len() > 0 {
        let rest = fs.drop_last();
        let n = fs.len() - 1;
        lemma_rule_ids(rest);
        let before = rule_ids(rest);
        assert(forall|i: int| 0 <= i < n ==> rest[i] == fs[i]);
        assert forall|id: Seq<char>| #[trigger] rule_ids(fs).contains(id) <==> exists|i: int|
            0 <= i < fs.len() && opt_view((#[trigger] fs[i]).rule_code) == Some(id) by {
            if rule_ids(fs).contains(id) {
                if before.contains(id) {
                    let i = choose|i: int|
                        0 <= i < rest.len() && opt_view((#[trigger] rest[i]).rule_code) == Some(id);
                    assert(opt_view(fs[i].rule_code) == Some(id));
                } else {
                    let x = choose|x: int| 0 <= x < rule_ids(fs).len() && rule_ids(fs)[x] == id;
                    assert(x == before.len()) by {
                        if x < before.len() {
                            assert(before[x] == id);
                        }
                    }
                    assert(opt_view(fs[n].rule_code) == Some(id));
                }
            }
            if exists|i: int|
                0 <= i < fs.len() && opt_view((#[trigger] fs[i]).rule_code) == Some(id) {
                let i = choose|i: int|
                    0 <= i < fs.len() && opt_view((#[trigger] fs[i]).rule_code) == Some(id);
                if i < n {
                    assert(opt_view(rest[i].rule_code) == Some(id));
                    assert(before.contains(id));
                    let x = choose|x: int| 0 <= x < before.len() && before[x] == id;
                    assert(rule_ids(fs)[x] == id);
                } else if !before.contains(id) {
                    assert(rule_ids(fs)[before.len() as int] == id);
                }
            }
        }
    }
}

/// The driver of a SARIF report names each rule of the findings once, and no other.
pub proof fn law_sarif_rules_are_those_of_the_findings(
    resp: CheckResponse,
    files: Seq<String>,
    code: Seq<char>,
)
    ensures
        ({
            let driver = at(
                at(item(at(Some(sarif_report(resp, files)), "runs"@), 0), "tool"@),
                "driver"@,
            );
            &&& at(driver, "name"@) == text("vericto"@)
            &&& (exists|i: int|
                at(#[trigger] item(at(driver, "rules"@), i), "id"@) == text(code)) <==> (exists|j:
                int|
                0 <= j < reported(resp).len() && opt_view(
                    (#[trigger] reported(resp)[j]).rule_code,
                ) == Some(code))
            &&& forall|i: int, j: int|
                i != j && at(#[trigger] item(at(driver, "rules"@), i), "id"@) == text(code) ==> at(
                    #[trigger] item(at(driver, "rules"@), j),
                    "id"@,
                ) != text(code)
        }),
{
    let fs = findings(resp.queries@);
    law_findings_are_what_is_not_allowed(resp.queries@);
    let ids = rule_ids(fs);
    lemma_rule_ids(fs);
    lemma_sarif_report(resp, files);
    lemma_sarif_run(fs, files);
    lemma_tool(sarif_driver(ids));
    lemma_driver(ids);
    let driver = at(
        at(item(at(Some(sarif_report(resp, files)), "runs"@), 0), "tool"@),
        "driver"@,
    );
    let rules = at(driver, "rules"@);
    assert(rules == Some(JsonView::Array(sarif_rules(ids))));
    assert forall|i: int| 0 <= i < ids.len() implies at(#[trigger] item(rules, i), "id"@) == text(
        ids[i],
    ) by {
        lemma_rule(ids[i]);
        assert(sarif_rules(ids)[i] == object(
            seq![text_field("id"@, ids[i]), text_field("name"@, ids[i])],
        ));
    }
    assert forall|i: int| !(0 <= i < ids.len()) implies #[trigger] item(rules, i) is None by {}
    if ids.contains(code) {
        let i = choose|i: int| 0 <= i < ids.len() && ids[i] == code;
        assert(at(item(rules, i), "id"@) == text(code));
    }
    if exists|i: int| at(#[trigger] item(rules, i), "id"@) == text(code) {
        let i = choose|i: int| at(#[trigger] item(rules, i), "id"@) == text(code);
        assert(0 <= i < ids.len());
        assert(ids[i] == code);
        assert(ids.contains(code));
    }
}

// ── Reports to read ───────────────────────────────────────────────────────────

proof fn lemma_flat<T>(items: Seq<T>, f: spec_fn(T) -> Seq<char>)
    requires
        items.len() > 0,
    ensures
        items.map_values(f).flatten() == items.drop_last().map_values(f).flatten() + f(
            items.last(),
        ),
{
    let rest = items.drop_last().map_values(f);
    rest.lemma_flatten_push(f(items.last()));
    assert(items.map_values(f) =~= rest.push(f(items.last())));
}

/// What follows the line of a finding: its syntax path and its fix, each on a line of its
/// own, where there is one.
pub open spec fn more(q: QueryResult, indent: Seq<char>) -> Seq<char> {
    part(q.ast_node_path is Some, indent + or_nothing(q.ast_node_path) + "\n"@) + part(
        q.suggested_fix is Some,
        indent + ("fix: "@ + or_nothing(q.suggested_fix)) + "\n"@,
    )
}

/// A finding in a plain report: its status, file, rule and severity, and what more there is.
pub open spec fn plain_lines(q: QueryResult, files: Seq<String>) -> Seq<char> {
    q.status@ + " "@ + file_of(q, files) + "  "@ + or_nothing(q.rule_code) + " "@ + or_nothing(
        q.severity,
    ) + "\n"@ + more(q, "    "@)
}

/// The last line of a report: the counts of the run and the version of the rules.
pub open spec fn counts(s: Summary) -> Seq<char> {
    decimal(s.blocked as nat) + " blocked · "@ + decimal(s.allowed as nat) + " allowed · "@
        + decimal(s.flagged as nat) + " flagged · "@ + decimal(s.monitored as nat)
        + " monitored   (ruleset "@ + s.ruleset_version@ + ")"@
}

proof fn lemma_plain_findings(fs: Seq<QueryResult>, files: Seq<String>)
    ensures
        plain_findings(fs, files) == fs.map_values(
            |q: QueryResult| plain_lines(q, files),
        ).flatten(),
    decreases fs.len(),
{
    if fs.len() > 0 {
        lemma_plain_findings(fs.drop_last(), files);
        lemma_flat(fs, |q: QueryResult| plain_lines(q, files));
        lemma_empty();
        assert(plain_finding(fs.last(), files) == plain_lines(fs.last(), files));
    }
}

/// A plain report holds the lines of every finding, in order, then the counts of the run; a
/// quiet one the counts alone.
pub proof fn law_plain_reports_hold_every_finding(resp: CheckResponse, files: Seq<String>)
    ensures
        plain_report(resp, files, false) == reported(resp).map_values(
            |q: QueryResult| plain_lines(q, files),
        ).flatten() + (counts(resp.summary) + "\n"@),
        plain_report(resp, files, true) == counts(resp.summary) + "\n"@,
{
    law_findings_are_what_is_not_allowed(resp.queries@);
    lemma_plain_findings(findings(resp.queries@), files);
    assert(Seq::<char>::empty() + (counts(resp.summary) + "\n"@) =~= counts(resp.summary) + "\n"@);
}

/// The sign of a status on a terminal.
pub open spec fn sign(status: Seq<char>) -> Seq<char> {
    if status == "BLOCKED"@ {
        "✖"@
    } else if status == "FLAGGED"@ {
        "!"@
    } else if status == "MONITORED"@ {
        "•"@
    } else if status == "PARSE_ERROR"@ {
        "?"@
    } else {
        "✓"@
    }
}

/// The look of a status on a terminal: only what is blocked is bold.
pub open spec fn look(status: Seq<char>) -> TextStyle {
    TextStyle {
        color: Some(
            if status == "BLOCKED"@ {
                Color::Red
            } else if status == "FLAGGED"@ || status == "PARSE_ERROR"@ {
                Color::Yellow
            } else if status == "MONITORED"@ {
                Color::Blue
            } else {
                Color::Green
            },
        ),
        bold: status == "BLOCKED"@,
        dimmed: false,
    }
}

/// The line of a finding on a terminal.
pub open spec fn shown(q: QueryResult, files: Seq<String>) -> Seq<char> {
    styled(look(q.status@), sign(q.status@) + " "@ + file_of(q, files) + "  "@ + q.status@) + "  "@
        + or_nothing(q.rule_code) + " "@ + or_nothing(q.severity) + "\n"@
}

proof fn lemma_shown(q: QueryResult, files: Seq<String>)
    ensures
        styled_line(q, files) == shown(q, files),
{
    lemma_empty();
    reveal_strlit("MONITORED");
    reveal_strlit("PARSE_ERROR");
    assert("MONITORED"@.len() != "PARSE_ERROR"@.len());
    assert(status_look(q.status@) == look(q.status@));
    assert(status_mark(q.status@) == sign(q.status@));
}

proof fn lemma_colored_findings(fs: Seq<QueryResult>, files: Seq<String>)
    ensures
        colored_findings(fs, files) == fs.map_values(
            |q: QueryResult| shown(q, files) + more(q, "    "@),
        ).flatten(),
    decreases fs.len(),
{
    if fs.len() > 0 {
        lemma_colored_findings(fs.drop_last(), files);
        lemma_flat(fs, |q: QueryResult| shown(q, files) + more(q, "    "@));
        lemma_shown(fs.last(), files);
        assert(colored_finding(fs.last(), files) == shown(fs.last(), files) + more(
            fs.last(),
            "    "@,
        ));
    }
}

/// A report on a terminal holds the lines of every finding, in order, then the counts of the
/// run; a quiet one the counts alone.
pub proof fn law_colored_reports_hold_every_finding(resp: CheckResponse, files: Seq<String>)
    ensures
        colored_report(resp, files, false) == reported(resp).map_values(
            |q: QueryResult| shown(q, files) + more(q, "    "@),
        ).flatten() + (styled(
            TextStyle { color: None, bold: false, dimmed: true },
            counts(resp.summary),
        ) + "\n"@),
        colored_report(resp, files, true) == styled(
            TextStyle { color: None, bold: false, dimmed: true },
            counts(resp.summary),
        ) + "\n"@,
{
    law_findings_are_what_is_not_allowed(resp.queries@);
    lemma_colored_findings(findings(resp.queries@), files);
    let last = styled(
        TextStyle { color: None, bold: false, dimmed: true },
        counts(resp.summary),
    ) + "\n"@;
    assert(Seq::<char>::empty() + last =~= last);
}

/// A report is the document of its format; on a terminal a line feed follows, and only a
/// text report on a terminal is colored.
pub proof fn law_reports_follow_their_format(
    resp: CheckResponse,
    files: Seq<String>,
    quiet: bool,
    target: Target,
    color: bool,
)
    ensures
        ({
            let end = part(!(target is File), "\n"@);
            &&& report(resp, Format::Json, files, quiet, target, color) == json_pretty_text(
                json_report(resp),
            ) + end
            &&& report(resp, Format::Sarif, files, quiet, target, color) == json_pretty_text(
                sarif_report(resp, files),
            ) + end
            &&& report(resp, Format::GitlabCodequality, files, quiet, target, color)
                == json_pretty_text(cq_report(resp, files)) + end
            &&& report(resp, Format::GitlabSast, files, quiet, target, color) == json_pretty_text(
                sast_report(resp, files),
            ) + end
            &&& (target is File || !color) ==> report(
                resp,
                Format::Text,
                files,
                quiet,
                target,
                color,
            ) == plain_report(resp, files, quiet)
            &&& (!(target is File) && color) ==> report(
                resp,
                Format::Text,
                files,
                quiet,
                target,
                color,
            ) == colored_report(resp, files, quiet)
        }),
{
}

// ── Failed runs ───────────────────────────────────────────────────────────────

/// What a workflow command writes for a character: percent signs and line ends are escaped.
pub open spec fn escaped(c: char) -> Seq<char> {
    if c == '%' {
        seq!['%', '2', '5']
    } else if c == '\r' {
        seq!['%', '0', 'D']
    } else if c == '\n' {
        seq!['%', '0', 'A']
    } else {
        seq![c]
    }
}

/// Each character of a message stands in a workflow command, escaped where it has to be.
pub proof fn law_commands_hold_every_character(s: Seq<char>)
    ensures
        gha_text(s) == s.map_values(|c: char| escaped(c)).flatten(),
    decreases s.len(),
{
    reveal_strlit("%25");
    reveal_strlit("%0D");
    reveal_strlit("%0A");
    if s.len() > 0 {
        law_commands_hold_every_character(s.drop_last());
        lemma_flat(s, |c: char| escaped(c));
        assert(gha_char(s.last()) =~= escaped(s.last()));
    }
}

/// The workflow command for a finding that fails the run.
pub open spec fn command(q: QueryResult, files: Seq<String>) -> Seq<char> {
    "::error file="@ + file_of(q, files) + ",line=1,title="@ + ((match q.rule_code {
        Some(code) => "Vericto "@ + code@ + " ["@,
        None => "Vericto ["@,
    }) + q.status@ + "]"@) + "::"@ + says(q).map_values(|c: char| escaped(c)).flatten() + "\n"@
}

/// Each finding that fails a run is annotated, in order.
pub proof fn law_annotations_hold_every_failure(failing: Seq<&QueryResult>, files: Seq<String>)
    ensures
        annotations(failing, files) == failing.map_values(
            |q: &QueryResult| command(*q, files),
        ).flatten(),
    decreases failing.len(),
{
    if failing.len() > 0 {
        law_annotations_hold_every_failure(failing.drop_last(), files);
        lemma_flat(failing, |q: &QueryResult| command(*q, files));
        let q = *failing.last();
        law_messages_hold_the_fields(q);
        law_commands_hold_every_character(says(q));
        assert(annotation(q, files) == command(q, files));
    }
}

/// A finding in the explanation of a failed run. A syntax path that only repeats the status
/// is left out.
pub open spec fn explained(q: QueryResult, files: Seq<String>) -> Seq<char> {
    "  "@ + shown(q, files) + (part(
        q.ast_node_path is Some && or_nothing(q.ast_node_path) != q.status@,
        "      "@ + or_nothing(q.ast_node_path) + "\n"@,
    ) + part(
        q.suggested_fix is Some,
        "      "@ + ("fix: "@ + or_nothing(q.suggested_fix)) + "\n"@,
    ))
}

/// Each finding that fails a run is explained, in order.
pub proof fn law_explanations_hold_every_failure(failing: Seq<&QueryResult>, files: Seq<String>)
    ensures
        failing_findings(failing, files) == failing.map_values(
            |q: &QueryResult| explained(*q, files),
        ).flatten(),
    decreases failing.len(),
{
    if failing.len() > 0 {
        law_explanations_hold_every_failure(failing.drop_last(), files);
        lemma_flat(failing, |q: &QueryResult| explained(*q, files));
        let q = *failing.last();
        lemma_shown(q, files);
        assert(failing_finding(q, files) == explained(q, files));
    }
}

/// The example in the explanation names the rule of the first finding that has one.
pub proof fn law_the_example_names_the_first_rule(failing: Seq<&QueryResult>, k: int)
    requires
        0 <= k < failing.len(),
        failing[k].rule_code is Some,
        forall|j: int| 0 <= j < k ==> (#[trigger] failing[j]).rule_code is None,
    ensures
        first_rule(failing) == failing[k].rule_code->Some_0@,
    decreases k,
{
    if k > 0 {
        assert(failing[0].rule_code is None);
        let rest = failing.drop_first();
        assert(forall|j: int| 0 <= j < rest.len() ==> rest[j] == failing[j + 1]);
        law_the_example_names_the_first_rule(rest, k - 1);
    }
}

} // verus!
