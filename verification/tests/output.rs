use vericto::api::{ApiKeyInfo, CheckResponse, QueryResult, RuleDetail, RuleSummary, Summary};
use vericto::output::{
    file_for, finding_message, fingerprint, gha_encode, gitlab_cq_severity, gitlab_sast_severity,
    is_finding, osc8_link, render, render_ci_failure_summary, render_docs,
    render_gitlab_codequality, render_gitlab_sast, render_json, render_keys, render_rule_detail,
    render_rules_list, render_sarif, render_text_colored, render_text_plain, sarif_level,
    severity_style, status_style, DocRow, Format, Target,
};
use vericto::style::{bold, bold_red, colored, dim, styled_text, Color, TextStyle};

fn q(status: &str, rule: Option<&str>, sev: Option<&str>) -> QueryResult {
    QueryResult {
        line: 1,
        sql_preview: "DELETE FROM t".into(),
        status: status.into(),
        action: None,
        rule_code: rule.map(String::from),
        ast_node_path: Some("DeleteStmt > WhereClause = NULL".into()),
        severity: sev.map(String::from),
        suggested_fix: Some("add WHERE".into()),
    }
}

fn resp(queries: Vec<QueryResult>) -> CheckResponse {
    CheckResponse {
        summary: Summary {
            total: queries.len() as u32,
            blocked: 1,
            allowed: 0,
            flagged: 0,
            monitored: 0,
            parse_errors: 0,
            ruleset_version: "v1".into(),
        },
        queries,
        exit_code: 1,
        ci_checks_remaining: None,
        telemetry_query_mode: None,
        min_cli_version: None,
        receipt: None,
        merged_receipts: Vec::new(),
        api_version_header: None,
    }
}

#[test]
fn file_for_maps_line_to_path_and_stdin() {
    let files = vec!["a.sql".to_string(), "-".to_string()];
    assert_eq!(file_for(&files, 1), "a.sql");
    assert_eq!(file_for(&files, 2), "<stdin>"); // "-" → stdin
    assert_eq!(file_for(&files, 9), "<stdin>"); // out of range
}

#[test]
fn is_finding_excludes_allowed() {
    assert!(!is_finding(&q("ALLOWED", None, None)));
    assert!(is_finding(&q(
        "BLOCKED",
        Some("VERICTO-001"),
        Some("critical")
    )));
}

#[test]
fn sarif_level_from_status_and_severity() {
    assert_eq!(sarif_level(&q("BLOCKED", None, None)), "error");
    assert_eq!(sarif_level(&q("PARSE_ERROR", None, None)), "warning");
    assert_eq!(sarif_level(&q("FLAGGED", None, Some("high"))), "error");
    assert_eq!(sarif_level(&q("FLAGGED", None, Some("medium"))), "warning");
    assert_eq!(sarif_level(&q("MONITORED", None, Some("low"))), "note");
}

#[test]
fn gitlab_severities_map() {
    assert_eq!(gitlab_cq_severity(&q("BLOCKED", None, None)), "blocker");
    assert_eq!(
        gitlab_cq_severity(&q("FLAGGED", None, Some("critical"))),
        "critical"
    );
    assert_eq!(
        gitlab_cq_severity(&q("FLAGGED", None, Some("medium"))),
        "minor"
    );
    assert_eq!(gitlab_sast_severity(&q("BLOCKED", None, None)), "Critical");
    assert_eq!(
        gitlab_sast_severity(&q("FLAGGED", None, Some("low"))),
        "Low"
    );
    assert_eq!(gitlab_sast_severity(&q("FLAGGED", None, None)), "Unknown");
}

#[test]
fn fingerprint_is_stable_and_rule_sensitive() {
    let a = fingerprint(&q("BLOCKED", Some("VERICTO-001"), None), "m.sql");
    let b = fingerprint(&q("BLOCKED", Some("VERICTO-001"), None), "m.sql");
    let c = fingerprint(&q("BLOCKED", Some("VERICTO-010"), None), "m.sql");
    assert_eq!(a, b); // deterministic
    assert_ne!(a, c); // different rule → different fp
}

#[test]
fn finding_message_includes_rule_severity_path() {
    let m = finding_message(&q("BLOCKED", Some("VERICTO-001"), Some("critical")));
    assert!(m.contains("VERICTO-001"));
    assert!(m.contains("BLOCKED"));
    assert!(m.contains("critical"));
    assert!(m.contains("fix:"));
}

#[test]
fn finding_message_parse_error_is_plain_and_not_redundant() {
    // Backend sends status=PARSE_ERROR, no rule_code/severity, and
    // ast_node_path echoing the literal "PARSE_ERROR". The message must not
    // read "VERICTO [PARSE_ERROR] — PARSE_ERROR".
    let pe = QueryResult {
        line: 1,
        sql_preview: "COPY t FROM stdin".into(),
        status: "PARSE_ERROR".into(),
        action: None,
        rule_code: None,
        ast_node_path: Some("PARSE_ERROR".into()),
        severity: None,
        suggested_fix: None,
    };
    let m = finding_message(&pe);
    assert!(
        !m.contains("VERICTO"),
        "should not show a bogus rule code: {m}"
    );
    assert!(
        !m.contains("— PARSE_ERROR"),
        "should not echo the status as a path: {m}"
    );
    assert!(
        m.to_lowercase().contains("parse"),
        "should say it couldn't parse: {m}"
    );
    assert!(
        m.to_lowercase().contains("not blocked") || m.to_lowercase().contains("skipped"),
        "should reassure it doesn't block: {m}"
    );
}

#[test]
fn render_json_roundtrips() {
    let out = render_json(&resp(vec![q(
        "BLOCKED",
        Some("VERICTO-001"),
        Some("critical"),
    )]));
    let v: serde_json::Value = serde_json::from_str(&out).unwrap();
    assert_eq!(v["summary"]["blocked"], 1);
    assert_eq!(v["queries"][0]["status"], "BLOCKED");
    assert_eq!(v["exit_code"], 1);
}

#[test]
fn render_sarif_has_results_and_rules() {
    let files = vec!["m.sql".to_string()];
    let out = render_sarif(
        &resp(vec![q("BLOCKED", Some("VERICTO-001"), Some("critical"))]),
        &files,
    );
    let v: serde_json::Value = serde_json::from_str(&out).unwrap();
    assert_eq!(v["version"], "2.1.0");
    assert_eq!(v["runs"][0]["results"][0]["ruleId"], "VERICTO-001");
    assert_eq!(v["runs"][0]["results"][0]["level"], "error");
    assert_eq!(
        v["runs"][0]["results"][0]["locations"][0]["physicalLocation"]["artifactLocation"]["uri"],
        "m.sql"
    );
    assert_eq!(
        v["runs"][0]["tool"]["driver"]["rules"][0]["id"],
        "VERICTO-001"
    );
}

#[test]
fn render_gitlab_codequality_shape() {
    let files = vec!["m.sql".to_string()];
    let out = render_gitlab_codequality(&resp(vec![q("BLOCKED", Some("VERICTO-001"), None)]), &files);
    let v: serde_json::Value = serde_json::from_str(&out).unwrap();
    assert_eq!(v[0]["check_name"], "VERICTO-001");
    assert_eq!(v[0]["severity"], "blocker");
    assert_eq!(v[0]["location"]["path"], "m.sql");
    assert!(v[0]["fingerprint"].as_str().unwrap().len() == 16);
}

#[test]
fn render_gitlab_sast_shape() {
    let files = vec!["m.sql".to_string()];
    let out = render_gitlab_sast(&resp(vec![q("BLOCKED", Some("VERICTO-001"), None)]), &files);
    let v: serde_json::Value = serde_json::from_str(&out).unwrap();
    assert_eq!(v["scan"]["scanner"]["id"], "vericto");
    assert_eq!(v["vulnerabilities"][0]["severity"], "Critical");
    assert_eq!(v["vulnerabilities"][0]["location"]["file"], "m.sql");
}

#[test]
fn render_text_plain_lists_findings_and_summary() {
    let files = vec!["m.sql".to_string()];
    let out = render_text_plain(
        &resp(vec![q("BLOCKED", Some("VERICTO-001"), Some("critical"))]),
        &files,
        false,
    );
    assert!(out.contains("m.sql"));
    assert!(out.contains("VERICTO-001"));
    assert!(out.contains("blocked"));
    // quiet mode: only the summary line, no per-finding lines.
    let quiet = render_text_plain(
        &resp(vec![q("BLOCKED", Some("VERICTO-001"), None)]),
        &files,
        true,
    );
    assert!(!quiet.contains("VERICTO-001"));
    assert!(quiet.contains("blocked"));
}

#[test]
fn gha_encode_escapes_command_breakers() {
    assert_eq!(gha_encode("a\nb"), "a%0Ab");
    assert_eq!(gha_encode("100%"), "100%25");
    assert_eq!(gha_encode("x\r\ny"), "x%0D%0Ay");
    assert_eq!(gha_encode("plain text"), "plain text");
}

#[test]
fn ci_failure_summary_is_noop_when_nothing_fails() {
    // Empty failing set must not write annotations or panic (both branches).
    let files = vec!["m.sql".to_string()];
    let r = resp(vec![q("ALLOWED", None, None)]);
    let s = render_ci_failure_summary(&r, &[], &files, true);
    assert!(s.annotations.is_empty() && s.explanation.is_empty());
    let s = render_ci_failure_summary(&r, &[], &files, false);
    assert!(s.annotations.is_empty() && s.explanation.is_empty());
}

#[test]
fn ci_failure_summary_renders_findings_without_panicking() {
    // Exercise the full render path for both GitHub and non-GitHub.
    let files = vec!["m.sql".to_string()];
    let r = resp(vec![q("BLOCKED", Some("VERICTO-001"), Some("critical"))]);
    let failing: Vec<&QueryResult> = r.queries.iter().collect();
    let s = render_ci_failure_summary(&r, &failing, &files, true);
    assert!(s.annotations.starts_with("::error "), "{}", s.annotations);
    assert!(s.explanation.contains("vericto:ignore[VERICTO-001]"));
    let s = render_ci_failure_summary(&r, &failing, &files, false);
    assert!(s.annotations.is_empty());
    assert!(s.explanation.contains("m.sql"));
}

#[test]
fn render_to_file_writes_json() {
    let files = vec!["m.sql".to_string()];
    let written = render(
        &resp(vec![q("BLOCKED", Some("VERICTO-001"), None)]),
        Format::Json,
        &files,
        false,
        Target::File,
        true,
    );
    assert!(written.contains("\"blocked\": 1"));
}

#[test]
fn status_style_marks() {
    assert_eq!(status_style("BLOCKED").0, "✖");
    assert_eq!(status_style("FLAGGED").0, "!");
    assert_eq!(status_style("MONITORED").0, "•");
    assert_eq!(status_style("PARSE_ERROR").0, "?");
    assert_eq!(status_style("ALLOWED").0, "✓");
}

fn rule(code: &str, severity: &str, active: bool) -> RuleSummary {
    RuleSummary {
        code: code.to_string(),
        name: format!("{code} name"),
        description: Some("desc".into()),
        severity: severity.to_string(),
        dialect: "all".into(),
        rule_type: "standard".into(),
        is_active: active,
        resolved_action: "block".into(),
    }
}

#[test]
fn render_rules_list_handles_empty() {
    assert_eq!(render_rules_list(&[], "v1.0.0"), "No rules found.\n");
}

#[test]
fn render_rules_list_handles_rules() {
    let r1 = rule("VERICTO-001", "critical", true);
    let r2 = rule("VERICTO-002", "medium", false);
    let out = render_rules_list(&[&r1, &r2], "v1.0.0-20260711");
    assert!(out.contains("VERICTO-001"));
    assert!(out.contains("VERICTO-002"));
    assert!(out.contains("2 rules"), "{out}");
    assert!(out.contains("v1.0.0-20260711"));
}

#[test]
fn render_rule_detail_handles_full_and_minimal() {
    let full = RuleDetail {
        code: "VERICTO-001".into(),
        name: "DELETE without WHERE".into(),
        description: Some("Blocks DELETE with no WHERE clause".into()),
        severity: "critical".into(),
        dialect: "all".into(),
        rule_type: "standard".into(),
        is_active: true,
        resolved_action: "block".into(),
        ast_condition_yaml: Some("node_type: DeleteStmt\nwhere_null: true".into()),
        example_bad: Some("DELETE FROM orders;".into()),
        example_good: Some("DELETE FROM orders WHERE id = $1;".into()),
        ruleset_version: "v1.0.0".into(),
    };
    let out = render_rule_detail(&full);
    assert!(out.contains("DeleteStmt"));
    assert!(out.contains("triggers"));
    assert!(out.contains("DELETE FROM orders WHERE id = $1;"));

    let minimal = RuleDetail {
        code: "CUSTOM-001".into(),
        name: "Custom rule".into(),
        description: None,
        severity: "high".into(),
        dialect: "postgres".into(),
        rule_type: "custom".into(),
        is_active: false,
        resolved_action: "flag".into(),
        ast_condition_yaml: None,
        example_bad: None,
        example_good: None,
        ruleset_version: "v1.0.0".into(),
    };
    let out = render_rule_detail(&minimal);
    assert!(out.starts_with("CUSTOM-001 — Custom rule"));
    assert!(!out.contains("triggers"));
}

#[test]
fn severity_style_covers_all_levels() {
    for sev in [
        "critical",
        "high",
        "medium",
        "low",
        "informational",
        "bogus",
    ] {
        let _ = severity_style(sev);
    }
    assert_eq!(severity_style("high"), colored(Color::Red));
}

#[test]
fn fingerprints_do_not_depend_on_the_line() {
    let mut a = q("BLOCKED", Some("VERICTO-001"), None);
    let fp = fingerprint(&a, "m.sql");
    a.line = 77;
    a.sql_preview = "other".into();
    assert_eq!(fingerprint(&a, "m.sql"), fp);
    assert_eq!(fp.len(), 16);
    assert_ne!(fingerprint(&a, "n.sql"), fp);
    // FNV-1a of the empty fields joined by bars.
    let empty = QueryResult {
        line: 1,
        sql_preview: String::new(),
        status: String::new(),
        action: None,
        rule_code: None,
        ast_node_path: None,
        severity: None,
        suggested_fix: None,
    };
    let mut h: u64 = 0xcbf29ce484222325;
    for b in b"||" {
        h = (h ^ *b as u64).wrapping_mul(0x100000001b3);
    }
    assert_eq!(fingerprint(&empty, ""), format!("{h:016x}"));
}

#[test]
fn colour_is_in_the_text_only_where_it_is_wanted() {
    let files = vec!["m.sql".to_string()];
    let r = resp(vec![q("BLOCKED", Some("VERICTO-001"), Some("critical"))]);
    assert!(render_text_colored(&r, &files, false).contains('\x1b'));
    assert!(!render_text_plain(&r, &files, false).contains('\x1b'));
    let plain = render(&r, Format::Text, &files, false, Target::Stdout, false);
    assert!(!plain.contains('\x1b'));
    let file = render(&r, Format::Text, &files, false, Target::File, true);
    assert!(!file.contains('\x1b'));
    for format in [Format::Sarif, Format::GitlabCodequality, Format::GitlabSast] {
        let out = render(&r, format, &files, false, Target::Stdout, true);
        assert!(serde_json::from_str::<serde_json::Value>(&out).is_ok());
    }
}

#[test]
fn styles_are_escape_sequences() {
    assert_eq!(styled_text(bold(), "x"), "\x1b[1mx\x1b[0m");
    assert_eq!(styled_text(dim(), "x"), "\x1b[2mx\x1b[0m");
    assert_eq!(styled_text(colored(Color::Green), "x"), "\x1b[32mx\x1b[0m");
    assert_eq!(styled_text(bold_red(), "x"), "\x1b[1m\x1b[31mx\x1b[0m");
    let plain = TextStyle {
        color: None,
        bold: false,
        dimmed: false,
    };
    assert_eq!(styled_text(plain, "x"), "x");
}

#[test]
fn findings_are_reported_and_clean_results_are_not() {
    let files = vec!["m.sql".to_string()];
    let r = resp(vec![
        q("ALLOWED", None, None),
        q("FLAGGED", Some("VERICTO-002"), Some("medium")),
    ]);
    let v: serde_json::Value = serde_json::from_str(&render_gitlab_codequality(&r, &files)).unwrap();
    assert_eq!(v.as_array().unwrap().len(), 1);
    let v: serde_json::Value = serde_json::from_str(&render_json(&r)).unwrap();
    assert_eq!(v["queries"].as_array().unwrap().len(), 2);
}

#[test]
fn keys_are_listed_without_secrets() {
    let keys = vec![
        ApiKeyInfo {
            name: "ci-primary".into(),
            scopes: vec!["ci_dryrun:execute".into()],
            is_active: true,
            is_current: true,
            last_used_at: Some("2026-08-01T12:00:00Z".into()),
        },
        ApiKeyInfo {
            name: "old-laptop".into(),
            scopes: vec!["ci_dryrun:execute".into()],
            is_active: false,
            is_current: false,
            last_used_at: None,
        },
    ];
    let out = render_keys(&keys);
    assert!(out.contains("ci-primary"));
    assert!(out.contains("old-laptop"));
    assert!(out.contains('*'));
    assert!(!out.contains("vtro_"));
}

#[test]
fn topics_are_grouped_and_linked() {
    let rows = [
        DocRow {
            slug: "enforcement",
            blurb: "How rules are enforced",
            category: "Getting started",
        },
        DocRow {
            slug: "api-keys",
            blurb: "Keys and scopes",
            category: "Security & privacy",
        },
    ];
    let out = render_docs("https://vericto.com/docs", &rows, false);
    assert!(out.contains("Getting started"));
    assert!(out.contains("Security & privacy"));
    assert!(out.contains("https://vericto.com/docs/api-keys"));
    assert!(!out.contains("\x1b]8;;"));
    let linked = render_docs("https://vericto.com/docs", &rows, true);
    assert!(linked.contains("\x1b]8;;https://vericto.com/docs/enforcement"));
    assert_eq!(osc8_link("u", "t"), "\x1b]8;;u\x1b\\t\x1b]8;;\x1b\\");
}

#[test]
fn positions_count_from_one() {
    let files = vec!["a.sql".to_string(), "b.sql".to_string()];
    assert_eq!(file_for(&files, 0), "<stdin>");
    assert_eq!(file_for(&files, 2), "b.sql");
    assert_eq!(file_for(&[], 1), "<stdin>");
}
