use vericto::api::{CheckResponse, QueryResult, Summary};
use vericto::baseline::{
    current_fingerprints, drifted, inline_suppression, is_baselined, pruned, Baseline,
    FingerprintSet,
};
use vericto::output::{render_gitlab_codequality, render_gitlab_sast};

#[test]
fn inline_ignore_requires_matching_rule_and_reason() {
    let sql = "DELETE FROM t; -- vetro:ignore[VETRO-001] legacy cleanup job";
    assert_eq!(
        inline_suppression(sql, "VETRO-001"),
        Some("legacy cleanup job")
    );
    // Different rule → not suppressed.
    assert_eq!(inline_suppression(sql, "VETRO-010"), None);
    // No reason → not suppressed (accountability).
    assert_eq!(
        inline_suppression("DELETE FROM t; -- vetro:ignore[VETRO-001]", "VETRO-001"),
        None
    );
}

fn q(status: &str, rule: &str, path: &str) -> QueryResult {
    QueryResult {
        line: 1,
        sql_preview: String::new(),
        status: status.into(),
        action: None,
        rule_code: Some(rule.into()),
        ast_node_path: Some(path.into()),
        severity: None,
        suggested_fix: None,
    }
}

fn resp(queries: Vec<QueryResult>) -> CheckResponse {
    CheckResponse {
        summary: Summary {
            total: queries.len() as u32,
            blocked: 0,
            allowed: 0,
            flagged: 0,
            monitored: 0,
            parse_errors: 0,
            ruleset_version: "t".into(),
        },
        queries,
        exit_code: 0,
        ci_checks_remaining: None,
        telemetry_query_mode: None,
        min_cli_version: None,
        receipt: None,
        merged_receipts: Vec::new(),
        api_version_header: None,
    }
}

#[test]
fn baseline_captures_and_matches_findings() {
    let files = vec!["m.sql".to_string()];
    let r = resp(vec![q("BLOCKED", "VETRO-001", "DeleteStmt")]);
    let bl = Baseline::from_response(&r, &files);
    assert_eq!(bl.entries.len(), 1);
    let set = bl.set();
    // The same finding is baselined; a different rule/path is not.
    assert!(is_baselined(
        &q("BLOCKED", "VETRO-001", "DeleteStmt"),
        &files,
        &set
    ));
    assert!(!is_baselined(
        &q("BLOCKED", "VETRO-010", "DropStmt"),
        &files,
        &set
    ));
}

#[test]
fn allowed_is_never_baselined() {
    let files = vec!["m.sql".to_string()];
    let bl = Baseline::from_response(&resp(vec![q("ALLOWED", "", "")]), &files);
    assert!(bl.entries.is_empty());
}

#[test]
fn drift_reports_missing_entries() {
    let files = vec!["m.sql".to_string()];
    let bl = Baseline::from_response(&resp(vec![q("BLOCKED", "VETRO-001", "DeleteStmt")]), &files);
    // A run where that finding disappeared → the entry drifted.
    let now = resp(vec![q("ALLOWED", "", "")]);
    assert_eq!(drifted(&bl, &now, &files).len(), 1);
}

#[test]
fn entries_are_sorted_and_recorded_once() {
    let files = vec!["m.sql".to_string()];
    let r = resp(vec![
        q("BLOCKED", "B", "x"),
        q("FLAGGED", "A", "x"),
        q("BLOCKED", "B", "x"),
        q("ALLOWED", "C", "x"),
    ]);
    let bl = Baseline::from_response(&r, &files);
    assert_eq!(bl.version, 1);
    assert_eq!(bl.entries.len(), 2);
    assert!(bl.entries[0].fingerprint < bl.entries[1].fingerprint);
    for e in &bl.entries {
        assert_eq!(e.file, "m.sql");
    }
}

#[test]
fn a_baseline_covers_its_own_run_and_does_not_drift() {
    let files = vec!["m.sql".to_string()];
    let r = resp(vec![
        q("BLOCKED", "A", "x"),
        q("FLAGGED", "B", "y"),
        q("PARSE_ERROR", "", ""),
    ]);
    let bl = Baseline::from_response(&r, &files);
    let set = bl.set();
    for found in &r.queries {
        assert!(is_baselined(found, &files, &set));
    }
    assert!(drifted(&bl, &r, &files).is_empty());
    assert_eq!(pruned(bl, &r, &files).entries.len(), 3);
}

#[test]
fn pruning_drops_what_no_longer_matches() {
    let files = vec!["m.sql".to_string()];
    let before = resp(vec![q("BLOCKED", "A", "x"), q("BLOCKED", "B", "y")]);
    let after = resp(vec![q("BLOCKED", "B", "y"), q("BLOCKED", "C", "z")]);
    let bl = pruned(Baseline::from_response(&before, &files), &after, &files);
    assert_eq!(bl.entries.len(), 1);
    assert_eq!(bl.entries[0].rule_code.as_deref(), Some("B"));
    let current = current_fingerprints(&after, &files);
    assert!(current.contains(&bl.entries[0].fingerprint));
    assert_eq!(pruned(bl, &after, &files).entries.len(), 1);
}

#[test]
fn fingerprints_form_a_set() {
    let mut set = FingerprintSet::new();
    assert!(!set.contains("a"));
    set.insert("a".to_string());
    set.insert("a".to_string());
    assert!(set.contains("a"));
    assert!(!set.contains("b"));
}

#[test]
fn directives_are_found_on_any_line_without_regard_to_case() {
    let sql =
        "SELECT 1;\nDELETE FROM users; -- vericto:ignore[VERICTO-001] one-off backfill, tracked in JIRA-42";
    assert_eq!(
        inline_suppression(sql, "VERICTO-001"),
        Some("one-off backfill, tracked in JIRA-42")
    );
    assert_eq!(
        inline_suppression("-- VERICTO:IGNORE[vericto-001]  why  ", "VERICTO-001"),
        Some("why")
    );
    assert_eq!(
        inline_suppression("-- vericto:ignore[VERICTO-001   no bracket", "VERICTO-001"),
        None
    );
    assert_eq!(
        inline_suppression("-- vericto:ignore[VERICTO-001]   \n", "VERICTO-001"),
        None
    );
}

#[test]
fn reports_and_baseline_share_fingerprints() {
    let files = vec!["m.sql".to_string()];
    let r = resp(vec![q("BLOCKED", "VERICTO-001", "DeleteStmt")]);
    let entry = &Baseline::from_response(&r, &files).entries[0];
    let issues: serde_json::Value =
        serde_json::from_str(&render_gitlab_codequality(&r, &files)).unwrap();
    assert_eq!(issues[0]["fingerprint"], entry.fingerprint.as_str());
    let sast: serde_json::Value = serde_json::from_str(&render_gitlab_sast(&r, &files)).unwrap();
    assert_eq!(sast["vulnerabilities"][0]["id"], entry.fingerprint.as_str());
}

#[test]
fn directives_outside_a_comment_do_not_count() {
    assert_eq!(
        inline_suppression("SELECT 'vetro:ignore[VETRO-001] x'", "VETRO-001"),
        None
    );
    assert_eq!(
        inline_suppression("SELECT '-- vetro:ignore[VETRO-001] x'", "VETRO-001"),
        None
    );
    assert_eq!(
        inline_suppression("SELECT 'a\n-- vetro:ignore[VETRO-001] x\n'", "VETRO-001"),
        None
    );
    assert_eq!(inline_suppression("vetro:ignore[VETRO-001] x", "VETRO-001"), None);
    assert_eq!(
        inline_suppression("SELECT 'a' -- vetro:ignore[VETRO-001] x\r\n", "VETRO-001"),
        Some("x")
    );
}

#[test]
fn directives_count_in_every_dialect() {
    let tail = "; -- vetro:ignore[VETRO-001] why\nSELECT 1";
    for head in [
        "SELECT 1",
        "SELECT E'it\\'s'",
        "SELECT 'it\\'s'",
        "SELECT 'C:\\'",
        "SELECT 'it''s'",
        "# it's\nSELECT 1",
        "SELECT [user's col] FROM t",
        "SELECT q'[it's]' FROM dual",
        "SELECT nq'!it's!' FROM dual",
        "SELECT $$it's$$",
        "SELECT $a$it's $$ $a$",
        "/* /* it's */ ' */ SELECT 1",
        "SELECT 'two\nlines'",
        "SELECT \"it's\"",
        "SELECT `it's`",
        "/*! SELECT 'a' */",
        "SELECT date'2020-01-01\\'",
    ] {
        let sql = format!("{head}{tail}");
        assert_eq!(inline_suppression(&sql, "VETRO-001"), Some("why"), "{sql}");
    }
}

#[test]
fn directives_count_in_bodies() {
    for sql in [
        "DO $$\nBEGIN\n  DELETE FROM t; -- vetro:ignore[VETRO-001] why\nEND $$;",
        "SELECT $$it's$$; DO $body$\n-- vetro:ignore[VETRO-001] why\n$body$",
        "DO $a$ EXECUTE $b$\n-- vetro:ignore[VETRO-001] why\n$b$; $a$",
        "DELIMITER $$\nCREATE PROCEDURE p() BEGIN\n-- vetro:ignore[VETRO-001] why\nDELETE FROM t; END$$",
        "/*\n-- vetro:ignore[VETRO-001] why\n*/ DELETE FROM t",
    ] {
        assert_eq!(inline_suppression(sql, "VETRO-001"), Some("why"), "{sql}");
    }
}

#[test]
fn the_first_line_that_counts_gives_the_reason() {
    let sql = "-- vetro:ignore[VETRO-002] other\n-- vetro:ignore[VETRO-001]\nSELECT 1 \
               -- vetro:ignore[ vetro-001 ] first\n-- vetro:ignore[VETRO-001] second";
    assert_eq!(inline_suppression(sql, "VETRO-001"), Some("first"));
    assert_eq!(
        inline_suppression("SELECT 'vetro:ignore[V] x'; -- vetro:ignore[V] why", "V"),
        Some("why")
    );
}
