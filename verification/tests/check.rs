use vericto::api::{ApiError, CheckResponse, QueryInput, QueryResult, Summary, WorkspaceConfig};
use vericto::baseline::{Baseline, FingerprintSet};
use vericto::check::{
    collect_queries, degraded_notice, degraded_record, failing, files_of, finding_fails,
    has_failure, inline_conflict, on_baseline, on_diff, on_failure, on_file_list, on_receipts,
    on_report, on_workspace, paths_to_reread, quota_note, resolve_baseline, resolve_concurrency,
    resolve_dialect, resolve_fail_on, resolve_files, resolve_transport, single_file_name,
    suppressed_fingerprints, verdict, FailOn, FailureStep, FilePlan, FileResolution, SourceText,
};
use vericto::ci_env::CommandOutput;
use vericto::config::{Config, ProjectConfig};
use vericto::exit::Line;
use vericto::output::fingerprint;

fn resp_with(statuses: &[&str]) -> CheckResponse {
    CheckResponse {
        summary: Summary {
            total: statuses.len() as u32,
            blocked: statuses.iter().filter(|s| **s == "BLOCKED").count() as u32,
            allowed: 0,
            flagged: statuses.iter().filter(|s| **s == "FLAGGED").count() as u32,
            monitored: statuses.iter().filter(|s| **s == "MONITORED").count() as u32,
            parse_errors: 0,
            ruleset_version: "test".into(),
        },
        queries: statuses
            .iter()
            .enumerate()
            .map(|(i, s)| QueryResult {
                line: i as u32,
                sql_preview: String::new(),
                status: (*s).into(),
                action: None,
                rule_code: None,
                ast_node_path: None,
                severity: None,
                suggested_fix: None,
            })
            .collect(),
        exit_code: 0,
        ci_checks_remaining: None,
        telemetry_query_mode: None,
        min_cli_version: None,
        receipt: None,
        merged_receipts: Vec::new(),
        api_version_header: None,
    }
}

#[test]
fn fail_on_block_only_trips_on_blocked() {
    assert!(has_failure(&resp_with(&["BLOCKED"]), FailOn::Block));
    assert!(!has_failure(&resp_with(&["FLAGGED"]), FailOn::Block));
    assert!(!has_failure(
        &resp_with(&["ALLOWED", "MONITORED"]),
        FailOn::Block
    ));
}

#[test]
fn fail_on_flag_trips_on_blocked_or_flagged() {
    assert!(has_failure(&resp_with(&["FLAGGED"]), FailOn::Flag));
    assert!(has_failure(&resp_with(&["BLOCKED"]), FailOn::Flag));
    assert!(!has_failure(&resp_with(&["MONITORED"]), FailOn::Flag));
}

#[test]
fn fail_on_any_trips_on_monitored_too() {
    assert!(has_failure(&resp_with(&["MONITORED"]), FailOn::Any));
    assert!(!has_failure(&resp_with(&["ALLOWED"]), FailOn::Any));
}

fn text(line: &Line) -> &str {
    match line {
        Line::Stdout(s) => s,
        Line::Stderr(s) => s,
    }
}

fn strings(items: &[&str]) -> Vec<String> {
    items.iter().map(|s| s.to_string()).collect()
}

#[test]
fn parse_errors_fail_no_threshold() {
    let r = resp_with(&["PARSE_ERROR"]);
    for fail_on in [FailOn::Block, FailOn::Flag, FailOn::Any] {
        assert!(!finding_fails(&r.queries[0], fail_on));
    }
}

#[test]
fn thresholds_come_from_the_flag_and_then_the_project() {
    assert_eq!(resolve_fail_on(Some(FailOn::Any), Some("flag")), FailOn::Any);
    assert_eq!(resolve_fail_on(None, Some("  FLAG ")), FailOn::Flag);
    assert_eq!(resolve_fail_on(None, Some("any")), FailOn::Any);
    assert_eq!(resolve_fail_on(None, Some("typo")), FailOn::Block);
    assert_eq!(resolve_fail_on(None, None), FailOn::Block);
}

#[test]
fn settings_fall_back_in_order() {
    let project = ProjectConfig {
        default_dialect: Some("mysql".into()),
        baseline: Some(".b.json".into()),
        ..Default::default()
    };
    let file = Config {
        default_dialect: Some("oracle".into()),
        ..Default::default()
    };
    assert_eq!(
        resolve_dialect(&Some("mssql".to_string()), &project, &file),
        "mssql"
    );
    assert_eq!(resolve_dialect(&None, &project, &file), "mysql");
    assert_eq!(
        resolve_dialect(&None, &ProjectConfig::default(), &file),
        "oracle"
    );
    assert_eq!(
        resolve_dialect(&None, &ProjectConfig::default(), &Config::default()),
        "postgres"
    );
    assert_eq!(resolve_baseline(&None, &project).as_deref(), Some(".b.json"));
    assert_eq!(
        resolve_baseline(&Some("x.json".to_string()), &project).as_deref(),
        Some("x.json")
    );
    assert_eq!(resolve_concurrency(None), 4);
    assert_eq!(resolve_concurrency(Some(0)), 1);
    assert_eq!(resolve_concurrency(Some(99)), 8);
    let t = resolve_transport(None, None, Some("/etc/ca.pem".to_string()));
    assert_eq!(t.timeout_secs, 30);
    assert_eq!(t.ca_bundle.as_deref(), Some("/etc/ca.pem"));
    let t = resolve_transport(Some(5), Some("/a.pem".to_string()), Some("/b.pem".to_string()));
    assert_eq!(t.timeout_secs, 5);
    assert_eq!(t.ca_bundle.as_deref(), Some("/a.pem"));
}

#[test]
fn ways_to_name_files_exclude_each_other() {
    let none: Vec<String> = Vec::new();
    let one = strings(&["a.sql"]);
    let base = || Some("origin/main".to_string());
    assert!(matches!(
        resolve_files(&one, false, &None, false, None),
        FilePlan::Given
    ));
    assert!(matches!(
        resolve_files(&none, false, &None, true, None),
        FilePlan::ReadList
    ));
    assert!(
        matches!(resolve_files(&none, true, &None, false, base()), FilePlan::Diff(b) if b == "origin/main")
    );
    assert!(
        matches!(resolve_files(&none, false, &Some("v1".to_string()), false, base()), FilePlan::Diff(b) if b == "v1")
    );
    for plan in [
        resolve_files(&none, false, &None, false, None),
        resolve_files(&one, true, &None, false, base()),
        resolve_files(&one, false, &None, true, None),
        resolve_files(&none, true, &None, true, base()),
        resolve_files(&none, true, &None, false, None),
    ] {
        assert!(matches!(plan, FilePlan::Usage(_)), "{plan:?}");
    }
    assert!(inline_conflict(&one, &none, false, &None, false).is_none());
    assert_eq!(
        inline_conflict(&one, &one, false, &None, false).unwrap().code,
        2
    );
}

#[test]
fn stdin_lists_are_trimmed() {
    match on_file_list(Ok(" a.sql \n\nb.sql\n".to_string())) {
        FileResolution::Files(f) => assert_eq!(f, strings(&["a.sql", "b.sql"])),
        other => panic!("expected files, got {other:?}"),
    }
    let stop = files_of(on_file_list(Err("closed".to_string()))).unwrap_err();
    assert_eq!(stop.code, 2);
}

#[test]
fn stdin_file_list_empty_is_a_pass() {
    let stop = files_of(on_file_list(Ok("\n  \n".to_string()))).unwrap_err();
    assert_eq!(stop.code, 0);
    assert_eq!(text(&stop.line), "No files on stdin — nothing to check.");
}

#[test]
fn an_empty_diff_is_a_pass() {
    let out = CommandOutput {
        success: true,
        stdout: Vec::new(),
        stderr: Vec::new(),
    };
    let stop = files_of(on_diff("origin/main", &Ok(out))).unwrap_err();
    assert_eq!(stop.code, 0);
    assert_eq!(
        text(&stop.line),
        "No changed .sql files vs origin/main — nothing to check."
    );
}

#[test]
fn blank_sources_are_skipped_and_keep_their_place() {
    let files = strings(&["a.sql", "b.sql", "c.sql"]);
    let queries = collect_queries(
        &files,
        vec![
            Ok("SELECT 1".to_string()),
            Ok("  \n".to_string()),
            Ok("SELECT 2".to_string()),
        ],
    )
    .unwrap();
    assert_eq!(queries.len(), 2);
    assert_eq!(queries[1].line, 3);
    let stop = collect_queries(
        &files,
        vec![Ok("SELECT 1".to_string()), Err("denied".to_string())],
    )
    .unwrap_err();
    assert_eq!(stop.code, 2);
    assert_eq!(text(&stop.line), "error: cannot read 'b.sql': denied");
    assert_eq!(single_file_name(&files), None);
    assert_eq!(single_file_name(&files[..1]).as_deref(), Some("a.sql"));
    assert_eq!(single_file_name(&strings(&["-"])), None);
}

fn workspace(mode: &str) -> WorkspaceConfig {
    WorkspaceConfig {
        telemetry_query_mode: Some(mode.to_string()),
        plan: None,
        ci_checks_remaining: None,
        ruleset_version: None,
    }
}

fn one_query() -> Vec<QueryInput> {
    vec![QueryInput {
        line: 1,
        sql: "SELECT * FROM t WHERE email = 'secret@x.com' LIMIT 1;".to_string(),
    }]
}

#[test]
fn sanitized_mode_normalizes_before_send() {
    let (sent, note) = on_workspace(one_query(), "postgres", Ok(workspace("sanitized"))).unwrap();
    assert_eq!(sent[0].sql, "SELECT * FROM t WHERE email = $1 LIMIT $2;");
    assert!(note.unwrap().contains("sanitized mode"));
    let (sent, note) = on_workspace(one_query(), "postgres", Ok(workspace("raw"))).unwrap();
    assert!(sent[0].sql.contains("secret@x.com"));
    assert!(note.is_none());
}

#[test]
fn a_refused_key_ends_the_run_before_anything_is_sent() {
    let stop = on_workspace(
        one_query(),
        "postgres",
        Err(ApiError::Auth("bad key".to_string())),
    )
    .unwrap_err();
    assert_eq!(stop.code, 3);
    let (_, note) = on_workspace(
        one_query(),
        "postgres",
        Err(ApiError::Transport("down".to_string())),
    )
    .unwrap();
    assert!(note.unwrap().starts_with("note: could not read workspace config"));
}

#[test]
fn only_an_unreachable_backend_may_be_waved_through() {
    let why = Some("  outage  ".to_string());
    match on_failure(&ApiError::Transport("down".to_string()), &why) {
        FailureStep::Degrade { reason, .. } => assert_eq!(reason, "outage"),
        other => panic!("expected a degraded run, got {other:?}"),
    }
    let blank = Some("   ".to_string());
    match on_failure(&ApiError::Transport("down".to_string()), &blank) {
        FailureStep::Stop(s) => assert_eq!(s.code, 2),
        other => panic!("expected an end, got {other:?}"),
    }
    let errors = [
        (ApiError::Auth("no".to_string()), 3),
        (ApiError::PartialFailure("half".to_string()), 4),
        (
            ApiError::Backend {
                status: 500,
                message: "boom".to_string(),
            },
            4,
        ),
    ];
    for (e, code) in errors {
        match on_failure(&e, &why) {
            FailureStep::Stop(s) => assert_eq!(s.code, code),
            other => panic!("expected an end, got {other:?}"),
        }
    }
    match on_failure(&ApiError::Transport("down".to_string()), &None) {
        FailureStep::Stop(s) => assert_eq!(s.code, 4),
        other => panic!("expected an end, got {other:?}"),
    }
}

#[test]
fn degraded_runs_leave_a_record() {
    let line = degraded_record(
        1_700_000_000,
        "vericto outage ticket-42",
        &strings(&["m.sql"]),
        &None,
    );
    assert!(line.ends_with('\n'));
    let v: serde_json::Value = serde_json::from_str(&line).unwrap();
    assert_eq!(v["kind"], "vericto-degraded-run");
    assert_eq!(v["version"], 1);
    assert_eq!(v["unix_time"], 1_700_000_000i64);
    assert_eq!(v["reason"], "vericto outage ticket-42");
    assert_eq!(v["files"][0], "m.sql");
    assert!(v["provenance"].is_null());
    let notice = degraded_notice("outage", Some(".vericto/degraded-runs.jsonl"));
    assert!(notice.contains("(reason: outage). The SQL was NOT checked. Recorded locally at .vericto/degraded-runs.jsonl."));
    assert!(notice.ends_with("server-side reconciliation is not yet available (see DESIGN §6.5)."));
    assert!(!degraded_notice("outage", None).contains("Recorded"));
}

#[test]
fn reports_and_receipts_that_cannot_be_written_end_the_run() {
    assert!(on_report(Ok(())).is_ok());
    assert_eq!(on_report(Err("full".to_string())).unwrap_err().code, 2);
    assert!(on_receipts(0, "r.json", Ok(())).unwrap().starts_with("warning: --receipt"));
    assert_eq!(
        on_receipts(1, "r.json", Ok(())).unwrap(),
        "note: wrote 1 signed receipt to r.json. Verify with `vericto verify-receipt r.json`."
    );
    assert!(on_receipts(2, "r.json", Ok(())).unwrap().contains("2 signed receipts"));
    assert_eq!(
        on_receipts(2, "r.json", Err("full".to_string()))
            .unwrap_err()
            .code,
        2
    );
    assert_eq!(on_baseline(Err("gone".to_string())).unwrap_err().code, 2);
}

#[test]
fn a_low_allowance_is_noted() {
    assert!(quota_note(None).is_none());
    assert!(quota_note(Some(51)).is_none());
    assert_eq!(
        quota_note(Some(50)).unwrap(),
        "note: 50 CLI checks left this month on your plan. Upgrade at https://vericto.com/pricing for more."
    );
    assert!(quota_note(Some(-1)).unwrap().starts_with("note: -1 "));
}

fn finding(line: u32, status: &str, rule: &str) -> QueryResult {
    QueryResult {
        line,
        sql_preview: String::new(),
        status: status.to_string(),
        action: None,
        rule_code: Some(rule.to_string()),
        ast_node_path: None,
        severity: None,
        suggested_fix: None,
    }
}

#[test]
fn suppression_covers_baseline_and_inline_comments() {
    let files = strings(&["a.sql", "-"]);
    let mut r = resp_with(&[]);
    r.queries = vec![
        finding(1, "BLOCKED", "VERICTO-001"),
        finding(1, "BLOCKED", "VERICTO-002"),
        finding(2, "BLOCKED", "VERICTO-003"),
    ];
    assert_eq!(
        paths_to_reread(&r, &files),
        strings(&["a.sql", "a.sql"])
    );
    let mut old = resp_with(&[]);
    old.queries = vec![finding(1, "BLOCKED", "VERICTO-001"), finding(1, "BLOCKED", "GONE")];
    let baseline = Baseline::from_response(&old, &files);
    let sources = [SourceText {
        path: "a.sql".to_string(),
        text: Some("DELETE FROM t; -- vericto:ignore[VERICTO-002] migration".to_string()),
    }];
    let found = suppressed_fingerprints(&r, &files, &Some(baseline), "b.json", &sources);
    let notes: Vec<&str> = found.notes.iter().map(text).collect();
    assert_eq!(
        notes,
        vec![
            "note: 1 finding(s) suppressed by baseline b.json.",
            "note: 1 baseline entr(y/ies) no longer match — consider re-running `vericto baseline`.",
            "note: a.sql: VERICTO-002 suppressed inline — migration",
        ]
    );
    let bad = failing(&r, &files, &found.fingerprints, FailOn::Block);
    assert_eq!(bad.len(), 1);
    assert_eq!(bad[0].rule_code.as_deref(), Some("VERICTO-003"));
    assert_eq!(verdict(false, bad.len()), 1);
    assert_eq!(verdict(true, bad.len()), 0);
    assert_eq!(verdict(false, 0), 0);
}

#[test]
fn suppressed_fingerprints_never_fail() {
    let files = strings(&["a.sql"]);
    let mut r = resp_with(&[]);
    r.queries = vec![finding(1, "BLOCKED", "VERICTO-001")];
    let mut set = FingerprintSet::new();
    assert_eq!(failing(&r, &files, &set, FailOn::Block).len(), 1);
    set.insert(fingerprint(&r.queries[0], "a.sql"));
    assert_eq!(failing(&r, &files, &set, FailOn::Any).len(), 0);
}
