use vericto::api::{
    ApiError, CheckResponse, QueryInput, QueryResult, Receipt, Summary, Transport, WorkspaceConfig,
};
use vericto::baseline::Baseline;
use vericto::check::{FailOn, SourceText};
use vericto::check_run::{
    baseline_loaded, check_done, check_failed, degraded_recorded, diff_done, file_list_read,
    receipts_written, report_written, sources_read, sources_reread, start, workspace_read,
    CheckAction, CheckOptions, CheckRun, Turn,
};
use vericto::ci_env::{CommandOutput, EnvVars};
use vericto::exit::Line;
use vericto::output::Format;

fn options() -> CheckOptions {
    CheckOptions {
        files: vec!["m.sql".to_string()],
        changed: false,
        since: None,
        stdin_file_list: false,
        sql: Vec::new(),
        format: Format::Text,
        monitor: false,
        output: None,
        receipt: None,
        allow_degraded: None,
        quiet: true,
        no_color: true,
    }
}

fn run_with(opts: CheckOptions) -> CheckRun {
    CheckRun {
        opts,
        api_url: "https://api.example".to_string(),
        api_key: "vtro_k".to_string(),
        transport: Transport {
            timeout_secs: 30,
            ca_bundle: None,
        },
        provenance: None,
        dialect: "postgres".to_string(),
        fail_on: FailOn::Block,
        baseline_path: None,
        concurrency: 4,
        on_github: false,
        files: Vec::new(),
    }
}

fn env() -> EnvVars {
    EnvVars { vars: Vec::new() }
}

fn response(statuses: &[&str]) -> CheckResponse {
    let mut queries = Vec::new();
    for (i, s) in statuses.iter().enumerate() {
        queries.push(QueryResult {
            line: i as u32 + 1,
            sql_preview: "x".to_string(),
            status: s.to_string(),
            action: None,
            rule_code: if *s == "BLOCKED" {
                Some("VERICTO-001".to_string())
            } else {
                None
            },
            ast_node_path: Some("DeleteStmt > WhereClause = NULL".to_string()),
            severity: None,
            suggested_fix: None,
        });
    }
    let blocked = statuses.iter().filter(|s| **s == "BLOCKED").count() as u32;
    CheckResponse {
        summary: Summary {
            total: statuses.len() as u32,
            blocked,
            allowed: statuses.len() as u32 - blocked,
            flagged: 0,
            monitored: 0,
            parse_errors: 0,
            ruleset_version: "v1".to_string(),
        },
        queries,
        exit_code: if blocked > 0 { 1 } else { 0 },
        ci_checks_remaining: Some(999),
        telemetry_query_mode: Some("raw".to_string()),
        min_cli_version: None,
        receipt: None,
        merged_receipts: Vec::new(),
        api_version_header: None,
    }
}

fn workspace(mode: &str) -> WorkspaceConfig {
    WorkspaceConfig {
        telemetry_query_mode: Some(mode.to_string()),
        plan: Some("free".to_string()),
        ci_checks_remaining: Some(999),
        ruleset_version: Some("v1".to_string()),
    }
}

/// What a whole run came to.
struct End {
    code: u8,
    said: Vec<String>,
    sent: Vec<QueryInput>,
    report: String,
}

/// Runs the machine with a fake world: every source holds `sql`, and the backend answers
/// with `resp`.
fn drive(run: CheckRun, sql: &str, mode: &str, resp: Result<CheckResponse, ApiError>) -> End {
    drive_with(run, sql, mode, resp, None)
}

fn drive_with(
    run: CheckRun,
    sql: &str,
    mode: &str,
    resp: Result<CheckResponse, ApiError>,
    baseline: Option<Baseline>,
) -> End {
    let mut resp = Some(resp);
    let mut baseline = baseline;
    let mut end = End {
        code: 0,
        said: Vec::new(),
        sent: Vec::new(),
        report: String::new(),
    };
    let Turn {
        mut run,
        mut say,
        mut action,
    } = start(run, &env(), &None);
    loop {
        for line in say {
            match line {
                Line::Stdout(s) => end.said.push(s),
                Line::Stderr(s) => end.said.push(s),
            }
        }
        let next = match action {
            CheckAction::ReadFileList => file_list_read(run, Ok("m.sql\n".to_string())),
            CheckAction::Diff { base } => {
                let out = CommandOutput {
                    success: true,
                    stdout: b"m.sql\n".to_vec(),
                    stderr: Vec::new(),
                };
                diff_done(run, &base, &Ok(out))
            }
            CheckAction::ReadSources => {
                let mut sources = Vec::new();
                for _ in &run.files {
                    sources.push(Ok(sql.to_string()));
                }
                sources_read(run, sources)
            }
            CheckAction::FetchWorkspace { queries } => {
                workspace_read(run, queries, Ok(workspace(mode)))
            }
            CheckAction::Send { params, queries } => {
                assert_eq!(params.api_key, "vtro_k");
                end.sent = queries;
                match resp.take().unwrap() {
                    Ok(r) => check_done(run, r),
                    Err(e) => check_failed(run, e, 1_700_000_000),
                }
            }
            CheckAction::Record { reason, record } => {
                end.report = record;
                degraded_recorded(run, &reason, Some(".vericto/degraded-runs.jsonl"))
            }
            CheckAction::WriteReport { resp, text } => {
                end.report = text;
                report_written(run, resp, Ok(()))
            }
            CheckAction::WriteReceipts {
                resp,
                receipts,
                path,
            } => {
                assert!(!receipts.is_empty());
                receipts_written(run, resp, &path, Ok(()))
            }
            CheckAction::LoadBaseline { resp, .. } => {
                let read = match baseline.take() {
                    Some(b) => Ok(b),
                    None => Err("no baseline".to_string()),
                };
                baseline_loaded(run, resp, read)
            }
            CheckAction::Reread {
                resp,
                baseline,
                paths,
            } => {
                let mut sources = Vec::new();
                for path in paths {
                    sources.push(SourceText {
                        path,
                        text: Some(sql.to_string()),
                    });
                }
                sources_reread(run, resp, baseline, &sources)
            }
            CheckAction::Finish { code, summary } => {
                end.code = code;
                end.said.push(summary.annotations);
                end.said.push(summary.explanation);
                return end;
            }
            CheckAction::Exit(code) => {
                end.code = code;
                return end;
            }
        };
        run = next.run;
        say = next.say;
        action = next.action;
    }
}

#[test]
fn check_blocked_exits_1() {
    let end = drive(
        run_with(options()),
        "DELETE FROM users;",
        "raw",
        Ok(response(&["BLOCKED"])),
    );
    assert_eq!(end.code, 1);
    assert_eq!(end.sent.len(), 1);
    assert_eq!(end.sent[0].sql, "DELETE FROM users;");
}

#[test]
fn check_allowed_exits_0() {
    let end = drive(
        run_with(options()),
        "SELECT 1 LIMIT 1;",
        "raw",
        Ok(response(&["ALLOWED"])),
    );
    assert_eq!(end.code, 0);
}

fn inline(sql: &str) -> CheckOptions {
    let mut opts = options();
    opts.files = Vec::new();
    opts.sql = vec![sql.to_string()];
    opts
}

#[test]
fn check_inline_sql_blocked_exits_1() {
    let mut opts = inline("DELETE FROM payments");
    opts.quiet = false;
    let end = drive(run_with(opts), "", "raw", Ok(response(&["BLOCKED"])));
    assert_eq!(end.code, 1);
    assert_eq!(end.sent[0].sql, "DELETE FROM payments");
    assert!(end.report.contains("<inline>"), "{}", end.report);
}

#[test]
fn check_inline_sql_short_flag_allowed_exits_0() {
    let end = drive(
        run_with(inline("SELECT 1 LIMIT 1")),
        "",
        "raw",
        Ok(response(&["ALLOWED"])),
    );
    assert_eq!(end.code, 0);
}

#[test]
fn check_inline_sql_rejects_file_combo() {
    let mut opts = inline("SELECT 1");
    opts.files = vec!["some-file.sql".to_string()];
    let end = drive(run_with(opts), "", "raw", Ok(response(&[])));
    assert_eq!(end.code, 2);
    assert!(end.sent.is_empty());
}

#[test]
fn check_monitor_forces_exit_0_on_blocked() {
    let mut opts = options();
    opts.monitor = true;
    let end = drive(
        run_with(opts),
        "DELETE FROM users;",
        "raw",
        Ok(response(&["BLOCKED"])),
    );
    assert_eq!(end.code, 0);
}

#[test]
fn check_json_output_to_stdout() {
    let mut opts = options();
    opts.format = Format::Json;
    let end = drive(
        run_with(opts),
        "DELETE FROM users;",
        "raw",
        Ok(response(&["BLOCKED"])),
    );
    assert_eq!(end.code, 1);
    let v: serde_json::Value = serde_json::from_str(&end.report).unwrap();
    assert_eq!(v["summary"]["blocked"], 1);
}

#[test]
fn check_from_stdin() {
    let mut opts = options();
    opts.files = vec!["-".to_string()];
    let end = drive(
        run_with(opts),
        "DELETE FROM users;",
        "raw",
        Ok(response(&["BLOCKED"])),
    );
    assert_eq!(end.code, 1);
}

#[test]
fn baseline_then_check_suppresses() {
    let files = vec!["m.sql".to_string()];
    let baseline = Baseline::from_response(&response(&["BLOCKED"]), &files);
    let mut run = run_with(options());
    run.baseline_path = Some("baseline.json".to_string());
    let end = drive_with(
        run,
        "DELETE FROM users;",
        "raw",
        Ok(response(&["BLOCKED"])),
        Some(baseline),
    );
    assert_eq!(end.code, 0);
    assert!(end
        .said
        .contains(&"note: 1 finding(s) suppressed by baseline baseline.json.".to_string()));
}

#[test]
fn a_finding_that_is_not_in_the_baseline_fails() {
    let files = vec!["m.sql".to_string()];
    let baseline = Baseline::from_response(&response(&["ALLOWED"]), &files);
    let mut run = run_with(options());
    run.baseline_path = Some("baseline.json".to_string());
    let end = drive_with(
        run,
        "DELETE FROM users;",
        "raw",
        Ok(response(&["BLOCKED"])),
        Some(baseline),
    );
    assert_eq!(end.code, 1);
}

#[test]
fn an_unreadable_baseline_is_a_usage_error() {
    let mut run = run_with(options());
    run.baseline_path = Some("baseline.json".to_string());
    let end = drive(run, "DELETE FROM users;", "raw", Ok(response(&["BLOCKED"])));
    assert_eq!(end.code, 2);
}

#[test]
fn inline_comments_suppress_with_a_reason() {
    let end = drive(
        run_with(options()),
        "DELETE FROM users; -- vericto:ignore[VERICTO-001] backfill",
        "raw",
        Ok(response(&["BLOCKED"])),
    );
    assert_eq!(end.code, 0);
    assert!(end
        .said
        .contains(&"note: m.sql: VERICTO-001 suppressed inline — backfill".to_string()));
}

#[test]
fn sanitized_workspaces_never_see_literals() {
    let end = drive(
        run_with(options()),
        "SELECT * FROM t WHERE email = 'secret@x.com' LIMIT 1;",
        "sanitized",
        Ok(response(&["ALLOWED"])),
    );
    assert_eq!(end.code, 0);
    assert_eq!(
        end.sent[0].sql,
        "SELECT * FROM t WHERE email = $1 LIMIT $2;"
    );
}

#[test]
fn allow_degraded_exits_0_when_unreachable() {
    let mut opts = options();
    opts.allow_degraded = Some("vericto outage incident-1".to_string());
    let end = drive(
        run_with(opts),
        "DELETE FROM users;",
        "raw",
        Err(ApiError::Transport("refused".to_string())),
    );
    assert_eq!(end.code, 0);
}

#[test]
fn allow_degraded_writes_local_record() {
    let mut opts = options();
    opts.allow_degraded = Some("vericto outage ticket-42".to_string());
    let end = drive(
        run_with(opts),
        "DELETE FROM users;",
        "raw",
        Err(ApiError::Transport("refused".to_string())),
    );
    assert!(end.report.contains("vericto-degraded-run"));
    assert!(end.report.contains("vericto outage ticket-42"));
}

#[test]
fn failed_checks_fail_closed() {
    let mut opts = options();
    opts.allow_degraded = Some("outage".to_string());
    let end = drive(
        run_with(opts),
        "DELETE FROM users;",
        "raw",
        Err(ApiError::PartialFailure("chunk 1/2 failed".to_string())),
    );
    assert_eq!(end.code, 4);
    let end = drive(
        run_with(options()),
        "DELETE FROM users;",
        "raw",
        Err(ApiError::Auth("bad key".to_string())),
    );
    assert_eq!(end.code, 3);
}

#[test]
fn no_color_produces_no_ansi() {
    let mut opts = options();
    opts.quiet = false;
    let end = drive(
        run_with(opts),
        "DELETE FROM users;",
        "raw",
        Ok(response(&["BLOCKED"])),
    );
    assert_eq!(end.code, 1);
    assert!(!end.report.contains('\x1b'));
}

#[test]
fn stdin_file_list_checks_listed_files() {
    let mut opts = options();
    opts.files = Vec::new();
    opts.stdin_file_list = true;
    let end = drive(
        run_with(opts),
        "DELETE FROM users;",
        "raw",
        Ok(response(&["BLOCKED"])),
    );
    assert_eq!(end.code, 1);
}

#[test]
fn changed_files_are_checked() {
    let mut opts = options();
    opts.files = Vec::new();
    opts.since = Some("origin/main".to_string());
    let end = drive(
        run_with(opts),
        "DELETE FROM users;",
        "raw",
        Ok(response(&["BLOCKED"])),
    );
    assert_eq!(end.code, 1);
}

#[test]
fn empty_inputs_are_a_usage_error() {
    let end = drive(run_with(options()), "  \n", "raw", Ok(response(&[])));
    assert_eq!(end.code, 2);
    assert_eq!(
        end.said,
        vec!["error: no SQL to check (all inputs were empty).".to_string()]
    );
}

#[test]
fn another_major_of_the_backend_ends_the_run() {
    let mut resp = response(&["ALLOWED"]);
    resp.api_version_header = Some("2.0.0".to_string());
    let end = drive(run_with(options()), "SELECT 1;", "raw", Ok(resp));
    assert_eq!(end.code, 4);
}

#[test]
fn receipts_are_written_where_there_are_any() {
    let mut opts = options();
    opts.receipt = Some("r.json".to_string());
    let mut resp = response(&["ALLOWED"]);
    resp.ci_checks_remaining = Some(10);
    let end = drive(run_with(opts), "SELECT 1;", "raw", Ok(resp));
    assert_eq!(end.code, 0);
    assert!(end.said[0].starts_with("warning: --receipt requested"));
    assert!(end.said[1].starts_with("note: 10 CLI checks left"));

    let mut opts = options();
    opts.receipt = Some("r.json".to_string());
    let mut resp = response(&["ALLOWED"]);
    resp.receipt = Some(Receipt {
        payload: serde_json::Value::Null,
        scheme: String::new(),
        signature: String::new(),
        public_key_id: String::new(),
        sha256: String::new(),
    });
    let end = drive(run_with(opts), "SELECT 1;", "raw", Ok(resp));
    assert_eq!(end.code, 0);
    assert!(end.said[0].starts_with("note: wrote 1 signed receipt to r.json."));
}

#[test]
fn failures_are_explained_unless_quiet() {
    let mut opts = options();
    opts.quiet = false;
    let mut run = run_with(opts);
    run.on_github = true;
    let end = drive(run, "DELETE FROM users;", "raw", Ok(response(&["BLOCKED"])));
    assert!(end.said.iter().any(|s| s.starts_with("::error ")));
    assert!(end.said.iter().any(|s| s.contains("vericto:ignore[VERICTO-001]")));
    let mut run = run_with(options());
    run.on_github = true;
    let end = drive(run, "DELETE FROM users;", "raw", Ok(response(&["BLOCKED"])));
    assert!(end.said.iter().all(|s| s.is_empty()));
}

#[test]
fn a_blank_reason_is_refused_before_anything_else() {
    let mut opts = options();
    opts.allow_degraded = Some("  ".to_string());
    let turn = start(run_with(opts), &env(), &None);
    assert!(matches!(turn.action, CheckAction::Exit(2)));
    assert_eq!(turn.say.len(), 1);
    assert!(
        matches!(&turn.say[0], Line::Stderr(m) if m == "error: --allow-degraded requires a reason.")
    );
    let mut opts = options();
    opts.files = Vec::new();
    opts.sql = vec!["SELECT 1".to_string()];
    opts.allow_degraded = Some(String::new());
    let turn = start(run_with(opts), &env(), &None);
    assert!(matches!(turn.action, CheckAction::Exit(2)));
}
