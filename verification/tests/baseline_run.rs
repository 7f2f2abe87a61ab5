use vericto::api::{
    ApiError, CheckResponse, QueryInput, QueryResult, Summary, Transport, WorkspaceConfig,
};
use vericto::baseline::Baseline;
use vericto::baseline_run::{
    check_done, check_failed, diff_done, prune_loaded, saved, sources_read, start, workspace_read,
    BaselineAction, BaselineGoal, BaselineRun,
};
use vericto::ci_env::{CommandOutput, EnvVars};
use vericto::exit::{Line, Stop};

fn response(status: &str) -> CheckResponse {
    CheckResponse {
        summary: Summary {
            total: 1,
            blocked: 0,
            allowed: 0,
            flagged: 0,
            monitored: 0,
            parse_errors: 0,
            ruleset_version: "v1".to_string(),
        },
        queries: vec![QueryResult {
            line: 1,
            sql_preview: "x".to_string(),
            status: status.to_string(),
            action: None,
            rule_code: Some("VERICTO-001".to_string()),
            ast_node_path: None,
            severity: None,
            suggested_fix: None,
        }],
        exit_code: 0,
        ci_checks_remaining: None,
        telemetry_query_mode: None,
        min_cli_version: None,
        receipt: None,
        merged_receipts: Vec::new(),
        api_version_header: None,
    }
}

fn files() -> Vec<String> {
    vec!["m.sql".to_string()]
}

fn run() -> BaselineRun {
    BaselineRun {
        given: files(),
        changed: false,
        since: None,
        api_url: "https://api.example".to_string(),
        api_key: "vtro_k".to_string(),
        dialect: "postgres".to_string(),
        provenance: None,
        transport: Transport {
            timeout_secs: 30,
            ca_bundle: None,
        },
        files: Vec::new(),
    }
}

fn workspace(mode: &str) -> WorkspaceConfig {
    WorkspaceConfig {
        telemetry_query_mode: Some(mode.to_string()),
        plan: None,
        ci_checks_remaining: None,
        ruleset_version: None,
    }
}

fn queries(sql: &str) -> Vec<QueryInput> {
    vec![QueryInput {
        line: 1,
        sql: sql.to_string(),
    }]
}

fn said(stop: &Stop) -> &str {
    match &stop.line {
        Line::Stdout(s) => s,
        Line::Stderr(s) => s,
    }
}

fn prune(baseline: Baseline, dry_run: bool) -> BaselineGoal {
    BaselineGoal::Prune {
        path: "baseline.json".to_string(),
        baseline,
        dry_run,
    }
}

fn recorded() -> Baseline {
    Baseline::from_response(&response("BLOCKED"), &files())
}

#[test]
fn findings_are_recorded() {
    let env = EnvVars { vars: Vec::new() };
    let (run, action) = start(run(), &env, &None);
    assert!(matches!(action, BaselineAction::ReadSources));
    match sources_read(&run, vec![Ok("DELETE FROM users;".to_string())]) {
        BaselineAction::FetchWorkspace { queries } => assert_eq!(queries.len(), 1),
        other => panic!("expected a look at the workspace, got {other:?}"),
    }
    match workspace_read(&run, queries("DELETE FROM users;"), Ok(workspace("raw"))) {
        BaselineAction::Send {
            say,
            params,
            queries,
        } => {
            assert!(say.is_empty());
            assert_eq!(queries.len(), 1);
            assert_eq!(queries[0].sql, "DELETE FROM users;");
            assert_eq!(params.file_name, None);
            assert_eq!(params.concurrency, 4);
            assert!(!params.receipt);
        }
        other => panic!("expected requests, got {other:?}"),
    }
    let goal = BaselineGoal::Record {
        out: ".vericto-baseline.json".to_string(),
    };
    match check_done(goal, &run.files, &response("BLOCKED")) {
        BaselineAction::Save {
            baseline,
            path,
            done,
        } => {
            assert_eq!(baseline.entries.len(), 1);
            assert_eq!(path, ".vericto-baseline.json");
            let stop = saved(done, Ok(()));
            assert_eq!(stop.code, 0);
            assert_eq!(said(&stop), "Wrote 1 finding(s) to .vericto-baseline.json.");
        }
        other => panic!("expected a file, got {other:?}"),
    }
}

#[test]
fn baseline_prune_removes_fixed_findings() {
    match check_done(prune(recorded(), false), &files(), &response("ALLOWED")) {
        BaselineAction::Save {
            baseline,
            path,
            done,
        } => {
            assert_eq!(baseline.entries.len(), 0);
            assert_eq!(path, "baseline.json");
            assert!(done.contains("Pruned 1 stale entry"), "{done}");
        }
        other => panic!("expected a file, got {other:?}"),
    }
}

#[test]
fn baseline_prune_dry_run_does_not_modify_file() {
    match check_done(prune(recorded(), true), &files(), &response("ALLOWED")) {
        BaselineAction::Exit(stop) => {
            assert_eq!(stop.code, 0);
            assert!(said(&stop).contains("Would prune 1 of 1"), "{}", said(&stop));
        }
        other => panic!("expected an end, got {other:?}"),
    }
}

#[test]
fn baseline_prune_no_stale_entries_is_a_noop() {
    match check_done(prune(recorded(), false), &files(), &response("BLOCKED")) {
        BaselineAction::Exit(stop) => {
            assert_eq!(stop.code, 0);
            assert!(said(&stop).contains("up to date"), "{}", said(&stop));
        }
        other => panic!("expected an end, got {other:?}"),
    }
}

#[test]
fn baseline_prune_missing_file_exits_2() {
    let stop = prune_loaded("nope.json", Err("cannot read nope.json".to_string())).unwrap_err();
    assert_eq!(stop.code, 2);
}

#[test]
fn baseline_prune_empty_baseline_is_a_noop_without_network() {
    let empty = Baseline {
        version: 1,
        entries: Vec::new(),
    };
    let stop = prune_loaded("baseline.json", Ok(empty)).unwrap_err();
    assert_eq!(stop.code, 0);
    assert!(said(&stop).contains("nothing to prune"), "{}", said(&stop));
    assert_eq!(
        prune_loaded("baseline.json", Ok(recorded()))
            .unwrap()
            .entries
            .len(),
        1
    );
}

#[test]
fn empty_inputs_and_failures_end_the_run() {
    let env = EnvVars { vars: Vec::new() };
    let (r, _) = start(run(), &env, &None);
    match sources_read(&r, vec![Ok(String::new())]) {
        BaselineAction::Exit(stop) => {
            assert_eq!(stop.code, 2);
            assert_eq!(
                said(&stop),
                "error: no SQL to baseline (all inputs were empty)."
            );
        }
        other => panic!("expected an end, got {other:?}"),
    }
    match check_failed(&ApiError::Auth("bad key".to_string())) {
        BaselineAction::Exit(stop) => assert_eq!(stop.code, 3),
        other => panic!("expected an end, got {other:?}"),
    }
    assert_eq!(saved(String::new(), Err("full".to_string())).code, 2);
}

#[test]
fn changed_files_come_from_the_diff() {
    let env = EnvVars { vars: Vec::new() };
    let mut r = run();
    r.given = Vec::new();
    r.since = Some("v1".to_string());
    let (r, action) = start(r, &env, &None);
    assert!(matches!(action, BaselineAction::Diff { base } if base == "v1"));
    let out = CommandOutput {
        success: true,
        stdout: b"a.sql\n".to_vec(),
        stderr: Vec::new(),
    };
    let (r, action) = diff_done(r, "v1", &Ok(out));
    assert!(matches!(action, BaselineAction::ReadSources));
    assert_eq!(r.files, vec!["a.sql".to_string()]);
    let (_, action) = diff_done(r, "v1", &Err("no git".to_string()));
    assert!(matches!(action, BaselineAction::Exit(stop) if stop.code == 2));
}

#[test]
fn a_sanitized_workspace_gets_no_literals() {
    match workspace_read(
        &run(),
        queries("DELETE FROM t WHERE id = 5"),
        Ok(workspace("sanitized")),
    ) {
        BaselineAction::Send { say, queries, .. } => {
            assert_eq!(queries[0].sql, "DELETE FROM t WHERE id = $1");
            assert!(
                matches!(&say[0], Line::Stderr(m) if m.contains("workspace is in sanitized mode"))
            );
        }
        other => panic!("expected requests, got {other:?}"),
    }
}

#[test]
fn unread_settings_are_noted_and_a_refused_key_ends_the_run() {
    let down = Err(ApiError::Transport("down".to_string()));
    match workspace_read(&run(), queries("SELECT 5"), down) {
        BaselineAction::Send { say, queries, .. } => {
            assert_eq!(queries[0].sql, "SELECT 5");
            assert!(
                matches!(&say[0], Line::Stderr(m) if m.contains("could not read workspace config"))
            );
        }
        other => panic!("expected requests, got {other:?}"),
    }
    let refused = Err(ApiError::Auth("bad key".to_string()));
    match workspace_read(&run(), queries("SELECT 5"), refused) {
        BaselineAction::Exit(stop) => assert_eq!(stop.code, 3),
        other => panic!("expected an end, got {other:?}"),
    }
}
