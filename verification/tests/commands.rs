use vericto::api::{ApiError, ApiKeyInfo, RuleSummary, VersionInfo, WorkspaceConfig};
use vericto::auth::AuthMode;
use vericto::catalogue::{call_failed, keys_text, rule_failed, select_rules};
use vericto::config::{KeySource, Resolved};
use vericto::doctor::{authenticated, start, version_read, workspace_read, DoctorAction};
use vericto::exit::{Line, Stop};
use vericto::init::{file_written, init_done, next_steps, plan_init, InitOptions};
use vericto::output::render_rules_list;
use vericto::scaffold::{
    detect_target, github_workflow, gitlab_job, may_write, precommit_hook, CiTarget, Written,
};

fn text(line: &Line) -> &str {
    match line {
        Line::Stdout(s) => s,
        Line::Stderr(s) => s,
    }
}

fn texts(lines: &[Line]) -> Vec<&str> {
    lines.iter().map(text).collect()
}

// ── init ──────────────────────────────────────────────────────────────────────

fn init(target: Option<CiTarget>, oidc: bool, workspace: Option<&str>) -> InitOptions {
    InitOptions {
        target,
        hook: false,
        dialect: "postgres".to_string(),
        oidc,
        workspace: workspace.map(String::from),
    }
}

#[test]
fn init_github_scaffolds_workflow() {
    let plan = plan_init(&init(Some(CiTarget::GitHub), false, None), CiTarget::Unknown).unwrap();
    assert_eq!(plan.files.len(), 1);
    assert_eq!(plan.files[0].path, ".github/workflows/vericto.yml");
    assert!(plan.files[0].body.contains("Vericto SQL check"));
    assert!(!plan.files[0].executable);
}

#[test]
fn init_github_oidc_scaffolds_workload_identity() {
    let plan = plan_init(
        &init(Some(CiTarget::GitHub), true, Some("ws_7")),
        CiTarget::Unknown,
    )
    .unwrap();
    let s = &plan.files[0].body;
    assert!(s.contains("id-token: write"));
    assert!(s.contains("--oidc --workspace ws_7"));
    assert!(!s.contains("VERICTO_API_KEY"));
}

#[test]
fn init_oidc_without_workspace_exits_2() {
    let stop = plan_init(&init(Some(CiTarget::GitHub), true, None), CiTarget::Unknown).unwrap_err();
    assert_eq!(stop.code, 2);
}

#[test]
fn init_needs_a_provider_and_may_add_a_hook() {
    let stop = plan_init(&init(None, false, None), CiTarget::Unknown).unwrap_err();
    assert_eq!(stop.code, 2);
    let mut opts = init(None, false, None);
    opts.hook = true;
    opts.dialect = "mysql".to_string();
    let plan = plan_init(&opts, CiTarget::GitLab).unwrap();
    assert_eq!(plan.files[0].path, ".vericto/gitlab-ci.yml");
    assert_eq!(plan.files[1].path, ".git/hooks/pre-commit");
    assert!(plan.files[1].executable);
    assert!(plan.files[1].body.contains("--dialect mysql"));
    let lines = next_steps(CiTarget::GitLab, false, true);
    assert_eq!(lines.len(), 2);
    assert!(text(&lines[0]).contains("VERICTO_API_KEY"));
    assert!(!text(&next_steps(CiTarget::GitHub, true, false)[0]).contains("VERICTO_API_KEY"));
}

#[test]
fn nothing_is_overwritten_without_force() {
    assert!(may_write(false, false));
    assert!(!may_write(true, false));
    assert!(may_write(true, true));
    let line = file_written("a", Ok(Written::Created("a".to_string()))).unwrap();
    assert_eq!(text(&line), "created a");
    let line = file_written("a", Ok(Written::Skipped("a".to_string()))).unwrap();
    assert_eq!(text(&line), "exists, skipped a (use --force to overwrite)");
    assert_eq!(file_written("a", Err("denied".to_string())).unwrap_err().code, 2);
}

#[test]
fn init_reports_every_file_up_to_the_first_failure() {
    let mut opts = init(Some(CiTarget::GitHub), false, None);
    opts.hook = true;
    let plan = plan_init(&opts, CiTarget::Unknown).unwrap();
    let created = |i: usize| Ok(Written::Created(plan.files[i].path.clone()));
    let report = init_done(&plan, false, true, vec![created(0), created(1)]);
    assert_eq!(report.code, 0);
    assert_eq!(report.say.len(), 4);
    assert_eq!(
        text(&report.say[0]),
        "created .github/workflows/vericto.yml"
    );
    let report = init_done(
        &plan,
        false,
        true,
        vec![created(0), Err("denied".to_string())],
    );
    assert_eq!(report.code, 2);
    assert_eq!(
        text(&report.say[1]),
        "error: could not write .git/hooks/pre-commit: denied"
    );
    assert_eq!(report.say.len(), 2);
}

#[test]
fn providers_are_detected() {
    assert_eq!(
        detect_target(Some("git@GitHub.com:o/r.git"), false, true),
        CiTarget::GitHub
    );
    assert_eq!(
        detect_target(Some("https://gitlab.example/o/r"), true, false),
        CiTarget::GitLab
    );
    assert_eq!(detect_target(Some("https://other"), true, true), CiTarget::GitHub);
    assert_eq!(detect_target(None, false, true), CiTarget::GitLab);
    assert_eq!(detect_target(None, false, false), CiTarget::Unknown);
}

#[test]
fn templates_carry_the_dialect_and_the_key() {
    let gh = github_workflow("oracle");
    assert!(gh.contains("vericto check --changed --dialect oracle --format sarif"));
    assert!(gh.contains("${{ secrets.VERICTO_API_KEY }}"));
    let gl = gitlab_job("oracle");
    assert!(gl.contains("--dialect oracle --format gitlab-codequality"));
    let hook = precommit_hook("oracle");
    assert!(hook.starts_with("#!/bin/sh\n"));
    assert!(hook.contains("vericto check --dialect oracle"));
}

// ── doctor ────────────────────────────────────────────────────────────────────

#[test]
fn doctor_reports_ok_without_spending_check() {
    let resolved = Resolved {
        api_url: "https://api.example".to_string(),
        api_key: Some("vtro_k".to_string()),
        key_source: KeySource::Env,
    };
    let turn = start(None, &resolved);
    assert_eq!(turn.action, DoctorAction::FetchVersion);
    assert_eq!(text(&turn.say[0]), "config file: (unavailable)");
    assert_eq!(text(&turn.say[1]), "api url:     https://api.example");
    assert!(texts(&turn.say).iter().all(|l| !l.contains("vtro_")));
    let report = version_read(Ok(VersionInfo {
        api_version: Some("1.0.0".to_string()),
        min_cli_version: Some("0.1.0".to_string()),
    }));
    assert_eq!(report.action, DoctorAction::Authenticate);
    assert_eq!(texts(&report.say), vec!["backend api: 1.0.0 (min cli 0.1.0)"]);
    let report = workspace_read(Ok(WorkspaceConfig {
        telemetry_query_mode: None,
        plan: Some("free".to_string()),
        ci_checks_remaining: Some(999),
        ruleset_version: Some("v1".to_string()),
    }));
    assert_eq!(report.action, DoctorAction::Exit(0));
    assert_eq!(
        texts(&report.say),
        vec![
            "\n✓ reachable and authenticated",
            "  plan: free",
            "  ruleset: v1",
            "  CLI checks remaining this month: 999",
            "  query mode: raw",
        ]
    );
}

#[test]
fn doctor_reports_oidc_auth_mode() {
    let turn = authenticated(Ok(AuthMode::Oidc {
        source: "env:VERICTO_ID_TOKEN".to_string(),
        policy_id: Some("pol_1".to_string()),
    }));
    assert_eq!(turn.action, DoctorAction::FetchWorkspace);
    assert_eq!(
        texts(&turn.say),
        vec!["auth mode:   OIDC workload-identity via env:VERICTO_ID_TOKEN (policy pol_1)"]
    );
    let turn = authenticated(Ok(AuthMode::Static(KeySource::ConfigFile)));
    assert_eq!(
        texts(&turn.say),
        vec!["auth mode:   static key (config file)"]
    );
    let turn = authenticated(Err(Stop {
        code: 3,
        line: Line::Stderr("error: no key".to_string()),
    }));
    assert_eq!(turn.action, DoctorAction::Exit(3));
    assert_eq!(
        texts(&turn.say),
        vec!["error: no key", "\n✖ authentication unavailable."]
    );
}

#[test]
fn doctor_tells_refusal_from_outage() {
    let report = workspace_read(Err(ApiError::Auth("bad key".to_string())));
    assert_eq!(report.action, DoctorAction::Exit(3));
    let report = workspace_read(Err(ApiError::Transport("down".to_string())));
    assert_eq!(report.action, DoctorAction::Exit(4));
    let report = workspace_read(Ok(WorkspaceConfig {
        telemetry_query_mode: Some("sanitized".to_string()),
        plan: None,
        ci_checks_remaining: None,
        ruleset_version: None,
    }));
    assert_eq!(
        texts(&report.say)[1..],
        [
            "  CLI checks: unmetered (team/enterprise)",
            "  query mode: sanitized"
        ]
    );
}

#[test]
fn doctor_stops_only_at_another_major() {
    let reply = |v: &str| {
        Ok(VersionInfo {
            api_version: Some(v.to_string()),
            min_cli_version: None,
        })
    };
    assert_eq!(version_read(reply("2.0.0")).action, DoctorAction::Exit(4));
    assert_eq!(version_read(reply("garbage")).action, DoctorAction::Authenticate);
    let report = version_read(Ok(VersionInfo {
        api_version: None,
        min_cli_version: None,
    }));
    assert_eq!(report.action, DoctorAction::Authenticate);
    let report = version_read(Err(ApiError::Transport("down".to_string())));
    assert_eq!(report.action, DoctorAction::Authenticate);
    assert_eq!(
        texts(&report.say),
        vec!["backend api: (version endpoint unavailable — older backend?)"]
    );
}

// ── rules and keys ────────────────────────────────────────────────────────────

fn rules() -> Vec<RuleSummary> {
    let rule = |code: &str, name: &str, active: bool| RuleSummary {
        code: code.to_string(),
        name: name.to_string(),
        description: None,
        severity: "high".to_string(),
        dialect: "all".to_string(),
        rule_type: "standard".to_string(),
        is_active: active,
        resolved_action: "block".to_string(),
    };
    vec![
        rule("VERICTO-001", "DELETE without WHERE", true),
        rule("CUSTOM-001", "No UPDATE on payments", false),
    ]
}

#[test]
fn rules_list_text_shows_all_codes() {
    let all = rules();
    let s = render_rules_list(&select_rules(&all, false), "v1.0.0-20260711");
    assert!(s.contains("VERICTO-001"), "output: {s}");
    assert!(s.contains("CUSTOM-001"), "output: {s}");
    assert!(s.contains("2 rules"), "output: {s}");
}

#[test]
fn rules_list_active_only_filters_inactive() {
    let all = rules();
    let s = render_rules_list(&select_rules(&all, true), "v1.0.0-20260711");
    assert!(s.contains("VERICTO-001"), "output: {s}");
    assert!(!s.contains("CUSTOM-001"), "output: {s}"); // inactive, filtered out
}

#[test]
fn rules_show_unknown_code_exits_2() {
    let stop = rule_failed(&ApiError::Backend {
        status: 404,
        message: "Regla no encontrada: VERICTO-999".to_string(),
    });
    assert_eq!(stop.code, 2);
    let stop = rule_failed(&ApiError::Backend {
        status: 500,
        message: "boom".to_string(),
    });
    assert_eq!(stop.code, 4);
    assert_eq!(rule_failed(&ApiError::Auth("no".to_string())).code, 3);
}

#[test]
fn rules_list_auth_error_exits_3() {
    let stop = call_failed(&ApiError::Auth("API key inválida.".to_string()));
    assert_eq!(stop.code, 3);
    assert_eq!(
        text(&stop.line),
        "error: authentication/authorization failed: API key inválida."
    );
    assert_eq!(call_failed(&ApiError::Transport("down".to_string())).code, 4);
}

#[test]
fn keys_list_empty_is_ok() {
    assert!(keys_text(&[]).contains("No API keys"));
}

#[test]
fn keys_list_text_shows_names_and_marks_current() {
    let key = |name: &str, active: bool, current: bool| ApiKeyInfo {
        name: name.to_string(),
        scopes: vec!["ci_dryrun:execute".to_string()],
        is_active: active,
        is_current: current,
        last_used_at: None,
    };
    let s = keys_text(&[key("ci-primary", true, true), key("old-laptop", false, false)]);
    assert!(s.contains("ci-primary"), "output: {s}");
    assert!(s.contains("old-laptop"), "output: {s}");
    assert!(s.contains('*'), "should mark the current key: {s}");
    assert!(!s.contains("vtro_"), "must not echo a key secret: {s}");
    assert!(
        !s.to_lowercase().contains("hash"),
        "must not print a hash: {s}"
    );
}
