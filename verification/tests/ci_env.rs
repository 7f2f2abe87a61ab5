use vericto::ci_env::{
    actor, build_provenance, changed_sql_files, collect_provenance, default_branch_ref,
    detected_base_ref, diff_range, env_present, env_var, git, git_ref, run_url, CommandOutput,
    EnvVars, GitOutputs, Provider,
};

#[test]
fn provider_as_str_values() {
    assert_eq!(Provider::GitHub.as_str(), "github");
    assert_eq!(Provider::GitLab.as_str(), "gitlab");
    assert_eq!(Provider::Local.as_str(), "local");
}

fn env(vars: &[(&str, &str)]) -> EnvVars {
    let mut out = Vec::new();
    for (k, v) in vars {
        out.push((k.to_string(), v.to_string()));
    }
    EnvVars { vars: out }
}

fn out(text: &str) -> CommandOutput {
    CommandOutput {
        success: true,
        stdout: text.as_bytes().to_vec(),
        stderr: Vec::new(),
    }
}

#[test]
fn detect_and_provenance_from_env() {
    // No CI vars → Local.
    assert_eq!(Provider::detect(&env(&[])), Provider::Local);

    // GitHub.
    let gh = env(&[
        ("GITHUB_ACTIONS", "true"),
        ("GITHUB_SERVER_URL", "https://github.com"),
        ("GITHUB_REPOSITORY", "org/repo"),
        ("GITHUB_RUN_ID", "42"),
        ("GITHUB_ACTOR", "octocat"),
    ]);
    assert_eq!(Provider::detect(&gh), Provider::GitHub);
    assert_eq!(
        run_url(Provider::GitHub, &gh).as_deref(),
        Some("https://github.com/org/repo/actions/runs/42")
    );
    assert_eq!(actor(Provider::GitHub, &gh).as_deref(), Some("octocat"));

    // GitLab (takes precedence check: remove GH marker first).
    let gl = env(&[
        ("GITHUB_SERVER_URL", "https://github.com"),
        ("GITHUB_REPOSITORY", "org/repo"),
        ("GITHUB_RUN_ID", "42"),
        ("GITHUB_ACTOR", "octocat"),
        ("GITLAB_CI", "true"),
        ("CI_JOB_URL", "https://gitlab.com/org/repo/-/jobs/9"),
        ("GITLAB_USER_LOGIN", "gluser"),
    ]);
    assert_eq!(Provider::detect(&gl), Provider::GitLab);
    assert_eq!(
        run_url(Provider::GitLab, &gl).as_deref(),
        Some("https://gitlab.com/org/repo/-/jobs/9")
    );
    assert_eq!(actor(Provider::GitLab, &gl).as_deref(), Some("gluser"));
}

#[test]
fn blank_variables_do_not_count() {
    let e = env(&[("A", "  "), ("B", " x ")]);
    assert_eq!(env_var(&e, "A"), None);
    assert!(!env_present(&e, "A"));
    assert_eq!(env_var(&e, "B").as_deref(), Some("x"));
    assert_eq!(env_var(&e, "C"), None);
}

#[test]
fn git_output_is_trimmed_and_failures_are_nothing() {
    assert_eq!(git(&Some(out(" abc \n"))).as_deref(), Some("abc"));
    assert_eq!(git(&Some(out("\n"))), None);
    assert_eq!(git(&None), None);
    let mut failed = out("abc");
    failed.success = false;
    assert_eq!(git(&Some(failed)), None);
}

#[test]
fn base_refs_come_from_the_provider_or_the_default_branch() {
    let head = Some(out("refs/remotes/origin/main\n"));
    assert_eq!(default_branch_ref(&head).as_deref(), Some("origin/main"));
    assert_eq!(
        default_branch_ref(&Some(out("refs/remotes/origin/release/1.0\n"))).as_deref(),
        Some("origin/release/1.0")
    );
    assert_eq!(
        default_branch_ref(&Some(out("refs/heads/main\n"))).as_deref(),
        Some("origin/main")
    );
    assert_eq!(
        detected_base_ref(
            Provider::GitHub,
            &env(&[("GITHUB_BASE_REF", "develop")]),
            &head
        )
        .as_deref(),
        Some("origin/develop")
    );
    assert_eq!(
        detected_base_ref(
            Provider::GitLab,
            &env(&[("CI_MERGE_REQUEST_TARGET_BRANCH_NAME", "trunk")]),
            &head
        )
        .as_deref(),
        Some("origin/trunk")
    );
    assert_eq!(
        detected_base_ref(Provider::Local, &env(&[]), &head).as_deref(),
        Some("origin/main")
    );
    assert_eq!(detected_base_ref(Provider::Local, &env(&[]), &None), None);
}

#[test]
fn changed_files_are_the_lines_of_the_diff() {
    assert_eq!(diff_range("origin/main"), "origin/main...HEAD");
    let files = changed_sql_files("origin/main", &Ok(out("a.sql\n\nb/c.sql\n"))).unwrap();
    assert_eq!(files, vec!["a.sql".to_string(), "b/c.sql".to_string()]);
    let failed = CommandOutput {
        success: false,
        stdout: Vec::new(),
        stderr: b"fatal: bad revision\n".to_vec(),
    };
    let e = changed_sql_files("origin/main", &Ok(failed)).unwrap_err();
    assert!(e.contains("origin/main") && e.contains("fatal: bad revision"), "{e}");
    let e = changed_sql_files("origin/main", &Err("no git".to_string())).unwrap_err();
    assert!(e.contains("no git"), "{e}");
}

#[test]
fn provenance_needs_a_signal() {
    let nothing = GitOutputs {
        head: None,
        symbolic_head: None,
        origin_head: None,
    };
    let p = collect_provenance(&env(&[]), &nothing);
    assert_eq!(p.ci_provider, "local");
    assert!(build_provenance(p).is_none());

    let outputs = GitOutputs {
        head: Some(out("deadbeef\n")),
        symbolic_head: Some(out("refs/heads/main\n")),
        origin_head: None,
    };
    let p = build_provenance(collect_provenance(&env(&[]), &outputs)).unwrap();
    assert_eq!(p.git_sha.as_deref(), Some("deadbeef"));
    assert_eq!(p.git_ref.as_deref(), Some("refs/heads/main"));
    assert_eq!(p.ci_provider, "local");
    assert_eq!(
        git_ref(
            Provider::GitHub,
            &env(&[("GITHUB_REF", "refs/pull/7/merge")]),
            &None
        )
        .as_deref(),
        Some("refs/pull/7/merge")
    );
}
