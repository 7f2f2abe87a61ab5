use vericto::api::{ApiError, OidcExchangeResult, Sent};
use vericto::auth::{exit_code_of, on_exchange, on_token, resolve_auth, AuthMode, AuthStep, OidcOpts};
use vericto::ci_env::EnvVars;
use vericto::config::{Config, KeySource, ProjectConfig};
use vericto::oidc::{
    availability, fetch_token, token_step, Availability, TokenStep, DEFAULT_GITLAB_TOKEN_ENV,
};

fn env(vars: &[(&str, &str)]) -> EnvVars {
    let mut out = Vec::new();
    for (k, v) in vars {
        out.push((k.to_string(), v.to_string()));
    }
    EnvVars { vars: out }
}

#[test]
fn availability_none_without_signals() {
    assert!(availability(&env(&[]), DEFAULT_GITLAB_TOKEN_ENV).is_none());
}

#[test]
fn availability_detects_github_endpoint() {
    let e = env(&[
        (
            "ACTIONS_ID_TOKEN_REQUEST_URL",
            "https://gh/token?api-version=2.0",
        ),
        ("ACTIONS_ID_TOKEN_REQUEST_TOKEN", "req-tok"),
    ]);
    match availability(&e, DEFAULT_GITLAB_TOKEN_ENV) {
        Some(Availability::GitHubEndpoint { url, request_token }) => {
            assert!(url.contains("api-version"));
            assert_eq!(request_token, "req-tok");
        }
        other => panic!("expected GitHubEndpoint, got {other:?}"),
    }
}

#[test]
fn availability_detects_env_token() {
    let e = env(&[("VETRO_ID_TOKEN", "  jwt.body.sig  ")]);
    match availability(&e, "VETRO_ID_TOKEN") {
        Some(Availability::EnvToken { var, token }) => {
            assert_eq!(var, "VETRO_ID_TOKEN");
            assert_eq!(token, "jwt.body.sig"); // trimmed
        }
        other => panic!("expected EnvToken, got {other:?}"),
    }
}

#[test]
fn github_endpoint_takes_precedence_over_env_token() {
    let e = env(&[
        ("ACTIONS_ID_TOKEN_REQUEST_URL", "https://gh/token"),
        ("ACTIONS_ID_TOKEN_REQUEST_TOKEN", "req-tok"),
        ("VETRO_ID_TOKEN", "env-jwt"),
    ]);
    assert!(matches!(
        availability(&e, "VETRO_ID_TOKEN"),
        Some(Availability::GitHubEndpoint { .. })
    ));
}

#[test]
fn fetch_token_returns_env_token_verbatim() {
    let avail = Availability::EnvToken {
        var: "VETRO_ID_TOKEN".into(),
        token: "env-jwt".into(),
    };
    match token_step(&avail, &Some("vetro".to_string())) {
        TokenStep::Ready(tok) => assert_eq!(tok, "env-jwt"),
        other => panic!("expected a token, got {other:?}"),
    }
}

#[test]
fn fetch_token_reads_github_value_field() {
    let avail = Availability::GitHubEndpoint {
        url: "https://gh/token".into(),
        request_token: "req-tok".into(),
    };
    match token_step(&avail, &Some("vetro".to_string())) {
        TokenStep::Request {
            url,
            authorization,
            audience,
        } => {
            assert_eq!(url, "https://gh/token");
            assert_eq!(authorization, "Bearer req-tok");
            assert_eq!(audience.as_deref(), Some("vetro"));
        }
        other => panic!("expected a request, got {other:?}"),
    }
    let tok = fetch_token(Sent::Answered {
        status: 200,
        body: String::new(),
        decoded: Ok("gh.jwt.token".to_string()),
    })
    .unwrap();
    assert_eq!(tok, "gh.jwt.token");
}

#[test]
fn refused_and_empty_tokens_are_backend_errors() {
    let e = fetch_token(Sent::Answered {
        status: 500,
        body: " oops ".to_string(),
        decoded: Err("x".to_string()),
    })
    .unwrap_err();
    assert!(
        matches!(e, ApiError::Backend { status: 500, message } if message == "GitHub OIDC token request failed: oops")
    );
    let e = fetch_token(Sent::Answered {
        status: 200,
        body: String::new(),
        decoded: Ok("  ".to_string()),
    })
    .unwrap_err();
    assert!(
        matches!(e, ApiError::Backend { message, .. } if message == "GitHub OIDC token endpoint returned an empty value")
    );
    let e = fetch_token(Sent::Answered {
        status: 200,
        body: String::new(),
        decoded: Err("bad json".to_string()),
    })
    .unwrap_err();
    assert!(
        matches!(e, ApiError::Backend { message, .. } if message == "invalid GitHub OIDC token body: bad json")
    );
    let e = fetch_token(Sent::Unreachable("down".to_string())).unwrap_err();
    assert!(matches!(e, ApiError::Transport(_)));
}

fn opts(forced: bool, workspace: Option<&str>) -> OidcOpts {
    OidcOpts {
        forced,
        workspace: workspace.map(String::from),
        audience: None,
        token_env: None,
    }
}

fn begin(key: Option<&str>, opts: &OidcOpts, env: &EnvVars) -> AuthStep {
    resolve_auth(
        key.map(String::from),
        if key.is_some() {
            KeySource::Flag
        } else {
            KeySource::Absent
        },
        opts,
        &ProjectConfig::default(),
        &Config::default(),
        env,
    )
}

#[test]
fn a_static_key_wins_unless_identity_is_forced() {
    match begin(Some("vtro_k"), &opts(false, None), &env(&[])) {
        AuthStep::Done { key, mode, note } => {
            assert_eq!(key, "vtro_k");
            assert!(matches!(mode, AuthMode::Static(KeySource::Flag)));
            assert!(note.is_none());
        }
        other => panic!("expected a key, got {other:?}"),
    }
    let e = env(&[("VERICTO_ID_TOKEN", "jwt")]);
    assert!(matches!(
        begin(Some("vtro_k"), &opts(true, Some("ws_1")), &e),
        AuthStep::Exchange { .. }
    ));
}

#[test]
fn missing_api_key_exits_3() {
    match begin(None, &opts(false, None), &env(&[])) {
        AuthStep::Failed(s) => assert_eq!(s.code, 3),
        other => panic!("expected a failure, got {other:?}"),
    }
}

#[test]
fn oidc_forced_without_token_exits_3() {
    match begin(None, &opts(true, Some("ws_1")), &env(&[])) {
        AuthStep::Failed(s) => assert_eq!(s.code, 3),
        other => panic!("expected a failure, got {other:?}"),
    }
}

#[test]
fn oidc_without_workspace_exits_3() {
    let e = env(&[("VERICTO_ID_TOKEN", "some.jwt")]);
    match begin(None, &opts(true, None), &e) {
        AuthStep::Failed(s) => assert_eq!(s.code, 3),
        other => panic!("expected a failure, got {other:?}"),
    }
}

#[test]
fn a_token_is_exchanged_for_a_short_lived_key() {
    let e = env(&[("VERICTO_ID_TOKEN", "gitlab.style.jwt")]);
    let run = match begin(None, &opts(false, Some("ws_1")), &e) {
        AuthStep::Exchange { run, id_token } => {
            assert_eq!(id_token, "gitlab.style.jwt");
            assert_eq!(run.workspace, "ws_1");
            assert_eq!(run.source, "env:VERICTO_ID_TOKEN");
            run
        }
        other => panic!("expected an exchange, got {other:?}"),
    };
    let minted = OidcExchangeResult {
        api_key: "vtro_minted".to_string(),
        expires_at: Some("2026-07-10T00:15:00Z".to_string()),
        scope: None,
        policy_id: Some("pol_1".to_string()),
    };
    match on_exchange(run, Ok(minted)) {
        AuthStep::Done { key, mode, note } => {
            assert_eq!(key, "vtro_minted");
            assert!(matches!(mode, AuthMode::Oidc { policy_id: Some(p), .. } if p == "pol_1"));
            assert_eq!(
                note.as_deref(),
                Some("note: authenticated via OIDC (env:VERICTO_ID_TOKEN); minted a short-lived key (expires 2026-07-10T00:15:00Z).")
            );
        }
        other => panic!("expected a key, got {other:?}"),
    }
}

#[test]
fn failed_logins_tell_refusal_from_outage() {
    let e = env(&[
        ("ACTIONS_ID_TOKEN_REQUEST_URL", "https://gh/token"),
        ("ACTIONS_ID_TOKEN_REQUEST_TOKEN", "req-tok"),
    ]);
    let run = match begin(None, &opts(false, Some("ws_1")), &e) {
        AuthStep::RequestToken {
            run,
            url,
            authorization,
            audience,
        } => {
            assert_eq!(url, "https://gh/token");
            assert_eq!(authorization, "Bearer req-tok");
            assert_eq!(audience.as_deref(), Some("vericto"));
            run
        }
        other => panic!("expected a request, got {other:?}"),
    };
    match on_token(run, Err(ApiError::Transport("down".to_string()))) {
        AuthStep::Failed(s) => assert_eq!(s.code, 3),
        other => panic!("expected a failure, got {other:?}"),
    }
    assert_eq!(exit_code_of(&ApiError::Auth("no".to_string())), 3);
    assert_eq!(exit_code_of(&ApiError::Transport("no".to_string())), 4);
}
