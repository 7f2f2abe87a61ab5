use vericto::api::{ApiError, OidcExchangeResult, WorkspaceConfig};
use vericto::ci_env::EnvVars;
use vericto::config::Config;
use vericto::exit::{Line, Stop};
use vericto::login::{
    code_exchanged, key_checked, login_exchange, login_mode, login_saved, login_token, login_url,
    logout, logout_saved, oidc_config, oidc_login_url, oidc_saved, LoginMode, OidcLoginStep,
    DEFAULT_APP_URL,
};

fn workspace() -> WorkspaceConfig {
    WorkspaceConfig {
        telemetry_query_mode: Some("raw".to_string()),
        plan: None,
        ci_checks_remaining: None,
        ruleset_version: None,
    }
}

fn said(stop: &Stop) -> &str {
    text(&stop.line)
}

fn text(line: &Line) -> &str {
    match line {
        Line::Stdout(s) => s,
        Line::Stderr(s) => s,
    }
}

#[test]
fn the_browser_is_the_default() {
    assert!(matches!(login_mode(false, None), LoginMode::Browser));
    assert!(matches!(
        login_mode(false, Some("vtro_k".to_string())),
        LoginMode::Key(k) if k == "vtro_k"
    ));
    assert!(matches!(
        login_mode(true, Some("vtro_k".to_string())),
        LoginMode::Oidc
    ));
}

#[test]
fn the_login_address_names_state_and_port() {
    assert_eq!(
        login_url(DEFAULT_APP_URL, "abc", 4242),
        "https://vericto.com/cli-auth?state=abc&port=4242"
    );
    assert_eq!(
        login_url("http://127.0.0.1:1/", "s", 1),
        "http://127.0.0.1:1/cli-auth?state=s&port=1"
    );
}

#[test]
fn browser_login_saves_the_exchanged_key() {
    let cfg = code_exchanged(
        Ok("vtro_from_browser_e2e".to_string()),
        Config::default(),
        None,
        None,
    )
    .unwrap();
    assert_eq!(cfg.api_key.as_deref(), Some("vtro_from_browser_e2e"));
    let stop = login_saved(Ok("/c/vericto/config.toml".to_string()));
    assert_eq!(stop.code, 0);
    assert_eq!(said(&stop), "Saved credentials to /c/vericto/config.toml");
    assert_eq!(login_saved(Err("full".to_string())).code, 2);
}

#[test]
fn browser_login_rejected_code_does_not_save() {
    let stop = code_exchanged(
        Err(ApiError::Auth(
            "Código de autenticación inválido, expirado o ya utilizado.".to_string(),
        )),
        Config::default(),
        None,
        None,
    )
    .unwrap_err();
    assert_eq!(stop.code, 3);
}

#[test]
fn login_logout_roundtrip() {
    let old = Config {
        workspace_id: Some("ws_1".to_string()),
        ..Default::default()
    };
    let cfg = key_checked(
        Ok(workspace()),
        old,
        "vtro_stored".to_string(),
        Some("https://api.example".to_string()),
        None,
    )
    .unwrap();
    assert_eq!(cfg.api_key.as_deref(), Some("vtro_stored"));
    assert_eq!(cfg.workspace_id.as_deref(), Some("ws_1"));
    let cfg = logout(true, true, cfg).unwrap();
    assert!(cfg.api_key.is_none());
    assert_eq!(cfg.api_url.as_deref(), Some("https://api.example"));
    let stop = logout_saved("/c/config.toml", Ok(()));
    assert_eq!(
        (stop.code, said(&stop)),
        (0, "Removed stored API key from /c/config.toml")
    );
    assert_eq!(logout_saved("/c", Err("full".to_string())).code, 2);
}

#[test]
fn logging_out_without_credentials_is_fine() {
    let stop = logout(false, false, Config::default()).unwrap_err();
    assert_eq!(stop.code, 2);
    let stop = logout(true, false, Config::default()).unwrap_err();
    assert_eq!((stop.code, said(&stop)), (0, "No stored credentials."));
    let stop = logout(true, true, Config::default()).unwrap_err();
    assert_eq!((stop.code, said(&stop)), (0, "No stored API key."));
}

#[test]
fn login_with_key_unreachable_backend_does_not_save() {
    let stop = key_checked(
        Err(ApiError::Transport("refused".to_string())),
        Config::default(),
        "vtro_unverified".to_string(),
        None,
        None,
    )
    .unwrap_err();
    assert_eq!(stop.code, 4);
}

#[test]
fn login_with_key_invalid_key_does_not_save() {
    let stop = key_checked(
        Err(ApiError::Auth("API key inválida.".to_string())),
        Config::default(),
        "vtro_bad".to_string(),
        None,
        None,
    )
    .unwrap_err();
    assert_eq!(stop.code, 3);
}

fn env(vars: &[(&str, &str)]) -> EnvVars {
    let mut out = Vec::new();
    for (k, v) in vars {
        out.push((k.to_string(), v.to_string()));
    }
    EnvVars { vars: out }
}

#[test]
fn login_oidc_saves_workspace_no_secret() {
    let old = Config {
        api_key: Some("vtro_old".to_string()),
        ..Default::default()
    };
    let cfg = oidc_config(
        old,
        &Some("ws_42".to_string()),
        None,
        Some("vericto".to_string()),
    )
    .unwrap();
    assert_eq!(cfg.workspace_id.as_deref(), Some("ws_42"));
    assert!(cfg.api_key.is_none());
    let turn = oidc_saved(
        &cfg,
        "ws_42",
        &Some("vericto".to_string()),
        "/c/config.toml",
        &env(&[]),
    );
    assert!(matches!(turn.step, OidcLoginStep::Finish(0)));
    assert_eq!(
        text(&turn.say[0]),
        "Configured OIDC login for workspace ws_42 (audience vericto) in /c/config.toml."
    );
    assert_eq!(oidc_login_url(&cfg), "https://api.vericto.com");
}

#[test]
fn identity_logins_need_a_workspace() {
    let stop = oidc_config(Config::default(), &None, None, None).unwrap_err();
    assert_eq!(stop.code, 2);
}

#[test]
fn identity_logins_are_tried_where_a_token_is_there() {
    let cfg = oidc_config(Config::default(), &Some("ws".to_string()), None, None).unwrap();
    let turn = oidc_saved(
        &cfg,
        "ws",
        &None,
        "/c",
        &env(&[("VERICTO_ID_TOKEN", "jwt")]),
    );
    assert!(matches!(turn.step, OidcLoginStep::Exchange { id_token } if id_token == "jwt"));
    let turn = oidc_saved(
        &cfg,
        "ws",
        &None,
        "/c",
        &env(&[
            ("ACTIONS_ID_TOKEN_REQUEST_URL", "https://gh"),
            ("ACTIONS_ID_TOKEN_REQUEST_TOKEN", "t"),
        ]),
    );
    match turn.step {
        OidcLoginStep::RequestToken {
            url,
            authorization,
            audience,
        } => {
            assert_eq!(url, "https://gh");
            assert_eq!(authorization, "Bearer t");
            assert_eq!(audience.as_deref(), Some("vericto"));
        }
        other => panic!("expected a request, got {other:?}"),
    }
    let turn = login_token(Err(ApiError::Transport("down".to_string())));
    assert!(matches!(turn.step, OidcLoginStep::Finish(3)));
    let turn = login_token(Ok("jwt".to_string()));
    assert!(matches!(turn.step, OidcLoginStep::Exchange { .. }));
    let turn = login_exchange(Err(ApiError::Auth("no policy".to_string())));
    assert!(matches!(turn.step, OidcLoginStep::Finish(3)));
    assert_eq!(turn.say.len(), 2);
    let turn = login_exchange(Ok(OidcExchangeResult {
        api_key: "vtro_minted".to_string(),
        expires_at: None,
        scope: None,
        policy_id: None,
    }));
    assert!(matches!(turn.step, OidcLoginStep::Finish(0)));
    assert!(!text(&turn.say[0]).contains("vtro_"));
}
