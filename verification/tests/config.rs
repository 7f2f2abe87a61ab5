use vericto::config::{
    config_base, load_project, resolve, user_config, Config, ConfigBase, FileRead, KeySource,
    ProjectConfig, DEFAULT_API_URL,
};

#[test]
fn key_source_labels() {
    assert_eq!(KeySource::Flag.label(), "--api-key flag");
    assert_eq!(KeySource::Env.label(), "VETRO_API_KEY env");
    assert_eq!(KeySource::ConfigFile.label(), "config file");
    assert_eq!(KeySource::Absent.label(), "none");
}

#[test]
fn resolve_prefers_flag_url_over_file_over_default() {
    let file = Config {
        api_url: Some("https://file.example".into()),
        ..Default::default()
    };
    // Explicit flag (not default) wins.
    let r = resolve("https://flag.example", false, None, false, &file);
    assert_eq!(r.api_url, "https://flag.example");
    // Flag left at default → file wins.
    let r = resolve(DEFAULT_API_URL, true, None, false, &file);
    assert_eq!(r.api_url, "https://file.example");
    // No file → default.
    let r = resolve(DEFAULT_API_URL, true, None, false, &Config::default());
    assert_eq!(r.api_url, DEFAULT_API_URL);
}

#[test]
fn resolve_api_key_precedence_and_source() {
    let file = Config {
        api_key: Some("vtro_from_file".into()),
        ..Default::default()
    };
    // Flag/env value beats the file.
    let r = resolve(DEFAULT_API_URL, true, Some("vtro_flag"), false, &file);
    assert_eq!(r.api_key.as_deref(), Some("vtro_flag"));
    assert_eq!(r.key_source, KeySource::Flag);
    let r = resolve(DEFAULT_API_URL, true, Some("vtro_env"), true, &file);
    assert_eq!(r.api_key.as_deref(), Some("vtro_env"));
    assert_eq!(r.key_source, KeySource::Env);
    // No flag → file, source ConfigFile.
    let r = resolve(DEFAULT_API_URL, true, None, false, &file);
    assert_eq!(r.api_key.as_deref(), Some("vtro_from_file"));
    assert_eq!(r.key_source, KeySource::ConfigFile);
    // Nothing → None.
    let r = resolve(DEFAULT_API_URL, true, None, false, &Config::default());
    assert!(r.api_key.is_none());
    assert_eq!(r.key_source, KeySource::Absent);
}

#[test]
fn config_path_honors_xdg() {
    assert_eq!(config_base(Some(true), true), ConfigBase::Xdg);
    assert_eq!(config_base(Some(true), false), ConfigBase::Xdg);
    assert_eq!(config_base(Some(false), false), ConfigBase::DotConfig);
    assert_eq!(config_base(None, true), ConfigBase::DotConfig);
    assert_eq!(config_base(None, false), ConfigBase::Platform);
}

#[test]
fn project_config_parses_behavior_fields() {
    let cfg = load_project(FileRead::Parsed(ProjectConfig {
        default_dialect: Some("mysql".into()),
        fail_on: Some("flag".into()),
        baseline: Some(".b.json".into()),
        ..Default::default()
    }))
    .unwrap();
    assert_eq!(cfg.default_dialect.as_deref(), Some("mysql"));
    assert_eq!(cfg.fail_on.as_deref(), Some("flag"));
    assert_eq!(cfg.baseline.as_deref(), Some(".b.json"));
    assert!(cfg.api_key.is_none());
}

#[test]
fn project_config_detects_forbidden_credentials() {
    let e = load_project(FileRead::Parsed(ProjectConfig {
        api_key: Some("vtro_x".into()),
        ..Default::default()
    }))
    .unwrap_err();
    assert!(e.contains("must not contain api_key"), "{e}");
    let e = load_project(FileRead::Parsed(ProjectConfig {
        allow_degraded: Some("true".into()),
        ..Default::default()
    }))
    .unwrap_err();
    assert!(e.contains("must not set allow_degraded"), "{e}");
}

#[test]
fn a_missing_file_is_an_empty_one() {
    let (cfg, note) = user_config(FileRead::Missing, "/c");
    assert!(cfg.api_key.is_none() && note.is_none());
    assert!(load_project(FileRead::Missing).unwrap().fail_on.is_none());
}

#[test]
fn a_broken_user_file_is_a_warning_and_a_broken_project_file_an_error() {
    let (cfg, note) = user_config(FileRead::Malformed("line 1".into()), "/c/config.toml");
    assert!(cfg.api_url.is_none());
    assert_eq!(
        note.as_deref(),
        Some("warning: invalid config at /c/config.toml: line 1")
    );
    let (_, note) = user_config(FileRead::Unreadable("denied".into()), "/c");
    assert_eq!(note.as_deref(), Some("warning: denied"));
    assert_eq!(
        load_project(FileRead::Malformed("line 1".into())).unwrap_err(),
        "invalid .vericto.toml: line 1"
    );
    assert_eq!(
        load_project(FileRead::Unreadable("denied".into())).unwrap_err(),
        "denied"
    );
}
