//! What `doctor` reports: settings, compatibility, authentication and quota, as a
//! machine: each function takes what came of the last action and says what follows.
use vstd::prelude::*;
use crate::api::{error_text, outcome_view, ApiError, ApiErrorView, VersionInfo, WorkspaceConfig};
use crate::auth::{AuthMode, AuthModeView};
use crate::config::{key_source_label, Resolved};
use crate::exit::{line_views, Line, LineView, Stop, StopView, AUTH, BACKEND, OK};
use crate::json::{signed_decimal, signed_text};
use crate::output::CLI_VERSION;
use crate::text::{opt_view, str_or, text_or};
use crate::version::{backend_compat, backend_compat_of, Compat, MIN_BACKEND_API_VERSION};

verus! {

/// The settings that a command runs with.
pub open spec fn settings_lines(config_path: Option<Seq<char>>, resolved: Resolved) -> Seq<LineView> {
    seq![
        LineView::Stdout("config file: "@ + (match config_path {
            Some(p) => p,
            None => "(unavailable)"@,
        })),
        LineView::Stdout("api url:     "@ + resolved.api_url@),
        LineView::Stdout("api key:     "@ + key_source_label(resolved.key_source)),
        LineView::Stdout("\ncli version: "@ + CLI_VERSION@),
    ]
}

/// What to do next.
#[derive(Clone, Copy, Debug, PartialEq, Eq, Structural)]
pub enum DoctorAction {
    /// Ask the backend for its version; no key is needed.
    FetchVersion,
    /// Obtain a key.
    Authenticate,
    /// Read the workspace's settings with the key, which spends no check.
    FetchWorkspace,
    Exit(u8),
}

/// What to say and what to do next.
#[derive(Debug)]
pub struct DoctorTurn {
    pub say: Vec<Line>,
    pub action: DoctorAction,
}

pub struct DoctorTurnView {
    pub say: Seq<LineView>,
    pub action: DoctorAction,
}

impl View for DoctorTurn {
    type V = DoctorTurnView;

    open spec fn view(&self) -> DoctorTurnView {
        DoctorTurnView { say: line_views(self.say@), action: self.action }
    }
}

/// Begins: reports the settings that a command runs with. The key itself is not shown,
/// only where it came from.
pub fn start(config_path: Option<&str>, resolved: &Resolved) -> (r: DoctorTurn)
    ensures
        r@ == (DoctorTurnView {
            say: settings_lines(crate::api::opt_str_view(config_path), *resolved),
            action: DoctorAction::FetchVersion,
        }),
{
    let place = match config_path {
        Some(p) => p,
        None => "(unavailable)",
    };
    let say = vec![
        Line::Stdout("config file: ".to_owned().concat(place)),
        Line::Stdout("api url:     ".to_owned().concat(resolved.api_url.as_str())),
        Line::Stdout("api key:     ".to_owned().concat(resolved.key_source.label())),
        Line::Stdout("\ncli version: ".to_owned().concat(CLI_VERSION)),
    ];
    assert(line_views(say@) =~= settings_lines(
        crate::api::opt_str_view(config_path),
        *resolved,
    ));
    DoctorTurn { say, action: DoctorAction::FetchVersion }
}

pub open spec fn version_line(api_version: Seq<char>, min_cli: Option<Seq<char>>) -> Seq<char> {
    "backend api: "@ + api_version + (match min_cli {
        Some(m) => " (min cli "@ + m + ")"@,
        None => seq![],
    })
}

pub open spec fn skew_line(api_version: Seq<char>) -> Seq<char> {
    "  ⚠ backend api "@ + api_version + " is older than this CLI expects (>= "@
        + MIN_BACKEND_API_VERSION@ + "); some features may be unavailable."@
}

pub open spec fn mismatch_line(api_version: Seq<char>) -> Seq<char> {
    "\n✖ incompatible backend: api "@ + api_version + " vs CLI requires "@
        + MIN_BACKEND_API_VERSION@ + " (major mismatch). Upgrade the CLI or backend."@
}

/// What is reported about the backend's version. Only another major is fatal: a backend
/// that does not tell its version is not held up.
pub open spec fn version_report(reply: Result<VersionInfo, ApiErrorView>) -> DoctorTurnView {
    match reply {
        Err(_) => DoctorTurnView {
            say: seq![
                LineView::Stdout("backend api: (version endpoint unavailable — older backend?)"@),
            ],
            action: DoctorAction::Authenticate,
        },
        Ok(info) => match info.api_version {
            None => DoctorTurnView {
                say: seq![
                    LineView::Stdout("backend api: (version endpoint returned no api_version)"@),
                ],
                action: DoctorAction::Authenticate,
            },
            Some(v) => {
                let head = LineView::Stdout(version_line(v@, opt_view(info.min_cli_version)));
                match backend_compat_of(v@) {
                    Compat::MinorSkew => DoctorTurnView {
                        say: seq![head, LineView::Stdout(skew_line(v@))],
                        action: DoctorAction::Authenticate,
                    },
                    Compat::MajorMismatch => DoctorTurnView {
                        say: seq![head, LineView::Stdout(mismatch_line(v@))],
                        action: DoctorAction::Exit(BACKEND),
                    },
                    _ => DoctorTurnView { say: seq![head], action: DoctorAction::Authenticate },
                }
            },
        },
    }
}

/// Goes on after the backend was asked for its version.
pub fn version_read(reply: Result<VersionInfo, ApiError>) -> (r: DoctorTurn)
    ensures
        r@ == version_report(outcome_view(reply)),
{
    let mut say: Vec<Line> = Vec::new();
    match &reply {
        Err(_) => {
            say.push(
                Line::Stdout(
                    "backend api: (version endpoint unavailable — older backend?)".to_owned(),
                ),
            );
            assert(line_views(say@) =~= version_report(outcome_view(reply)).say);
            DoctorTurn { say, action: DoctorAction::Authenticate }
        },
        Ok(info) => match &info.api_version {
            None => {
                say.push(
                    Line::Stdout(
                        "backend api: (version endpoint returned no api_version)".to_owned(),
                    ),
                );
                assert(line_views(say@) =~= version_report(outcome_view(reply)).say);
                DoctorTurn { say, action: DoctorAction::Authenticate }
            },
            Some(v) => {
                let tail = match &info.min_cli_version {
                    Some(m) => {
                        let mut text = " (min cli ".to_owned();
                        text.append(m.as_str());
                        text.append(")");
                        text
                    },
                    None => String::new(),
                };
                let mut head = "backend api: ".to_owned();
                head.append(v.as_str());
                head.append(tail.as_str());
                assert(head@ == version_line(v@, opt_view(info.min_cli_version)));
                say.push(Line::Stdout(head));
                let action = match backend_compat(v.as_str()) {
                    Compat::MinorSkew => {
                        let mut text = "  ⚠ backend api ".to_owned();
                        text.append(v.as_str());
                        text.append(" is older than this CLI expects (>= ");
                        text.append(MIN_BACKEND_API_VERSION);
                        text.append("); some features may be unavailable.");
                        say.push(Line::Stdout(text));
                        DoctorAction::Authenticate
                    },
                    Compat::MajorMismatch => {
                        let mut text = "\n✖ incompatible backend: api ".to_owned();
                        text.append(v.as_str());
                        text.append(" vs CLI requires ");
                        text.append(MIN_BACKEND_API_VERSION);
                        text.append(" (major mismatch). Upgrade the CLI or backend.");
                        say.push(Line::Stdout(text));
                        DoctorAction::Exit(BACKEND)
                    },
                    _ => DoctorAction::Authenticate,
                };
                assert(line_views(say@) =~= version_report(outcome_view(reply)).say);
                DoctorTurn { say, action }
            },
        },
    }
}

/// How the key was obtained.
pub open spec fn mode_text(mode: AuthModeView) -> Seq<char> {
    match mode {
        AuthModeView::Static(src) => "auth mode:   static key ("@ + key_source_label(src) + ")"@,
        AuthModeView::Oidc { source, policy_id } => "auth mode:   OIDC workload-identity via "@
            + source + (match policy_id {
            Some(p) => " (policy "@ + p + ")"@,
            None => seq![],
        }),
    }
}

fn mode_line(mode: &AuthMode) -> (r: Line)
    ensures
        r@ == LineView::Stdout(mode_text(mode@)),
{
    match mode {
        AuthMode::Static(src) => {
            let mut text = "auth mode:   static key (".to_owned();
            text.append(src.label());
            text.append(")");
            Line::Stdout(text)
        },
        AuthMode::Oidc { source, policy_id } => {
            let tail = match policy_id {
                Some(p) => {
                    let mut text = " (policy ".to_owned();
                    text.append(p.as_str());
                    text.append(")");
                    text
                },
                None => String::new(),
            };
            let mut text = "auth mode:   OIDC workload-identity via ".to_owned();
            text.append(source.as_str());
            text.append(tail.as_str());
            Line::Stdout(text)
        },
    }
}

pub open spec fn login_result(r: Result<AuthMode, Stop>) -> Result<AuthModeView, StopView> {
    match r {
        Ok(m) => Ok(m@),
        Err(s) => Err(s@),
    }
}

/// What follows a login: where it failed, that ends the command with the code of the
/// failure.
pub open spec fn login_report(login: Result<AuthModeView, StopView>) -> DoctorTurnView {
    match login {
        Ok(mode) => DoctorTurnView {
            say: seq![LineView::Stdout(mode_text(mode))],
            action: DoctorAction::FetchWorkspace,
        },
        Err(s) => DoctorTurnView {
            say: seq![s.line, LineView::Stdout("\n✖ authentication unavailable."@)],
            action: DoctorAction::Exit(s.code),
        },
    }
}

/// Goes on after a login, with how the key was obtained.
pub fn authenticated(login: Result<AuthMode, Stop>) -> (r: DoctorTurn)
    ensures
        r@ == login_report(login_result(login)),
{
    match login {
        Ok(mode) => {
            let line = mode_line(&mode);
            let say = vec![line];
            assert(line_views(say@) =~= seq![line@]);
            DoctorTurn { say, action: DoctorAction::FetchWorkspace }
        },
        Err(s) => {
            let code = s.code;
            let last = Line::Stdout("\n✖ authentication unavailable.".to_owned());
            let say = vec![s.line, last];
            assert(line_views(say@) =~= seq![s.line@, last@]);
            DoctorTurn { say, action: DoctorAction::Exit(code) }
        },
    }
}

pub open spec fn opt_line(label: Seq<char>, value: Option<Seq<char>>) -> Seq<LineView> {
    match value {
        Some(v) => seq![LineView::Stdout(label + v)],
        None => seq![],
    }
}

pub open spec fn quota_text(remaining: Option<i64>) -> Seq<char> {
    match remaining {
        Some(n) => "  CLI checks remaining this month: "@ + signed_decimal(n as int),
        None => "  CLI checks: unmetered (team/enterprise)"@,
    }
}

/// What is reported about the workspace, which shows whether the key is accepted.
pub open spec fn workspace_report(reply: Result<WorkspaceConfig, ApiErrorView>) -> DoctorTurnView {
    match reply {
        Ok(cfg) => DoctorTurnView {
            say: seq![LineView::Stdout("\n✓ reachable and authenticated"@)] + opt_line(
                "  plan: "@,
                opt_view(cfg.plan),
            ) + opt_line("  ruleset: "@, opt_view(cfg.ruleset_version)) + seq![
                LineView::Stdout(quota_text(cfg.ci_checks_remaining)),
                LineView::Stdout("  query mode: "@ + text_or(cfg.telemetry_query_mode, "raw"@)),
            ],
            action: DoctorAction::Exit(OK),
        },
        Err(e) => if e is Auth {
            DoctorTurnView {
                say: seq![
                    LineView::Stdout("\n✖ auth/entitlement failed: "@ + error_text(e)),
                    LineView::Stdout(
                        "  Check the key's scope (ci_dryrun:execute) and your plan quota."@,
                    ),
                ],
                action: DoctorAction::Exit(AUTH),
            }
        } else {
            DoctorTurnView {
                say: seq![LineView::Stdout("\n✖ could not reach the backend: "@ + error_text(e))],
                action: DoctorAction::Exit(BACKEND),
            }
        },
    }
}

/// Ends after the workspace's settings were read.
pub fn workspace_read(reply: Result<WorkspaceConfig, ApiError>) -> (r: DoctorTurn)
    ensures
        r@ == workspace_report(outcome_view(reply)),
{
    let mut say: Vec<Line> = Vec::new();
    match &reply {
        Ok(cfg) => {
            say.push(Line::Stdout("\n✓ reachable and authenticated".to_owned()));
            if let Some(plan) = &cfg.plan {
                say.push(Line::Stdout("  plan: ".to_owned().concat(plan.as_str())));
            }
            if let Some(rs) = &cfg.ruleset_version {
                say.push(Line::Stdout("  ruleset: ".to_owned().concat(rs.as_str())));
            }
            let quota = match cfg.ci_checks_remaining {
                Some(n) => "  CLI checks remaining this month: ".to_owned().concat(
                    signed_text(n).as_str(),
                ),
                None => "  CLI checks: unmetered (team/enterprise)".to_owned(),
            };
            say.push(Line::Stdout(quota));
            say.push(
                Line::Stdout(
                    "  query mode: ".to_owned().concat(str_or(&cfg.telemetry_query_mode, "raw")),
                ),
            );
            assert(line_views(say@) =~= workspace_report(outcome_view(reply)).say);
            DoctorTurn { say, action: DoctorAction::Exit(OK) }
        },
        Err(e) => match e {
            ApiError::Auth(_) => {
                say.push(
                    Line::Stdout(
                        "\n✖ auth/entitlement failed: ".to_owned().concat(e.message().as_str()),
                    ),
                );
                say.push(
                    Line::Stdout(
                        "  Check the key's scope (ci_dryrun:execute) and your plan quota.".to_owned(),
                    ),
                );
                assert(line_views(say@) =~= workspace_report(outcome_view(reply)).say);
                DoctorTurn { say, action: DoctorAction::Exit(AUTH) }
            },
            _ => {
                say.push(
                    Line::Stdout(
                        "\n✖ could not reach the backend: ".to_owned().concat(
                            e.message().as_str(),
                        ),
                    ),
                );
                assert(line_views(say@) =~= workspace_report(outcome_view(reply)).say);
                DoctorTurn { say, action: DoctorAction::Exit(BACKEND) }
            },
        },
    }
}

} // verus!
