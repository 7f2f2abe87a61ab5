//! Storing and dropping credentials: what goes into the config file, when, and what is
//! said about it. Requests and files are the caller's.
use vstd::prelude::*;
use crate::api::{endpoint, error_text, outcome_view, ApiError, ApiErrorView, OidcExchangeResult, WorkspaceConfig, without_end_slashes};
use crate::auth::{exit_code_of, failure_code};
use crate::ci_env::EnvVars;
use crate::config::{Config, ConfigView, DEFAULT_API_URL, DEFAULT_OIDC_AUDIENCE};
use crate::exit::{error_stop, line_views, stop_with, Line, LineView, Stop, StopView, AUTH, BACKEND, OK, USAGE};
use crate::oidc::{availability, token_source, token_step, token_view, AvailabilityView, TokenStep, DEFAULT_GITLAB_TOKEN_ENV};
use crate::text::{decimal, decimal_text, first_text, opt_view, str_or, text_or};

verus! {

/// The dashboard, where none is configured.
pub const DEFAULT_APP_URL: &'static str = "https://vericto.com";

/// How a login is made.
#[derive(Debug)]
pub enum LoginMode {
    /// Workload identity: no secret is stored.
    Oidc,
    /// A key that was given.
    Key(String),
    /// A key that the browser session mints.
    Browser,
}

/// How a login is made that was asked for in this way.
pub open spec fn mode_of(oidc: bool, api_key: Option<String>) -> LoginMode {
    if oidc {
        LoginMode::Oidc
    } else {
        match api_key {
            Some(k) => LoginMode::Key(k),
            None => LoginMode::Browser,
        }
    }
}

/// How a login is made: workload identity where it is asked for, a key where one is
/// given, the browser otherwise.
pub fn login_mode(oidc: bool, api_key: Option<String>) -> (r: LoginMode)
    ensures
        r == mode_of(oidc, api_key),
{
    if oidc {
        return LoginMode::Oidc;
    }
    match api_key {
        Some(k) => LoginMode::Key(k),
        None => LoginMode::Browser,
    }
}

// ── Browser ───────────────────────────────────────────────────────────────────

/// The address that the browser is opened at.
pub open spec fn login_url_of(app_url: Seq<char>, state: Seq<char>, port: nat) -> Seq<char> {
    without_end_slashes(app_url) + "/cli-auth?state="@ + state + "&port="@ + decimal(port)
}

/// The address that the browser is opened at. It carries the state that the callback
/// must repeat and the port that it must come to, and no credential.
pub fn login_url(app_url: &str, state: &str, port: u16) -> (r: String)
    ensures
        r@ == login_url_of(app_url@, state@, port as nat),
{
    let mut url = endpoint(app_url, "/cli-auth?state=");
    url.append(state);
    url.append("&port=");
    url.append(decimal_text(port as u128).as_str());
    url
}

// ── Keys ──────────────────────────────────────────────────────────────────────

/// The settings after a login with a key; what is not given stays as it was.
pub open spec fn keyed(
    cfg: ConfigView,
    key: Seq<char>,
    api_url: Option<Seq<char>>,
    dialect: Option<Seq<char>>,
) -> ConfigView {
    ConfigView {
        api_key: Some(key),
        api_url: first_text(api_url, cfg.api_url),
        default_dialect: first_text(dialect, cfg.default_dialect),
        ..cfg
    }
}

pub open spec fn config_result(r: Result<Config, Stop>) -> Result<ConfigView, StopView> {
    match r {
        Ok(c) => Ok(c@),
        Err(s) => Err(s@),
    }
}

/// What a login with a key comes to, given the backend's answer to it: settings to save,
/// or the end of the command, with nothing saved.
pub open spec fn after_key_check(
    reply: Result<WorkspaceConfig, ApiErrorView>,
    cfg: ConfigView,
    key: Seq<char>,
    api_url: Option<Seq<char>>,
    dialect: Option<Seq<char>>,
) -> Result<ConfigView, StopView> {
    match reply {
        Ok(_) => Ok(keyed(cfg, key, api_url, dialect)),
        Err(e) => Err(
            error_stop(
                failure_code(e),
                "could not verify the API key: "@ + error_text(e) + " Nothing was saved."@,
            ),
        ),
    }
}

fn with_key(cfg: Config, key: String, api_url: Option<String>, dialect: Option<String>) -> (r: Config)
    ensures
        r@ == keyed(cfg@, key@, opt_view(api_url), opt_view(dialect)),
{
    let mut cfg = cfg;
    cfg.api_key = Some(key);
    if api_url.is_some() {
        cfg.api_url = api_url;
    }
    if dialect.is_some() {
        cfg.default_dialect = dialect;
    }
    cfg
}

/// Decides what becomes of a given key once the backend has been asked about it: only a
/// key that it accepts is saved.
pub fn key_checked(
    reply: Result<WorkspaceConfig, ApiError>,
    cfg: Config,
    key: String,
    api_url: Option<String>,
    dialect: Option<String>,
) -> (r: Result<Config, Stop>)
    ensures
        config_result(r) == after_key_check(
            outcome_view(reply),
            cfg@,
            key@,
            opt_view(api_url),
            opt_view(dialect),
        ),
{
    match reply {
        Ok(_) => Ok(with_key(cfg, key, api_url, dialect)),
        Err(e) => {
            let mut message = "could not verify the API key: ".to_owned();
            message.append(e.message().as_str());
            message.append(" Nothing was saved.");
            Err(stop_with(exit_code_of(&e), message.as_str()))
        },
    }
}

pub open spec fn minted_key(reply: Result<String, ApiErrorView>) -> Result<Seq<char>, ApiErrorView> {
    match reply {
        Ok(k) => Ok(k@),
        Err(e) => Err(e),
    }
}

/// What a login in the browser comes to, given the backend's answer to the one-time
/// code.
pub open spec fn after_code_exchange(
    reply: Result<Seq<char>, ApiErrorView>,
    cfg: ConfigView,
    api_url: Option<Seq<char>>,
    dialect: Option<Seq<char>>,
) -> Result<ConfigView, StopView> {
    match reply {
        Ok(key) => Ok(keyed(cfg, key, api_url, dialect)),
        Err(e) => Err(error_stop(failure_code(e), "browser login failed: "@ + error_text(e))),
    }
}

/// Decides what becomes of a login in the browser: only a key that the backend minted
/// for the code is saved.
pub fn code_exchanged(
    reply: Result<String, ApiError>,
    cfg: Config,
    api_url: Option<String>,
    dialect: Option<String>,
) -> (r: Result<Config, Stop>)
    ensures
        config_result(r) == after_code_exchange(
            minted_key(outcome_view(reply)),
            cfg@,
            opt_view(api_url),
            opt_view(dialect),
        ),
{
    match reply {
        Ok(key) => Ok(with_key(cfg, key, api_url, dialect)),
        Err(e) => Err(
            stop_with(
                exit_code_of(&e),
                "browser login failed: ".to_owned().concat(e.message().as_str()).as_str(),
            ),
        ),
    }
}

/// What came of writing the config file: its path, or what went wrong.
pub open spec fn saved_view(r: Result<String, String>) -> Result<Seq<char>, Seq<char>> {
    match r {
        Ok(p) => Ok(p@),
        Err(e) => Err(e@),
    }
}

/// The end of a login after the settings were written.
pub open spec fn after_saving(saved: Result<Seq<char>, Seq<char>>) -> StopView {
    match saved {
        Ok(path) => StopView { code: OK, line: LineView::Stdout("Saved credentials to "@ + path) },
        Err(e) => error_stop(USAGE, "could not write config: "@ + e),
    }
}

/// Ends a login after the settings were written.
pub fn login_saved(saved: Result<String, String>) -> (r: Stop)
    ensures
        r@ == after_saving(saved_view(saved)),
{
    match saved {
        Ok(path) => Stop {
            code: OK,
            line: Line::Stdout("Saved credentials to ".to_owned().concat(path.as_str())),
        },
        Err(e) => stop_with(
            USAGE,
            "could not write config: ".to_owned().concat(e.as_str()).as_str(),
        ),
    }
}

/// A key that the backend does not accept is never saved: the login ends with the code
/// for authentication where the key was refused, else with that for the backend.
pub proof fn law_only_accepted_keys_are_saved(
    reply: Result<WorkspaceConfig, ApiErrorView>,
    cfg: ConfigView,
    key: Seq<char>,
    api_url: Option<Seq<char>>,
    dialect: Option<Seq<char>>,
)
    ensures
        after_key_check(reply, cfg, key, api_url, dialect) is Ok <==> reply is Ok,
        reply matches Err(e) ==> (after_key_check(reply, cfg, key, api_url, dialect) matches Err(s)
            && s.code == (if e is Auth {
            AUTH
        } else {
            BACKEND
        })),
{
}

// ── Workload identity ─────────────────────────────────────────────────────────

/// The settings after a login with workload identity: the workspace is stored, and no
/// key, not even one that was there.
pub open spec fn identified(
    cfg: ConfigView,
    workspace: Seq<char>,
    api_url: Option<Seq<char>>,
    audience: Option<Seq<char>>,
) -> ConfigView {
    ConfigView {
        api_key: None,
        workspace_id: Some(workspace),
        api_url: first_text(api_url, cfg.api_url),
        oidc_audience: first_text(audience, cfg.oidc_audience),
        ..cfg
    }
}

/// The settings of a login with workload identity.
pub open spec fn identity_settings(
    cfg: ConfigView,
    workspace: Option<Seq<char>>,
    api_url: Option<Seq<char>>,
    audience: Option<Seq<char>>,
) -> Result<ConfigView, StopView> {
    match workspace {
        Some(w) => Ok(identified(cfg, w, api_url, audience)),
        None => Err(error_stop(USAGE, "`vericto login --oidc` requires --workspace <id>."@)),
    }
}

/// Makes the settings of a login with workload identity, which needs a workspace.
pub fn oidc_config(
    cfg: Config,
    workspace: &Option<String>,
    api_url: Option<String>,
    audience: Option<String>,
) -> (r: Result<Config, Stop>)
    ensures
        config_result(r) == identity_settings(
            cfg@,
            opt_view(*workspace),
            opt_view(api_url),
            opt_view(audience),
        ),
{
    match workspace {
        Some(w) => {
            let mut cfg = cfg;
            cfg.api_key = None;
            cfg.workspace_id = Some(w.clone());
            if api_url.is_some() {
                cfg.api_url = api_url;
            }
            if audience.is_some() {
                cfg.oidc_audience = audience;
            }
            Ok(cfg)
        },
        None => Err(stop_with(USAGE, "`vericto login --oidc` requires --workspace <id>.")),
    }
}

/// Logging in with workload identity leaves no secret in the settings.
pub proof fn law_identity_login_stores_no_secret(
    cfg: ConfigView,
    workspace: Seq<char>,
    api_url: Option<Seq<char>>,
    audience: Option<Seq<char>>,
)
    ensures
        identified(cfg, workspace, api_url, audience).api_key is None,
        identified(cfg, workspace, api_url, audience).workspace_id == Some(workspace),
{
}

/// What to do after the settings of a login with workload identity were written.
#[derive(Debug)]
pub enum OidcLoginStep {
    /// Ask the provider for an identity token.
    RequestToken {
        url: String,
        authorization: String,
        audience: Option<String>,
    },
    /// Exchange the identity token, to see that it works.
    Exchange { id_token: String },
    Finish(u8),
}

pub enum OidcLoginStepView {
    RequestToken { url: Seq<char>, authorization: Seq<char>, audience: Option<Seq<char>> },
    Exchange { id_token: Seq<char> },
    Finish(u8),
}

impl View for OidcLoginStep {
    type V = OidcLoginStepView;

    open spec fn view(&self) -> OidcLoginStepView {
        match self {
            OidcLoginStep::RequestToken { url, authorization, audience } =>
                OidcLoginStepView::RequestToken {
                url: url@,
                authorization: authorization@,
                audience: opt_view(*audience),
            },
            OidcLoginStep::Exchange { id_token } => OidcLoginStepView::Exchange {
                id_token: id_token@,
            },
            OidcLoginStep::Finish(code) => OidcLoginStepView::Finish(*code),
        }
    }
}

/// What to say and what to do next.
#[derive(Debug)]
pub struct OidcLoginTurn {
    pub say: Vec<Line>,
    pub step: OidcLoginStep,
}

pub struct OidcLoginTurnView {
    pub say: Seq<LineView>,
    pub step: OidcLoginStepView,
}

impl View for OidcLoginTurn {
    type V = OidcLoginTurnView;

    open spec fn view(&self) -> OidcLoginTurnView {
        OidcLoginTurnView { say: line_views(self.say@), step: self.step@ }
    }
}

pub open spec fn configured_text(workspace: Seq<char>, audience: Option<String>, path: Seq<char>) -> Seq<
    char,
> {
    "Configured OIDC login for workspace "@ + workspace + " (audience "@ + text_or(
        audience,
        DEFAULT_OIDC_AUDIENCE@,
    ) + ") in "@ + path + "."@
}

pub open spec fn detected_text() -> Seq<char> {
    "Detected an OIDC token in this environment — verifying the exchange..."@
}

pub open spec fn not_in_ci_text() -> Seq<char> {
    "Not in a CI environment with an OIDC token — configuration saved. In CI, ensure a token is available (GitHub: permissions: id-token: write · GitLab: an `id_tokens:` entry exported as "@
        + DEFAULT_GITLAB_TOKEN_ENV@ + ")."@
}

/// What follows once the settings were written: where a token can be had here, the
/// exchange is tried.
pub open spec fn after_oidc_saved(
    cfg: Config,
    workspace: Seq<char>,
    audience: Option<String>,
    path: Seq<char>,
    env: EnvVars,
) -> OidcLoginTurnView {
    let head = LineView::Stdout(configured_text(workspace, audience, path));
    match token_source(env, DEFAULT_GITLAB_TOKEN_ENV@) {
        None => OidcLoginTurnView {
            say: seq![head, LineView::Stdout(not_in_ci_text())],
            step: OidcLoginStepView::Finish(OK),
        },
        Some(a) => OidcLoginTurnView {
            say: seq![head, LineView::Stdout(detected_text())],
            step: match a {
                AvailabilityView::EnvToken { token, .. } => OidcLoginStepView::Exchange {
                    id_token: token,
                },
                AvailabilityView::GitHubEndpoint { url, request_token } =>
                    OidcLoginStepView::RequestToken {
                    url,
                    authorization: "Bearer "@ + request_token,
                    audience: Some(
                        text_or(audience, text_or(cfg.oidc_audience, DEFAULT_OIDC_AUDIENCE@)),
                    ),
                },
            },
        },
    }
}

/// Goes on with a login with workload identity after the settings were written to
/// `path`. `audience` is the one that the command line gives.
pub fn oidc_saved(
    cfg: &Config,
    workspace: &str,
    audience: &Option<String>,
    path: &str,
    env: &EnvVars,
) -> (r: OidcLoginTurn)
    ensures
        r@ == after_oidc_saved(*cfg, workspace@, *audience, path@, *env),
{
    let mut head = "Configured OIDC login for workspace ".to_owned();
    head.append(workspace);
    head.append(" (audience ");
    head.append(str_or(audience, DEFAULT_OIDC_AUDIENCE));
    head.append(") in ");
    head.append(path);
    head.append(".");
    match availability(env, DEFAULT_GITLAB_TOKEN_ENV) {
        None => {
            let mut tail =
                "Not in a CI environment with an OIDC token — configuration saved. In CI, ensure a token is available (GitHub: permissions: id-token: write · GitLab: an `id_tokens:` entry exported as ".to_owned();
            tail.append(DEFAULT_GITLAB_TOKEN_ENV);
            tail.append(").");
            let say = vec![Line::Stdout(head), Line::Stdout(tail)];
            assert(line_views(say@) =~= seq![LineView::Stdout(head@), LineView::Stdout(tail@)]);
            OidcLoginTurn { say, step: OidcLoginStep::Finish(OK) }
        },
        Some(avail) => {
            let tail =
                "Detected an OIDC token in this environment — verifying the exchange...".to_owned();
            let say = vec![Line::Stdout(head), Line::Stdout(tail)];
            assert(line_views(say@) =~= seq![LineView::Stdout(head@), LineView::Stdout(tail@)]);
            let wanted = Some(
                str_or(audience, str_or(&cfg.oidc_audience, DEFAULT_OIDC_AUDIENCE)).to_owned(),
            );
            let step = match token_step(&avail, &wanted) {
                TokenStep::Ready(id_token) => OidcLoginStep::Exchange { id_token },
                TokenStep::Request { url, authorization, audience } =>
                    OidcLoginStep::RequestToken { url, authorization, audience },
            };
            OidcLoginTurn { say, step }
        },
    }
}

/// The backend that an exchange is tried at.
pub fn oidc_login_url(cfg: &Config) -> (r: String)
    ensures
        r@ == text_or(cfg.api_url, DEFAULT_API_URL@),
{
    str_or(&cfg.api_url, DEFAULT_API_URL).to_owned()
}

/// What follows the provider's answer to a request for a token.
pub open spec fn after_login_token(token: Result<Seq<char>, ApiErrorView>) -> OidcLoginTurnView {
    match token {
        Ok(id_token) => OidcLoginTurnView {
            say: seq![],
            step: OidcLoginStepView::Exchange { id_token },
        },
        Err(e) => OidcLoginTurnView {
            say: seq![LineView::Stderr("✖ could not obtain an OIDC token: "@ + error_text(e))],
            step: OidcLoginStepView::Finish(AUTH),
        },
    }
}

/// Goes on after the provider's answer to a request for a token.
pub fn login_token(token: Result<String, ApiError>) -> (r: OidcLoginTurn)
    ensures
        r@ == after_login_token(token_view(token)),
{
    match token {
        Ok(id_token) => {
            let say: Vec<Line> = Vec::new();
            assert(line_views(say@) =~= seq![]);
            OidcLoginTurn { say, step: OidcLoginStep::Exchange { id_token } }
        },
        Err(e) => {
            let text = "✖ could not obtain an OIDC token: ".to_owned().concat(
                e.message().as_str(),
            );
            let say = vec![Line::Stderr(text)];
            assert(line_views(say@) =~= seq![LineView::Stderr(text@)]);
            OidcLoginTurn { say, step: OidcLoginStep::Finish(AUTH) }
        },
    }
}

pub open spec fn policy_hint() -> Seq<char> {
    "  Check that a trust policy for this workspace matches the token's issuer/audience/subject (dashboard → OIDC policies)."@
}

/// What follows the backend's answer to an exchange.
pub open spec fn after_login_exchange(reply: Result<OidcExchangeResult, ApiErrorView>) -> OidcLoginTurnView {
    match reply {
        Ok(_) => OidcLoginTurnView {
            say: seq![
                LineView::Stdout(
                    "✓ OIDC exchange succeeded — CI runs are ready to authenticate."@,
                ),
            ],
            step: OidcLoginStepView::Finish(OK),
        },
        Err(e) => OidcLoginTurnView {
            say: seq![
                LineView::Stderr("✖ OIDC exchange failed: "@ + error_text(e)),
                LineView::Stderr(policy_hint()),
            ],
            step: OidcLoginStepView::Finish(AUTH),
        },
    }
}

/// Ends a login with workload identity after the backend's answer to the exchange. The
/// minted key is dropped.
pub fn login_exchange(reply: Result<OidcExchangeResult, ApiError>) -> (r: OidcLoginTurn)
    ensures
        r@ == after_login_exchange(outcome_view(reply)),
{
    match reply {
        Ok(_) => {
            let text = "✓ OIDC exchange succeeded — CI runs are ready to authenticate.".to_owned();
            let say = vec![Line::Stdout(text)];
            assert(line_views(say@) =~= seq![LineView::Stdout(text@)]);
            OidcLoginTurn { say, step: OidcLoginStep::Finish(OK) }
        },
        Err(e) => {
            let text = "✖ OIDC exchange failed: ".to_owned().concat(e.message().as_str());
            let hint =
                "  Check that a trust policy for this workspace matches the token's issuer/audience/subject (dashboard → OIDC policies).".to_owned();
            let say = vec![Line::Stderr(text), Line::Stderr(hint)];
            assert(line_views(say@) =~= seq![LineView::Stderr(text@), LineView::Stderr(hint@)]);
            OidcLoginTurn { say, step: OidcLoginStep::Finish(AUTH) }
        },
    }
}

// ── Logout ────────────────────────────────────────────────────────────────────

/// What a logout comes to: settings to save, or the end of the command.
pub open spec fn logged_out(has_directory: bool, stored: bool, cfg: ConfigView) -> Result<
    ConfigView,
    StopView,
> {
    if !has_directory {
        Err(error_stop(USAGE, "could not resolve a config directory."@))
    } else if !stored {
        Err(StopView { code: OK, line: LineView::Stdout("No stored credentials."@) })
    } else if cfg.api_key is None {
        Err(StopView { code: OK, line: LineView::Stdout("No stored API key."@) })
    } else {
        Ok(ConfigView { api_key: None, ..cfg })
    }
}

/// Drops the stored key and keeps the rest. `has_directory` says whether there is a
/// place for the config file, `stored` whether it is there.
pub fn logout(has_directory: bool, stored: bool, cfg: Config) -> (r: Result<Config, Stop>)
    ensures
        config_result(r) == logged_out(has_directory, stored, cfg@),
{
    if !has_directory {
        return Err(stop_with(USAGE, "could not resolve a config directory."));
    }
    if !stored {
        return Err(Stop { code: OK, line: Line::Stdout("No stored credentials.".to_owned()) });
    }
    if cfg.api_key.is_none() {
        return Err(Stop { code: OK, line: Line::Stdout("No stored API key.".to_owned()) });
    }
    let mut cfg = cfg;
    cfg.api_key = None;
    Ok(cfg)
}

/// Ends a logout after the settings were written.
pub fn logout_saved(path: &str, written: Result<(), String>) -> (r: Stop)
    ensures
        r@ == (match written {
            Ok(_) => StopView {
                code: OK,
                line: LineView::Stdout("Removed stored API key from "@ + path@),
            },
            Err(e) => error_stop(USAGE, "could not update config: "@ + e@),
        }),
{
    match written {
        Ok(_) => Stop {
            code: OK,
            line: Line::Stdout("Removed stored API key from ".to_owned().concat(path)),
        },
        Err(e) => stop_with(
            USAGE,
            "could not update config: ".to_owned().concat(e.as_str()).as_str(),
        ),
    }
}

/// Logging out after a login leaves the settings of the login without a key, and what
/// was stored besides is kept.
pub proof fn law_logout_undoes_login(
    cfg: ConfigView,
    key: Seq<char>,
    api_url: Option<Seq<char>>,
    dialect: Option<Seq<char>>,
)
    ensures
        logged_out(true, true, keyed(cfg, key, api_url, dialect)) matches Ok(after)
            && after.api_key is None && after.workspace_id == cfg.workspace_id
            && after.oidc_audience == cfg.oidc_audience && after.api_url == first_text(
            api_url,
            cfg.api_url,
        ) && after.default_dialect == first_text(dialect, cfg.default_dialect),
{
}

} // verus!
