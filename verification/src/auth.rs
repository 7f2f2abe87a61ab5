//! How a command authenticates: with a static key, or with a short-lived key that is
//! minted for a CI identity token. Requests are made by the caller; the functions here
//! say what to do next.
use vstd::prelude::*;
use crate::api::{error_text, outcome_view, ApiError, ApiErrorView, OidcExchangeResult};
use crate::ci_env::EnvVars;
use crate::config::{Config, KeySource, ProjectConfig, DEFAULT_OIDC_AUDIENCE};
use crate::exit::{error_stop, stop_with, Stop, StopView, AUTH, BACKEND};
use crate::oidc::{availability, token_source, token_step, token_view, Availability, AvailabilityView, TokenStep, DEFAULT_GITLAB_TOKEN_ENV};
use crate::text::{copy_text, first_text, opt_view, str_or, text_or};

verus! {

/// What the command line says about workload identity.
#[derive(Debug)]
pub struct OidcOpts {
    /// An identity token is required, not only a fallback.
    pub forced: bool,
    pub workspace: Option<String>,
    pub audience: Option<String>,
    pub token_env: Option<String>,
}

/// How the key was obtained.
#[derive(Debug)]
pub enum AuthMode {
    Static(KeySource),
    Oidc { source: String, policy_id: Option<String> },
}

pub enum AuthModeView {
    Static(KeySource),
    Oidc { source: Seq<char>, policy_id: Option<Seq<char>> },
}

impl View for AuthMode {
    type V = AuthModeView;

    open spec fn view(&self) -> AuthModeView {
        match self {
            AuthMode::Static(s) => AuthModeView::Static(*s),
            AuthMode::Oidc { source, policy_id } => AuthModeView::Oidc {
                source: source@,
                policy_id: opt_view(*policy_id),
            },
        }
    }
}

/// A login that is under way: the workspace that the token is exchanged for, and where
/// the token comes from.
#[derive(Debug)]
pub struct AuthRun {
    pub workspace: String,
    pub source: String,
}

pub struct AuthRunView {
    pub workspace: Seq<char>,
    pub source: Seq<char>,
}

impl View for AuthRun {
    type V = AuthRunView;

    open spec fn view(&self) -> AuthRunView {
        AuthRunView { workspace: self.workspace@, source: self.source@ }
    }
}

/// What to do next in a login.
#[derive(Debug)]
pub enum AuthStep {
    /// There is a key; the note, if any, is for standard error.
    Done { key: String, mode: AuthMode, note: Option<String> },
    /// Ask the provider for an identity token.
    RequestToken {
        run: AuthRun,
        url: String,
        authorization: String,
        audience: Option<String>,
    },
    /// Exchange the identity token for a key.
    Exchange { run: AuthRun, id_token: String },
    Failed(Stop),
}

pub enum AuthStepView {
    Done { key: Seq<char>, mode: AuthModeView, note: Option<Seq<char>> },
    RequestToken {
        run: AuthRunView,
        url: Seq<char>,
        authorization: Seq<char>,
        audience: Option<Seq<char>>,
    },
    Exchange { run: AuthRunView, id_token: Seq<char> },
    Failed(StopView),
}

impl View for AuthStep {
    type V = AuthStepView;

    open spec fn view(&self) -> AuthStepView {
        match self {
            AuthStep::Done { key, mode, note } => AuthStepView::Done {
                key: key@,
                mode: mode@,
                note: opt_view(*note),
            },
            AuthStep::RequestToken { run, url, authorization, audience } =>
                AuthStepView::RequestToken {
                run: run@,
                url: url@,
                authorization: authorization@,
                audience: opt_view(*audience),
            },
            AuthStep::Exchange { run, id_token } => AuthStepView::Exchange {
                run: run@,
                id_token: id_token@,
            },
            AuthStep::Failed(s) => AuthStepView::Failed(s@),
        }
    }
}

/// The variable to look at for a pre-minted token: flag, project file, default.
pub open spec fn token_env_of(opts: OidcOpts, project: ProjectConfig) -> Seq<char> {
    text_or(opts.token_env, text_or(project.oidc_token_env, DEFAULT_GITLAB_TOKEN_ENV@))
}

/// The workspace of an exchange: flag, project file, user's config.
pub open spec fn workspace_of(opts: OidcOpts, project: ProjectConfig, file: Config) -> Option<
    Seq<char>,
> {
    first_text(
        opt_view(opts.workspace),
        first_text(opt_view(project.workspace_id), opt_view(file.workspace_id)),
    )
}

/// The audience of the identity token: flag, project file, user's config, default.
pub open spec fn audience_of(opts: OidcOpts, project: ProjectConfig, file: Config) -> Seq<char> {
    text_or(
        opts.audience,
        text_or(project.oidc_audience, text_or(file.oidc_audience, DEFAULT_OIDC_AUDIENCE@)),
    )
}

/// Where a token comes from, for diagnostics.
pub open spec fn source_name(a: AvailabilityView) -> Seq<char> {
    match a {
        AvailabilityView::GitHubEndpoint { .. } => "github-actions"@,
        AvailabilityView::EnvToken { var, .. } => "env:"@ + var,
    }
}

pub open spec fn no_token_text(forced: bool, token_env: Seq<char>) -> Seq<char> {
    if forced {
        "--oidc requested but no OIDC token is available. Run inside GitHub Actions (permissions: id-token: write) or GitLab CI with an `id_tokens:` entry exported as "@
            + token_env + "."@
    } else {
        "no API key and no OIDC token. Pass --api-key, set VERICTO_API_KEY, run `vericto login`, or run in CI with workload-identity (§6.1)."@
    }
}

pub open spec fn no_workspace_text() -> Seq<char> {
    "OIDC login needs a workspace. Pass --workspace <id>, set VERICTO_WORKSPACE_ID, or add workspace_id to .vericto.toml / `vericto login --oidc`."@
}

/// How a login begins. A static key wins unless workload identity is asked for; else
/// a token is needed, and a workspace to exchange it for.
pub open spec fn auth_begin(
    static_key: Option<Seq<char>>,
    static_source: KeySource,
    opts: OidcOpts,
    project: ProjectConfig,
    file: Config,
    env: EnvVars,
) -> AuthStepView {
    if static_key is Some && !opts.forced {
        AuthStepView::Done {
            key: static_key->Some_0,
            mode: AuthModeView::Static(static_source),
            note: None,
        }
    } else {
        match token_source(env, token_env_of(opts, project)) {
            None => AuthStepView::Failed(
                error_stop(AUTH, no_token_text(opts.forced, token_env_of(opts, project))),
            ),
            Some(avail) => match workspace_of(opts, project, file) {
                None => AuthStepView::Failed(error_stop(AUTH, no_workspace_text())),
                Some(workspace) => {
                    let run = AuthRunView { workspace, source: source_name(avail) };
                    match avail {
                        AvailabilityView::EnvToken { token, .. } => AuthStepView::Exchange {
                            run,
                            id_token: token,
                        },
                        AvailabilityView::GitHubEndpoint { url, request_token } =>
                            AuthStepView::RequestToken {
                            run,
                            url,
                            authorization: "Bearer "@ + request_token,
                            audience: Some(audience_of(opts, project, file)),
                        },
                    }
                },
            },
        }
    }
}

fn first_of(a: &Option<String>, b: &Option<String>, c: &Option<String>) -> (r: Option<String>)
    ensures
        opt_view(r) == first_text(opt_view(*a), first_text(opt_view(*b), opt_view(*c))),
{
    if a.is_some() {
        copy_text(a)
    } else if b.is_some() {
        copy_text(b)
    } else {
        copy_text(c)
    }
}

/// Begins a login.
pub fn resolve_auth(
    static_key: Option<String>,
    static_source: KeySource,
    opts: &OidcOpts,
    project: &ProjectConfig,
    file: &Config,
    env: &EnvVars,
) -> (r: AuthStep)
    ensures
        r@ == auth_begin(opt_view(static_key), static_source, *opts, *project, *file, *env),
{
    if let Some(key) = static_key {
        if !opts.forced {
            return AuthStep::Done { key, mode: AuthMode::Static(static_source), note: None };
        }
    }
    let token_env = str_or(&opts.token_env, str_or(&project.oidc_token_env, DEFAULT_GITLAB_TOKEN_ENV));
    let avail = match availability(env, token_env) {
        Some(a) => a,
        None => {
            if opts.forced {
                let mut message =
                    "--oidc requested but no OIDC token is available. Run inside GitHub Actions (permissions: id-token: write) or GitLab CI with an `id_tokens:` entry exported as ".to_owned();
                message.append(token_env);
                message.append(".");
                return AuthStep::Failed(stop_with(AUTH, message.as_str()));
            }
            return AuthStep::Failed(
                stop_with(
                    AUTH,
                    "no API key and no OIDC token. Pass --api-key, set VERICTO_API_KEY, run `vericto login`, or run in CI with workload-identity (§6.1).",
                ),
            );
        },
    };
    let workspace = match first_of(&opts.workspace, &project.workspace_id, &file.workspace_id) {
        Some(w) => w,
        None => {
            return AuthStep::Failed(
                stop_with(
                    AUTH,
                    "OIDC login needs a workspace. Pass --workspace <id>, set VERICTO_WORKSPACE_ID, or add workspace_id to .vericto.toml / `vericto login --oidc`.",
                ),
            );
        },
    };
    let audience = Some(
        str_or(
            &opts.audience,
            str_or(&project.oidc_audience, str_or(&file.oidc_audience, DEFAULT_OIDC_AUDIENCE)),
        ).to_owned(),
    );
    let source = match &avail {
        Availability::GitHubEndpoint { .. } => "github-actions".to_owned(),
        Availability::EnvToken { var, .. } => "env:".to_owned().concat(var.as_str()),
    };
    let run = AuthRun { workspace, source };
    match token_step(&avail, &audience) {
        TokenStep::Ready(id_token) => AuthStep::Exchange { run, id_token },
        TokenStep::Request { url, authorization, audience } => AuthStep::RequestToken {
            run,
            url,
            authorization,
            audience,
        },
    }
}

/// What follows a request for an identity token.
pub open spec fn after_token(run: AuthRunView, token: Result<Seq<char>, ApiErrorView>) -> AuthStepView {
    match token {
        Ok(id_token) => AuthStepView::Exchange { run, id_token },
        Err(e) => AuthStepView::Failed(
            error_stop(AUTH, "could not obtain an OIDC ID token: "@ + error_text(e)),
        ),
    }
}

/// Goes on with a login after the provider's answer.
pub fn on_token(run: AuthRun, token: Result<String, ApiError>) -> (r: AuthStep)
    ensures
        r@ == after_token(run@, token_view(token)),
{
    match token {
        Ok(id_token) => AuthStep::Exchange { run, id_token },
        Err(e) => AuthStep::Failed(
            stop_with(
                AUTH,
                "could not obtain an OIDC ID token: ".to_owned().concat(
                    e.message().as_str(),
                ).as_str(),
            ),
        ),
    }
}

/// The exit code for a call that failed: authentication, or else the backend.
pub open spec fn failure_code(e: ApiErrorView) -> u8 {
    if e is Auth {
        AUTH
    } else {
        BACKEND
    }
}

pub fn exit_code_of(e: &ApiError) -> (r: u8)
    ensures
        r == failure_code(e@),
{
    match e {
        ApiError::Auth(_) => AUTH,
        _ => BACKEND,
    }
}

pub open spec fn minted_note(source: Seq<char>, expires_at: Option<Seq<char>>) -> Seq<char> {
    "note: authenticated via OIDC ("@ + source + "); minted a short-lived key"@ + (
    match expires_at {
        Some(e) => " (expires "@ + e + ")"@,
        None => seq![],
    }) + "."@
}

/// What follows the exchange of an identity token.
pub open spec fn after_exchange(
    run: AuthRunView,
    reply: Result<OidcExchangeResult, ApiErrorView>,
) -> AuthStepView {
    match reply {
        Ok(res) => AuthStepView::Done {
            key: res.api_key@,
            mode: AuthModeView::Oidc { source: run.source, policy_id: opt_view(res.policy_id) },
            note: Some(minted_note(run.source, opt_view(res.expires_at))),
        },
        Err(e) => AuthStepView::Failed(
            error_stop(failure_code(e), "OIDC token exchange failed: "@ + error_text(e)),
        ),
    }
}

/// Ends a login after the backend's answer to the exchange.
pub fn on_exchange(run: AuthRun, reply: Result<OidcExchangeResult, ApiError>) -> (r: AuthStep)
    ensures
        r@ == after_exchange(run@, outcome_view(reply)),
{
    match reply {
        Ok(res) => {
            let mut note = "note: authenticated via OIDC (".to_owned();
            note.append(run.source.as_str());
            note.append("); minted a short-lived key");
            let expires = match &res.expires_at {
                Some(e) => {
                    let mut text = " (expires ".to_owned();
                    text.append(e.as_str());
                    text.append(")");
                    text
                },
                None => String::new(),
            };
            note.append(expires.as_str());
            note.append(".");
            AuthStep::Done {
                key: res.api_key,
                mode: AuthMode::Oidc { source: run.source, policy_id: res.policy_id },
                note: Some(note),
            }
        },
        Err(e) => AuthStep::Failed(
            stop_with(
                exit_code_of(&e),
                "OIDC token exchange failed: ".to_owned().concat(e.message().as_str()).as_str(),
            ),
        ),
    }
}

/// A static key is used as it stands unless workload identity is asked for, and without
/// a key and without a token a login ends with the code for authentication.
pub proof fn law_static_key_wins_unless_forced(
    static_key: Option<Seq<char>>,
    source: KeySource,
    opts: OidcOpts,
    project: ProjectConfig,
    file: Config,
    env: EnvVars,
)
    ensures
        static_key is Some && !opts.forced ==> auth_begin(
            static_key,
            source,
            opts,
            project,
            file,
            env,
        ) == (AuthStepView::Done {
            key: static_key->Some_0,
            mode: AuthModeView::Static(source),
            note: None,
        }),
        opts.forced ==> !(auth_begin(static_key, source, opts, project, file, env) is Done),
        static_key is None && token_source(env, token_env_of(opts, project)) is None ==> (
        auth_begin(static_key, source, opts, project, file, env) matches AuthStepView::Failed(s)
            && s.code == AUTH),
{
}

} // verus!
