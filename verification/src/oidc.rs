//! CI workload-identity login.
//!
//! A job proves its identity with a short-lived token that its provider signs. GitHub
//! Actions hands it out at an address, GitLab puts it into a variable that the pipeline
//! names. Where there is no sign of either, a run falls back to a static key.
use vstd::prelude::*;
use crate::api::{is_success, success_status, ApiError, ApiErrorView, Sent};
use crate::ci_env::{env_var, EnvVars};
use crate::text::{copy_text, opt_view, trim, trimmed};

verus! {

/// The variable that is read for a pre-minted token by default.
pub const DEFAULT_GITLAB_TOKEN_ENV: &'static str = "VERICTO_ID_TOKEN";

/// How an identity token can be had here.
#[derive(Debug)]
pub enum Availability {
    /// GitHub's token address, with the token that authorises the request.
    GitHubEndpoint { url: String, request_token: String },
    /// A token that already sits in a variable.
    EnvToken { var: String, token: String },
}

pub enum AvailabilityView {
    GitHubEndpoint { url: Seq<char>, request_token: Seq<char> },
    EnvToken { var: Seq<char>, token: Seq<char> },
}

impl View for Availability {
    type V = AvailabilityView;

    open spec fn view(&self) -> AvailabilityView {
        match self {
            Availability::GitHubEndpoint { url, request_token } =>
                AvailabilityView::GitHubEndpoint { url: url@, request_token: request_token@ },
            Availability::EnvToken { var, token } => AvailabilityView::EnvToken {
                var: var@,
                token: token@,
            },
        }
    }
}

pub open spec fn availability_view(a: Option<Availability>) -> Option<AvailabilityView> {
    match a {
        Some(v) => Some(v@),
        None => None,
    }
}

/// How a token can be had: GitHub's address comes first, since it gives a fresh token
/// with the audience that is asked for.
pub open spec fn token_source(env: EnvVars, token_env: Seq<char>) -> Option<AvailabilityView> {
    match (
        env.text("ACTIONS_ID_TOKEN_REQUEST_URL"@),
        env.text("ACTIONS_ID_TOKEN_REQUEST_TOKEN"@),
    ) {
        (Some(url), Some(request_token)) => Some(
            AvailabilityView::GitHubEndpoint { url, request_token },
        ),
        _ => match env.text(token_env) {
            Some(token) => Some(AvailabilityView::EnvToken { var: token_env, token }),
            None => None,
        },
    }
}

/// Detects whether an identity token can be had here, and how. `token_env` is the
/// variable to look at for a pre-minted one.
pub fn availability(env: &EnvVars, token_env: &str) -> (r: Option<Availability>)
    ensures
        availability_view(r) == token_source(*env, token_env@),
{
    let url = env_var(env, "ACTIONS_ID_TOKEN_REQUEST_URL");
    let request_token = env_var(env, "ACTIONS_ID_TOKEN_REQUEST_TOKEN");
    match (url, request_token) {
        (Some(url), Some(request_token)) => Some(
            Availability::GitHubEndpoint { url, request_token },
        ),
        _ => match env_var(env, token_env) {
            Some(token) => Some(Availability::EnvToken { var: token_env.to_owned(), token }),
            None => None,
        },
    }
}

/// How to get the token.
#[derive(Debug)]
pub enum TokenStep {
    /// It is there.
    Ready(String),
    /// It has to be asked for.
    Request { url: String, authorization: String, audience: Option<String> },
}

/// How to get the token: one in a variable is used as it stands, its audience having
/// been fixed when it was minted; else GitHub is asked for one with the given audience.
pub fn token_step(avail: &Availability, audience: &Option<String>) -> (r: TokenStep)
    ensures
        match avail {
            Availability::EnvToken { token, .. } => r matches TokenStep::Ready(t) && t@ == token@,
            Availability::GitHubEndpoint { url, request_token } => r matches TokenStep::Request {
                url: u,
                authorization: a,
                audience: w,
            } && u@ == url@ && a@ == "Bearer "@ + request_token@ && opt_view(w) == opt_view(
                *audience,
            ),
        },
{
    match avail {
        Availability::EnvToken { token, .. } => TokenStep::Ready(token.clone()),
        Availability::GitHubEndpoint { url, request_token } => TokenStep::Request {
            url: url.clone(),
            authorization: "Bearer ".to_owned().concat(request_token.as_str()),
            audience: copy_text(audience),
        },
    }
}

/// What GitHub's answer to a token request means.
pub open spec fn token_answer(sent: Sent<String>) -> Result<Seq<char>, ApiErrorView> {
    match sent {
        Sent::Unreachable(e) => Err(ApiErrorView::Transport(e@)),
        Sent::Answered { status, body, decoded } => if !is_success(status) {
            Err(
                ApiErrorView::Backend {
                    status,
                    message: "GitHub OIDC token request failed: "@ + trim(body@),
                },
            )
        } else {
            match decoded {
                Err(e) => Err(
                    ApiErrorView::Backend {
                        status,
                        message: "invalid GitHub OIDC token body: "@ + e@,
                    },
                ),
                Ok(value) => if trim(value@).len() == 0 {
                    Err(
                        ApiErrorView::Backend {
                            status,
                            message: "GitHub OIDC token endpoint returned an empty value"@,
                        },
                    )
                } else {
                    Ok(trim(value@))
                },
            }
        },
    }
}

pub open spec fn token_view(r: Result<String, ApiError>) -> Result<Seq<char>, ApiErrorView> {
    match r {
        Ok(t) => Ok(t@),
        Err(e) => Err(e@),
    }
}

/// What GitHub's answer to a token request means: the token, or why there is none.
pub fn fetch_token(sent: Sent<String>) -> (r: Result<String, ApiError>)
    ensures
        token_view(r) == token_answer(sent),
{
    match sent {
        Sent::Unreachable(e) => Err(ApiError::Transport(e)),
        Sent::Answered { status, body, decoded } => {
            if !success_status(status) {
                return Err(
                    ApiError::Backend {
                        status,
                        message: "GitHub OIDC token request failed: ".to_owned().concat(
                            trimmed(body.as_str()).as_str(),
                        ),
                    },
                );
            }
            match decoded {
                Err(e) => Err(
                    ApiError::Backend {
                        status,
                        message: "invalid GitHub OIDC token body: ".to_owned().concat(e.as_str()),
                    },
                ),
                Ok(value) => {
                    let token = trimmed(value.as_str());
                    if token.as_str().unicode_len() == 0 {
                        return Err(
                            ApiError::Backend {
                                status,
                                message: "GitHub OIDC token endpoint returned an empty value".to_owned(),
                            },
                        );
                    }
                    Ok(token)
                },
            }
        },
    }
}

} // verus!
