//! CI environment detection: provider, base ref and git provenance.
//!
//! The environment and the output of git are handed in as plain values. Detection is
//! best-effort: what is missing is `None`, never an error, so that a run is the same on
//! a laptop and in CI.
use vstd::prelude::*;
use crate::text::{first_text, lines, lossy_text, nonblank, nonblank_lines, occurs_at, opt_view, same_text, slice_text, stands_at, text_of, text_views, to_chars, trim, trimmed};

verus! {

/// The environment variables of the process.
#[derive(Debug)]
pub struct EnvVars {
    pub vars: Vec<(String, String)>,
}

/// What a command printed, and whether it succeeded.
#[derive(Debug)]
pub struct CommandOutput {
    pub success: bool,
    pub stdout: Vec<u8>,
    pub stderr: Vec<u8>,
}

/// What git printed about the repository; `None` where it could not be run.
#[derive(Debug)]
pub struct GitOutputs {
    /// `git rev-parse HEAD`
    pub head: Option<CommandOutput>,
    /// `git symbolic-ref --quiet HEAD`
    pub symbolic_head: Option<CommandOutput>,
    /// `git symbolic-ref refs/remotes/origin/HEAD`
    pub origin_head: Option<CommandOutput>,
}

/// Which CI provider, if any, the run is under.
#[derive(Clone, Copy, Debug, PartialEq, Eq, Structural)]
pub enum Provider {
    GitHub,
    GitLab,
    Local,
}

/// Git and CI provenance of a run.
#[derive(Debug)]
pub struct Provenance {
    pub git_sha: Option<String>,
    pub git_ref: Option<String>,
    pub ci_provider: &'static str,
    pub ci_run_url: Option<String>,
    pub actor: Option<String>,
}

// ── Environment ───────────────────────────────────────────────────────────────

/// The value of a variable.
pub open spec fn env_value(vars: Seq<(String, String)>, key: Seq<char>) -> Option<Seq<char>>
    decreases vars.len(),
{
    if vars.len() == 0 {
        None
    } else if vars[0].0@ == key {
        Some(vars[0].1@)
    } else {
        env_value(vars.drop_first(), key)
    }
}

pub open spec fn nonempty_trimmed(o: Option<Seq<char>>) -> Option<Seq<char>> {
    match o {
        Some(v) => if trim(v).len() > 0 {
            Some(trim(v))
        } else {
            None
        },
        None => None,
    }
}

impl EnvVars {
    /// The value of a variable without white space at its ends, unless that is empty.
    pub open spec fn text(self, key: Seq<char>) -> Option<Seq<char>> {
        nonempty_trimmed(env_value(self.vars@, key))
    }
}

/// A text without white space at its ends, unless that is empty.
fn keep_nonempty(s: &str) -> (r: Option<String>)
    ensures
        opt_view(r) == nonempty_trimmed(Some(s@)),
{
    let t = trimmed(s);
    if t.as_str().unicode_len() > 0 {
        Some(t)
    } else {
        None
    }
}

/// Reads a variable that is not empty, without white space at its ends.
pub fn env_var(env: &EnvVars, key: &str) -> (r: Option<String>)
    ensures
        opt_view(r) == env.text(key@),
{
    let mut i: usize = 0;
    assert(env.vars@.skip(0) =~= env.vars@);
    while i < env.vars.len()
        invariant
            i <= env.vars@.len(),
            env_value(env.vars@, key@) == env_value(env.vars@.skip(i as int), key@),
        decreases env.vars@.len() - i,
    {
        if same_text(env.vars[i].0.as_str(), key) {
            return keep_nonempty(env.vars[i].1.as_str());
        }
        assert(env.vars@.skip(i as int).drop_first() =~= env.vars@.skip(i + 1));
        i = i + 1;
    }
    None
}

/// Whether a variable is there and not empty.
pub fn env_present(env: &EnvVars, key: &str) -> (r: bool)
    ensures
        r == env.text(key@) is Some,
{
    env_var(env, key).is_some()
}

// ── Git ───────────────────────────────────────────────────────────────────────

/// What a command printed, where it succeeded and printed anything.
pub open spec fn printed(out: Option<CommandOutput>) -> Option<Seq<char>> {
    match out {
        Some(o) => if o.success {
            nonempty_trimmed(Some(text_of(o.stdout@)))
        } else {
            None
        },
        None => None,
    }
}

/// What a git command printed, where it succeeded and printed anything.
pub fn git(out: &Option<CommandOutput>) -> (r: Option<String>)
    ensures
        opt_view(r) == printed(*out),
{
    match out {
        Some(o) => if o.success {
            keep_nonempty(lossy_text(o.stdout.as_slice()).as_str())
        } else {
            None
        },
        None => None,
    }
}

/// What stands behind the last `c`, or the whole text where there is none.
pub open spec fn behind_last(s: Seq<char>, c: char) -> Seq<char>
    decreases s.len(),
{
    if s.len() == 0 || s.last() == c {
        seq![]
    } else {
        behind_last(s.drop_last(), c).push(s.last())
    }
}

/// The default branch of the remote, as its symbolic head names it: what stands behind
/// `refs/remotes/`, which may hold further slashes. Of any other name the last part is
/// taken for a branch of `origin`.
pub open spec fn default_branch(origin_head: Option<Seq<char>>) -> Option<Seq<char>> {
    match origin_head {
        Some(full) => if occurs_at(full, 0, "refs/remotes/"@) {
            Some(full.skip("refs/remotes/"@.len() as int))
        } else {
            Some("origin/"@ + behind_last(full, '/'))
        },
        None => None,
    }
}

/// The default branch, e.g. `origin/main`, from what git printed for the remote's head.
pub fn default_branch_ref(origin_head: &Option<CommandOutput>) -> (r: Option<String>)
    ensures
        opt_view(r) == default_branch(printed(*origin_head)),
{
    match git(origin_head) {
        Some(full) => {
            let cs = to_chars(full.as_str());
            let remotes = to_chars("refs/remotes/");
            if stands_at(cs.as_slice(), 0, remotes.as_slice()) {
                assert(cs@.subrange(remotes@.len() as int, cs@.len() as int) =~= cs@.skip(
                    remotes@.len() as int,
                ));
                return Some(slice_text(cs.as_slice(), remotes.len(), cs.len()));
            }
            let mut i: usize = cs.len();
            assert(cs@.take(i as int) =~= cs@);
            assert(behind_last(cs@, '/') =~= behind_last(cs@, '/') + cs@.skip(i as int));
            while i > 0 && cs[i - 1] != '/'
                invariant
                    i <= cs@.len(),
                    behind_last(cs@, '/') == behind_last(cs@.take(i as int), '/') + cs@.skip(
                        i as int,
                    ),
                decreases i,
            {
                proof {
                    assert(cs@.take(i as int).drop_last() =~= cs@.take(i - 1));
                    assert(cs@.take(i as int).last() == cs@[i - 1]);
                    assert(behind_last(cs@.take(i - 1), '/') + cs@.skip(i - 1) =~= behind_last(
                        cs@.take(i as int),
                        '/',
                    ) + cs@.skip(i as int));
                }
                i = i - 1;
            }
            proof {
                if i > 0 {
                    assert(cs@.take(i as int).last() == cs@[i - 1]);
                }
                assert(behind_last(cs@, '/') =~= cs@.skip(i as int));
                assert(cs@.subrange(i as int, cs@.len() as int) =~= cs@.skip(i as int));
            }
            Some(
                "origin/".to_owned().concat(slice_text(cs.as_slice(), i, cs.len()).as_str()),
            )
        },
        None => None,
    }
}

// ── Detection ─────────────────────────────────────────────────────────────────

pub open spec fn provider_in(env: EnvVars) -> Provider {
    if env.text("GITHUB_ACTIONS"@) is Some {
        Provider::GitHub
    } else if env.text("GITLAB_CI"@) is Some {
        Provider::GitLab
    } else {
        Provider::Local
    }
}

pub open spec fn provider_name(p: Provider) -> Seq<char> {
    match p {
        Provider::GitHub => "github"@,
        Provider::GitLab => "gitlab"@,
        Provider::Local => "local"@,
    }
}

impl Provider {
    /// The name that provenance records.
    pub fn as_str(self) -> (r: &'static str)
        ensures
            r@ == provider_name(self),
    {
        match self {
            Provider::GitHub => "github",
            Provider::GitLab => "gitlab",
            Provider::Local => "local",
        }
    }

    /// Detects the provider from the environment.
    pub fn detect(env: &EnvVars) -> (r: Provider)
        ensures
            r == provider_in(*env),
    {
        if env_present(env, "GITHUB_ACTIONS") {
            Provider::GitHub
        } else if env_present(env, "GITLAB_CI") {
            Provider::GitLab
        } else {
            Provider::Local
        }
    }
}

pub open spec fn remote_branch(name: Option<Seq<char>>) -> Option<Seq<char>> {
    match name {
        Some(b) => Some("origin/"@ + b),
        None => None,
    }
}

/// The ref to compare with: the target branch of the pull or merge request, else the
/// default branch of the remote.
pub open spec fn base_ref(p: Provider, env: EnvVars, origin_head: Option<Seq<char>>) -> Option<
    Seq<char>,
> {
    first_text(
        match p {
            Provider::GitHub => remote_branch(env.text("GITHUB_BASE_REF"@)),
            Provider::GitLab => remote_branch(env.text("CI_MERGE_REQUEST_TARGET_BRANCH_NAME"@)),
            Provider::Local => None,
        },
        default_branch(origin_head),
    )
}

/// The ref to compare with for a run over changed files.
pub fn detected_base_ref(
    provider: Provider,
    env: &EnvVars,
    origin_head: &Option<CommandOutput>,
) -> (r: Option<String>)
    ensures
        opt_view(r) == base_ref(provider, *env, printed(*origin_head)),
{
    let target = match provider {
        Provider::GitHub => env_var(env, "GITHUB_BASE_REF"),
        Provider::GitLab => env_var(env, "CI_MERGE_REQUEST_TARGET_BRANCH_NAME"),
        Provider::Local => None,
    };
    match target {
        Some(b) => Some("origin/".to_owned().concat(b.as_str())),
        None => default_branch_ref(origin_head),
    }
}

/// The range of a diff against `base`: from the merge base on, as a pull request shows.
pub fn diff_range(base: &str) -> (r: String)
    ensures
        r@ == base@ + "...HEAD"@,
{
    base.to_owned().concat("...HEAD")
}

pub open spec fn names_view(r: Result<Vec<String>, String>) -> Result<Seq<Seq<char>>, Seq<char>> {
    match r {
        Ok(v) => Ok(text_views(v@)),
        Err(e) => Err(e@),
    }
}

/// The files that a diff against `base` names, or why there is no diff.
pub open spec fn changed_files(base: Seq<char>, run: Result<CommandOutput, String>) -> Result<
    Seq<Seq<char>>,
    Seq<char>,
> {
    match run {
        Err(e) => Err("could not run git: "@ + e@),
        Ok(out) => if out.success {
            Ok(nonblank(lines(text_of(out.stdout@))))
        } else {
            Err("git diff against '"@ + base + "' failed: "@ + trim(text_of(out.stderr@)))
        },
    }
}

/// Reads what a diff against `base` printed: the names of the changed SQL files. A
/// failure of git is an error, so that a run does not silently check nothing.
pub fn changed_sql_files(base: &str, run: &Result<CommandOutput, String>) -> (r: Result<
    Vec<String>,
    String,
>)
    ensures
        names_view(r) == changed_files(base@, *run),
{
    match run {
        Err(e) => Err("could not run git: ".to_owned().concat(e.as_str())),
        Ok(out) => {
            if out.success {
                return Ok(nonblank_lines(lossy_text(out.stdout.as_slice()).as_str()));
            }
            let mut message = "git diff against '".to_owned();
            message.append(base);
            message.append("' failed: ");
            message.append(trimmed(lossy_text(out.stderr.as_slice()).as_str()).as_str());
            Err(message)
        },
    }
}

pub open spec fn ref_of(p: Provider, env: EnvVars, symbolic_head: Option<Seq<char>>) -> Option<
    Seq<char>,
> {
    first_text(
        match p {
            Provider::GitHub => env.text("GITHUB_REF"@),
            Provider::GitLab => env.text("CI_COMMIT_REF_NAME"@),
            Provider::Local => None,
        },
        symbolic_head,
    )
}

/// The branch or ref: what the provider names, which is accurate on a detached
/// checkout, else what git names.
pub fn git_ref(provider: Provider, env: &EnvVars, symbolic_head: &Option<CommandOutput>) -> (r:
    Option<String>)
    ensures
        opt_view(r) == ref_of(provider, *env, printed(*symbolic_head)),
{
    let named = match provider {
        Provider::GitHub => env_var(env, "GITHUB_REF"),
        Provider::GitLab => env_var(env, "CI_COMMIT_REF_NAME"),
        Provider::Local => None,
    };
    match named {
        Some(v) => Some(v),
        None => git(symbolic_head),
    }
}

pub open spec fn actor_of(p: Provider, env: EnvVars) -> Option<Seq<char>> {
    match p {
        Provider::GitHub => env.text("GITHUB_ACTOR"@),
        Provider::GitLab => env.text("GITLAB_USER_LOGIN"@),
        Provider::Local => None,
    }
}

/// The user name that triggered the run.
pub fn actor(provider: Provider, env: &EnvVars) -> (r: Option<String>)
    ensures
        opt_view(r) == actor_of(provider, *env),
{
    match provider {
        Provider::GitHub => env_var(env, "GITHUB_ACTOR"),
        Provider::GitLab => env_var(env, "GITLAB_USER_LOGIN"),
        Provider::Local => None,
    }
}

pub open spec fn run_url_of(p: Provider, env: EnvVars) -> Option<Seq<char>> {
    match p {
        Provider::GitHub => match (
            env.text("GITHUB_SERVER_URL"@),
            env.text("GITHUB_REPOSITORY"@),
            env.text("GITHUB_RUN_ID"@),
        ) {
            (Some(server), Some(repo), Some(id)) => Some(
                server + "/"@ + repo + "/actions/runs/"@ + id,
            ),
            _ => None,
        },
        Provider::GitLab => env.text("CI_JOB_URL"@),
        Provider::Local => None,
    }
}

/// The address of the CI run.
pub fn run_url(provider: Provider, env: &EnvVars) -> (r: Option<String>)
    ensures
        opt_view(r) == run_url_of(provider, *env),
{
    match provider {
        Provider::GitHub => {
            let server = env_var(env, "GITHUB_SERVER_URL");
            let repo = env_var(env, "GITHUB_REPOSITORY");
            let id = env_var(env, "GITHUB_RUN_ID");
            match (server, repo, id) {
                (Some(server), Some(repo), Some(id)) => {
                    let mut out = server;
                    out.append("/");
                    out.append(repo.as_str());
                    out.append("/actions/runs/");
                    out.append(id.as_str());
                    Some(out)
                },
                _ => None,
            }
        },
        Provider::GitLab => env_var(env, "CI_JOB_URL"),
        Provider::Local => None,
    }
}

/// Whether `r` is the provenance of a run.
pub open spec fn is_provenance(r: Provenance, env: EnvVars, outputs: GitOutputs) -> bool {
    &&& opt_view(r.git_sha) == printed(outputs.head)
    &&& opt_view(r.git_ref) == ref_of(provider_in(env), env, printed(outputs.symbolic_head))
    &&& r.ci_provider@ == provider_name(provider_in(env))
    &&& opt_view(r.ci_run_url) == run_url_of(provider_in(env), env)
    &&& opt_view(r.actor) == actor_of(provider_in(env), env)
}

/// Collects the provenance of a run.
pub fn collect_provenance(env: &EnvVars, outputs: &GitOutputs) -> (r: Provenance)
    ensures
        is_provenance(r, *env, *outputs),
{
    let provider = Provider::detect(env);
    Provenance {
        git_sha: git(&outputs.head),
        git_ref: git_ref(provider, env, &outputs.symbolic_head),
        ci_provider: provider.as_str(),
        ci_run_url: run_url(provider, env),
        actor: actor(provider, env),
    }
}

/// Whether `r` is the provenance that a request carries.
pub open spec fn is_sent_provenance(r: Option<crate::api::Provenance>, p: Provenance) -> bool {
    match r {
        Some(v) => (p.git_sha is Some || p.git_ref is Some || p.ci_run_url is Some || p.actor
            is Some) && v.git_sha == p.git_sha && v.git_ref == p.git_ref && v.ci_provider@
            == p.ci_provider@ && v.ci_run_url == p.ci_run_url && v.actor == p.actor,
        None => p.git_sha is None && p.git_ref is None && p.ci_run_url is None && p.actor is None,
    }
}

/// The provenance that a request carries. A provider alone is not worth sending.
pub fn build_provenance(p: Provenance) -> (r: Option<crate::api::Provenance>)
    ensures
        is_sent_provenance(r, p),
{
    if p.git_sha.is_none() && p.git_ref.is_none() && p.ci_run_url.is_none() && p.actor.is_none() {
        return None;
    }
    Some(
        crate::api::Provenance {
            git_sha: p.git_sha,
            git_ref: p.git_ref,
            ci_provider: p.ci_provider.to_owned(),
            ci_run_url: p.ci_run_url,
            actor: p.actor,
        },
    )
}

} // verus!
