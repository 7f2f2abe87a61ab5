//! Where a run takes its settings, its key and its provenance from.
use vstd::prelude::*;
use crate::api::{ApiErrorView, OidcExchangeResult, Sent};
use crate::auth::{after_exchange, after_token, audience_of, auth_begin, token_env_of, workspace_of, AuthModeView, AuthRunView, AuthStepView, OidcOpts};
use crate::ci_env::{base_ref, behind_last, changed_files, default_branch, env_value, is_provenance, is_sent_provenance, printed, provider_in, CommandOutput, EnvVars, GitOutputs, Provenance, Provider};
use crate::config::{checked_project, is_resolved, Config, FileRead, KeySource, ProjectConfig, Resolved};
use crate::oidc::token_answer;
use crate::text::{lines, opt_view, text_of, trim};

verus! {

// ── Variables ─────────────────────────────────────────────────────────────────

/// Whether the first variable with this name has the value.
pub open spec fn is_value(env: EnvVars, key: Seq<char>, value: Seq<char>) -> bool {
    exists|k: int|
        0 <= k < env.vars@.len() && (#[trigger] env.vars@[k]).0@ == key && env.vars@[k].1@ == value
            && forall|j: int| 0 <= j < k ==> (#[trigger] env.vars@[j]).0@ != key
}

proof fn lemma_env_value(vars: Seq<(String, String)>, key: Seq<char>)
    ensures
        env_value(vars, key) matches Some(v) ==> exists|k: int|
            0 <= k < vars.len() && (#[trigger] vars[k]).0@ == key && vars[k].1@ == v && forall|
                j: int,
            |
                0 <= j < k ==> (#[trigger] vars[j]).0@ != key,
        env_value(vars, key) is None ==> forall|j: int|
            0 <= j < vars.len() ==> (#[trigger] vars[j]).0@ != key,
    decreases vars.len(),
{
    if vars.len() > 0 && vars[0].0@ != key {
        let rest = vars.drop_first();
        lemma_env_value(rest, key);
        assert(forall|j: int| 0 <= j < rest.len() ==> rest[j] == vars[j + 1]);
        if let Some(v) = env_value(rest, key) {
            let k = choose|k: int|
                0 <= k < rest.len() && (#[trigger] rest[k]).0@ == key && rest[k].1@ == v && forall|
                    j: int,
                |
                    0 <= j < k ==> (#[trigger] rest[j]).0@ != key;
            assert(vars[k + 1].0@ == key);
            assert forall|j: int| 0 <= j < k + 1 implies (#[trigger] vars[j]).0@ != key by {
                if j > 0 {
                    assert(rest[j - 1].0@ != key);
                }
            }
        } else {
            assert forall|j: int| 0 <= j < vars.len() implies (#[trigger] vars[j]).0@ != key by {
                if j > 0 {
                    assert(rest[j - 1].0@ != key);
                }
            }
        }
    } else if vars.len() > 0 {
        assert(vars[0].0@ == key && vars[0].1@ == vars[0].1@);
    }
}

/// A variable is read by its own name, without white space around its value; one that is
/// missing or blank is not there.
pub proof fn law_variables_are_read_by_name(env: EnvVars, key: Seq<char>, value: Seq<char>)
    ensures
        is_value(env, key, value) && trim(value).len() > 0 ==> env.text(key) == Some(trim(value)),
        is_value(env, key, value) && trim(value).len() == 0 ==> env.text(key) is None,
        (forall|j: int| 0 <= j < env.vars@.len() ==> (#[trigger] env.vars@[j]).0@ != key)
            ==> env.text(key) is None,
{
    let vars = env.vars@;
    lemma_env_value(vars, key);
    if is_value(env, key, value) {
        let k = choose|k: int|
            0 <= k < vars.len() && (#[trigger] vars[k]).0@ == key && vars[k].1@ == value && forall|
                j: int,
            |
                0 <= j < k ==> (#[trigger] vars[j]).0@ != key;
        assert(env_value(vars, key) is Some);
        let v = env_value(vars, key)->Some_0;
        let i = choose|i: int|
            0 <= i < vars.len() && (#[trigger] vars[i]).0@ == key && vars[i].1@ == v && forall|
                j: int,
            |
                0 <= j < i ==> (#[trigger] vars[j]).0@ != key;
        assert(i == k);
    }
}

// ── Provenance ────────────────────────────────────────────────────────────────

/// What a command printed counts where it succeeded and printed more than white space.
pub proof fn law_commands_count_where_they_succeed(out: CommandOutput)
    ensures
        printed(Some(out)) is Some <==> out.success && trim(text_of(out.stdout@)).len() > 0,
        printed(Some(out)) matches Some(s) ==> s == trim(text_of(out.stdout@)),
        printed(None) is None,
{
}

/// The provenance of a run comes from the provider that runs it: on GitHub from GitHub's
/// variables, on GitLab from GitLab's, and elsewhere from git alone.
pub proof fn law_provenance_comes_from_the_provider(
    r: Provenance,
    env: EnvVars,
    outputs: GitOutputs,
)
    requires
        is_provenance(r, env, outputs),
    ensures
        ({
            let github = env.text("GITHUB_ACTIONS"@) is Some;
            let gitlab = !github && env.text("GITLAB_CI"@) is Some;
            let head = printed(outputs.symbolic_head);
            let sha = printed(outputs.head);
            &&& opt_view(r.git_sha) == sha
            &&& github ==> {
                &&& r.ci_provider@ == "github"@
                &&& opt_view(r.actor) == env.text("GITHUB_ACTOR"@)
                &&& opt_view(r.git_ref) == (if env.text("GITHUB_REF"@) is Some {
                    env.text("GITHUB_REF"@)
                } else {
                    head
                })
                &&& r.ci_run_url is Some <==> env.text("GITHUB_SERVER_URL"@) is Some && env.text(
                    "GITHUB_REPOSITORY"@,
                ) is Some && env.text("GITHUB_RUN_ID"@) is Some
                &&& r.ci_run_url matches Some(u) ==> u@ == env.text("GITHUB_SERVER_URL"@)->Some_0
                    + "/"@ + env.text("GITHUB_REPOSITORY"@)->Some_0 + "/actions/runs/"@ + env.text(
                    "GITHUB_RUN_ID"@,
                )->Some_0
            }
            &&& gitlab ==> {
                &&& r.ci_provider@ == "gitlab"@
                &&& opt_view(r.actor) == env.text("GITLAB_USER_LOGIN"@)
                &&& opt_view(r.git_ref) == (if env.text("CI_COMMIT_REF_NAME"@) is Some {
                    env.text("CI_COMMIT_REF_NAME"@)
                } else {
                    head
                })
                &&& opt_view(r.ci_run_url) == env.text("CI_JOB_URL"@)
            }
            &&& !github && !gitlab ==> {
                &&& r.ci_provider@ == "local"@
                &&& r.actor is None
                &&& opt_view(r.git_ref) == head
                &&& r.ci_run_url is None
            }
        }),
{
}

/// Provenance is sent where it says more than the provider, and then all of it.
pub proof fn law_provenance_is_sent_whole(r: Option<crate::api::Provenance>, p: Provenance)
    requires
        is_sent_provenance(r, p),
    ensures
        r is None <==> p.git_sha is None && p.git_ref is None && p.ci_run_url is None && p.actor
            is None,
        r matches Some(v) ==> v.git_sha == p.git_sha && v.git_ref == p.git_ref && v.ci_provider@
            == p.ci_provider@ && v.ci_run_url == p.ci_run_url && v.actor == p.actor,
{
}

proof fn lemma_behind_last(s: Seq<char>, c: char) -> (n: int)
    ensures
        0 <= n <= s.len(),
        behind_last(s, c) == s.subrange(n, s.len() as int),
        forall|i: int| n <= i < s.len() ==> #[trigger] s[i] != c,
        n > 0 ==> s[n - 1] == c,
    decreases s.len(),
{
    if s.len() == 0 || s.last() == c {
        assert(s.subrange(s.len() as int, s.len() as int) =~= seq![]);
        s.len() as int
    } else {
        let rest = s.drop_last();
        let n = lemma_behind_last(rest, c);
        assert(rest.subrange(n, rest.len() as int).push(s.last()) =~= s.subrange(
            n,
            s.len() as int,
        ));
        assert forall|i: int| n <= i < s.len() implies #[trigger] s[i] != c by {
            if i < rest.len() {
                assert(rest[i] == s[i]);
            }
        }
        if n > 0 {
            assert(rest[n - 1] == s[n - 1]);
        }
        n
    }
}

/// The default branch is what the remote's head names behind `refs/remotes/`; a head that is
/// spelled otherwise names a branch of `origin` behind its last slash.
pub proof fn law_the_default_branch_is_the_remote_head(name: Seq<char>, full: Seq<char>) -> (n: int)
    ensures
        default_branch(Some("refs/remotes/"@ + name)) == Some(name),
        0 <= n <= full.len(),
        !(full.len() >= 13 && full.subrange(0, 13) == "refs/remotes/"@) ==> default_branch(
            Some(full),
        ) == Some("origin/"@ + full.subrange(n, full.len() as int)),
        forall|i: int| n <= i < full.len() ==> #[trigger] full[i] != '/',
        n > 0 ==> full[n - 1] == '/',
        default_branch(None) is None,
{
    reveal_strlit("refs/remotes/");
    let s = "refs/remotes/"@ + name;
    assert(s.subrange(0, 13) =~= "refs/remotes/"@);
    assert(s.skip(13) =~= name);
    lemma_behind_last(full, '/')
}

/// A run on a pull or merge request is compared with the branch that it goes to, any other
/// with the default branch.
pub proof fn law_runs_are_compared_with_their_target(
    env: EnvVars,
    origin_head: Option<Seq<char>>,
    p: Provider,
)
    ensures
        ({
            let target = match p {
                Provider::GitHub => env.text("GITHUB_BASE_REF"@),
                Provider::GitLab => env.text("CI_MERGE_REQUEST_TARGET_BRANCH_NAME"@),
                Provider::Local => None,
            };
            &&& target matches Some(b) ==> base_ref(p, env, origin_head) == Some("origin/"@ + b)
            &&& target is None ==> base_ref(p, env, origin_head) == default_branch(origin_head)
        }),
        provider_in(env) is GitHub <==> env.text("GITHUB_ACTIONS"@) is Some,
        provider_in(env) is GitLab <==> env.text("GITHUB_ACTIONS"@) is None && env.text(
            "GITLAB_CI"@,
        ) is Some,
{
}

/// The changed files are the lines that git printed, blank ones left out; where git failed
/// there are none, and the error says what git said.
pub proof fn law_changed_files_are_what_git_printed(
    base: Seq<char>,
    out: CommandOutput,
    e: String,
)
    ensures
        out.success ==> changed_files(base, Ok(out)) == Ok::<Seq<Seq<char>>, Seq<char>>(
            lines(text_of(out.stdout@)).map_values(|t: Seq<char>| trim(t)).filter(
                |t: Seq<char>| t.len() > 0,
            ),
        ),
        !out.success ==> changed_files(base, Ok(out)) == Err::<Seq<Seq<char>>, Seq<char>>(
            "git diff against '"@ + base + "' failed: "@ + trim(text_of(out.stderr@)),
        ),
        changed_files(base, Err(e)) == Err::<Seq<Seq<char>>, Seq<char>>(
            "could not run git: "@ + e@,
        ),
{
    crate::laws::texts::law_nonblank(lines(text_of(out.stdout@)));
}

// ── Settings and keys ─────────────────────────────────────────────────────────

/// What was given beats the file: an address unless it is only the default, and a key always.
/// Without either key there is none.
pub proof fn law_what_is_given_beats_the_file(
    r: Resolved,
    url: Seq<char>,
    url_is_default: bool,
    key: Option<&str>,
    env_key_set: bool,
    file: Config,
)
    requires
        is_resolved(r, url, url_is_default, key, env_key_set, file),
    ensures
        !url_is_default || file.api_url is None ==> r.api_url@ == url,
        url_is_default ==> (file.api_url matches Some(u) ==> r.api_url@ == u@),
        key matches Some(k) ==> r.api_key is Some && r.api_key->Some_0@ == k@,
        key is None ==> (file.api_key matches Some(k) ==> r.api_key is Some && r.api_key->Some_0@
            == k@),
        key is None && file.api_key is None ==> r.api_key is None,
        r.key_source is Absent <==> r.api_key is None,
        r.key_source is ConfigFile <==> key is None && file.api_key is Some,
        r.key_source is Env <==> key is Some && env_key_set,
        r.key_source is Flag <==> key is Some && !env_key_set,
{
}

/// The settings of a project are taken as they stand, unless they hold a key or a bypass,
/// which are refused; a missing file is no fault, and one that cannot be used is.
pub proof fn law_project_settings_are_taken_whole(p: ProjectConfig, e: String)
    ensures
        checked_project(FileRead::Parsed(p)) is Ok <==> p.api_key is None && p.allow_degraded
            is None,
        checked_project(FileRead::Parsed(p)) matches Ok(q) ==> q == p,
        checked_project(FileRead::Missing) matches Ok(q) && q.default_dialect is None && q.fail_on
            is None && q.baseline is None && q.workspace_id is None && q.oidc_audience is None
            && q.oidc_token_env is None && q.api_key is None && q.allow_degraded is None,
        checked_project(FileRead::Unreadable(e)) is Err,
        checked_project(FileRead::Malformed(e)) is Err,
{
}

/// A setting that was given beats the project's, and that the user's.
pub proof fn law_settings_have_an_order(opts: OidcOpts, project: ProjectConfig, file: Config)
    ensures
        opts.workspace matches Some(w) ==> workspace_of(opts, project, file) == Some(w@),
        opts.workspace is None ==> (project.workspace_id matches Some(w) ==> workspace_of(
            opts,
            project,
            file,
        ) == Some(w@)),
        opts.workspace is None && project.workspace_id is None ==> workspace_of(opts, project, file)
            == opt_view(file.workspace_id),
        opts.audience matches Some(a) ==> audience_of(opts, project, file) == a@,
        opts.audience is None ==> (project.oidc_audience matches Some(a) ==> audience_of(
            opts,
            project,
            file,
        ) == a@),
        opts.audience is None && project.oidc_audience is None ==> (file.oidc_audience matches Some(
            a,
        ) ==> audience_of(opts, project, file) == a@),
        opts.audience is None && project.oidc_audience is None && file.oidc_audience is None
            ==> audience_of(opts, project, file) == "vericto"@,
        opts.token_env matches Some(t) ==> token_env_of(opts, project) == t@,
        opts.token_env is None ==> (project.oidc_token_env matches Some(t) ==> token_env_of(
            opts,
            project,
        ) == t@),
        opts.token_env is None && project.oidc_token_env is None ==> token_env_of(opts, project)
            == "VERICTO_ID_TOKEN"@,
{
}

/// A login uses the key there is unless workload identity is asked for. Else it takes a
/// token: GitHub's own where GitHub offers one, or the one in the variable. Without a token
/// or a workspace it ends with the code for authentication.
pub proof fn law_logins_use_the_key_or_a_token(
    key: Option<Seq<char>>,
    source: KeySource,
    opts: OidcOpts,
    project: ProjectConfig,
    file: Config,
    env: EnvVars,
)
    ensures
        ({
            let step = auth_begin(key, source, opts, project, file, env);
            let url = env.text("ACTIONS_ID_TOKEN_REQUEST_URL"@);
            let request = env.text("ACTIONS_ID_TOKEN_REQUEST_TOKEN"@);
            let github = url is Some && request is Some;
            let token = env.text(token_env_of(opts, project));
            let workspace = workspace_of(opts, project, file);
            let with_key = key is Some && !opts.forced;
            &&& with_key ==> step == (AuthStepView::Done {
                key: key->Some_0,
                mode: AuthModeView::Static(source),
                note: None,
            })
            &&& !with_key && (workspace is None || (!github && token is None)) ==> (
            step matches AuthStepView::Failed(s) && s.code == 3)
            &&& !with_key && workspace is Some && github ==> step == (AuthStepView::RequestToken {
                run: AuthRunView { workspace: workspace->Some_0, source: "github-actions"@ },
                url: url->Some_0,
                authorization: "Bearer "@ + request->Some_0,
                audience: Some(audience_of(opts, project, file)),
            })
            &&& !with_key && workspace is Some && !github && token is Some ==> step == (
            AuthStepView::Exchange {
                run: AuthRunView {
                    workspace: workspace->Some_0,
                    source: "env:"@ + token_env_of(opts, project),
                },
                id_token: token->Some_0,
            })
        }),
{
}

/// A token that was obtained is exchanged as it stands, and the key that the exchange gives
/// is the one that is used. A failure ends the login: with the code for authentication where
/// the token or the key was refused, else with that for the backend.
pub proof fn law_tokens_are_exchanged_for_keys(
    run: AuthRunView,
    token: Seq<char>,
    res: OidcExchangeResult,
    e: ApiErrorView,
)
    ensures
        after_token(run, Ok(token)) == (AuthStepView::Exchange { run, id_token: token }),
        after_token(run, Err(e)) matches AuthStepView::Failed(s) && s.code == 3,
        after_exchange(run, Ok(res)) matches AuthStepView::Done { key, mode, note } && key
            == res.api_key@ && mode == (AuthModeView::Oidc {
            source: run.source,
            policy_id: opt_view(res.policy_id),
        }),
        after_exchange(run, Err(e)) matches AuthStepView::Failed(s) && s.code == (if e is Auth {
            3u8
        } else {
            4u8
        }),
{
}

/// The token that GitHub answers with is taken without white space around it; any other
/// answer, or a blank token, is an error.
pub proof fn law_token_answers(status: u16, body: String, decoded: Result<String, String>)
    ensures
        ({
            let r = token_answer(Sent::Answered { status, body, decoded });
            &&& r is Ok <==> 200 <= status < 300 && (decoded matches Ok(v) && trim(v@).len() > 0)
            &&& r matches Ok(t) ==> t == trim(decoded->Ok_0@)
            &&& r matches Err(e) ==> (e matches ApiErrorView::Backend { status: s, .. } && s
                == status)
        }),
        token_answer(Sent::Unreachable(body)) == Err::<Seq<char>, ApiErrorView>(
            ApiErrorView::Transport(body@),
        ),
{
}

} // verus!
