//! The smaller commands: setting up a pipeline, looking at the installation, listing rules,
//! keys and documentation.
use vstd::prelude::*;
use crate::api::{ApiErrorView, ApiKeyInfo, RuleSummary, VersionInfo, WorkspaceConfig};
use crate::auth::AuthModeView;
use crate::catalogue::{listed_rules, rule_failure_code};
use crate::docs::{docs_doc, docs_step, topic_at, topic_doc, topic_docs, topic_url_of, DocsStepView};
use crate::doctor::{login_report, version_report, workspace_report, DoctorAction};
use crate::exit::{LineView, StopView};
use crate::init::{closing_lines, files_report, init_report, planned, InitOptions, InitPlanView, PlannedFileView};
use crate::json::{json_pretty_text, lemma_member, member, object, signed_decimal, JsonView};
use crate::laws::answers::law_base_addresses_end_without_slash;
use crate::laws::reports::{at, is_list_of, item, part, text};
use crate::output::{code_width, comma_joined, key_line, key_lines, keys_report, larger, name_width, rule_line, rule_lines, rules_report, severity_look, severity_width, DocRow};
use crate::scaffold::{github_template, gitlab_template, holds, hook_template, target_of, AuthStyle, CiTarget, Written};
use crate::style::{styled, Color, TextStyle};
use crate::text::{byte_len, decimal, find_seq, lowered, occurs_at, padded};
use crate::version::parsed_version;

verus! {

// ── Pipelines ─────────────────────────────────────────────────────────────────

/// Whether a text holds another, in any case of its letters.
pub open spec fn mentions(s: Seq<char>, needle: Seq<char>) -> bool {
    exists|j: int| #[trigger] crate::laws::suppressing::stands(s, j, needle)
}

proof fn lemma_mentions(s: Seq<char>, needle: Seq<char>)
    requires
        lowered(needle) == needle,
    ensures
        holds(lowered(s), needle) <==> mentions(s, needle),
{
    crate::laws::texts::law_find(lowered(s), 0, needle);
    assert forall|j: int| #[trigger] crate::laws::suppressing::stands(s, j, needle) <==> occurs_at(
        lowered(s),
        j,
        needle,
    ) by {
        if 0 <= j && j + needle.len() <= s.len() {
            let here = s.subrange(j, j + needle.len());
            crate::laws::suppressing::lemma_same_rule(here, needle);
            assert(lowered(s).subrange(j, j + needle.len()) =~= lowered(here));
        }
    }
    if holds(lowered(s), needle) {
        let p = find_seq(lowered(s), 0, needle)->Some_0;
        assert(occurs_at(lowered(s), p, needle));
        assert(crate::laws::suppressing::stands(s, p, needle));
    }
    if mentions(s, needle) {
        let j = choose|j: int| #[trigger] crate::laws::suppressing::stands(s, j, needle);
        assert(occurs_at(lowered(s), j, needle));
    }
}

/// The provider is known by the address of the remote, else by the files that are there;
/// GitHub goes first.
pub proof fn law_providers_are_known_by_remote_and_files(
    url: Seq<char>,
    github_dir: bool,
    gitlab_file: bool,
)
    ensures
        mentions(url, "github.com"@) ==> target_of(Some(url), github_dir, gitlab_file) is GitHub,
        !mentions(url, "github.com"@) && mentions(url, "gitlab"@) ==> target_of(
            Some(url),
            github_dir,
            gitlab_file,
        ) is GitLab,
        !mentions(url, "github.com"@) && !mentions(url, "gitlab"@) ==> target_of(
            Some(url),
            github_dir,
            gitlab_file,
        ) == target_of(None, github_dir, gitlab_file),
        target_of(None, github_dir, gitlab_file) is GitHub <==> github_dir,
        target_of(None, github_dir, gitlab_file) is GitLab <==> !github_dir && gitlab_file,
{
    reveal_strlit("github.com");
    reveal_strlit("gitlab");
    assert(lowered("github.com"@) =~= "github.com"@);
    assert(lowered("gitlab"@) =~= "gitlab"@);
    lemma_mentions(url, "github.com"@);
    lemma_mentions(url, "gitlab"@);
}

/// How a job logs in: with workload identity for its workspace, else with the key that the
/// pipeline holds.
pub open spec fn login_flags(auth: AuthStyle) -> Seq<char> {
    match auth {
        AuthStyle::StaticKey => Seq::<char>::empty(),
        AuthStyle::Oidc { workspace_id } => " --oidc --workspace "@ + workspace_id@,
    }
}

/// A job for GitHub checks the dialect that was asked for and logs in as was asked for; what
/// stands around that is the same whatever the dialect.
pub proof fn law_github_jobs_hold_their_settings(auth: AuthStyle) -> (r: (Seq<char>, Seq<char>))
    ensures
        forall|dialect: Seq<char>| #[trigger]
            github_template(dialect, auth) == r.0 + dialect + login_flags(auth) + r.1,
{
    let before = "# Managed by `vericto init`. Validates SQL changed in a PR against your\n# Vericto workspace rules and surfaces findings as PR annotations (Code Scanning).\nname: Vericto SQL check\n\non:\n  pull_request:\n    paths:\n      - \"**/*.sql\"\n\npermissions:\n  contents: read\n  security-events: write   # required to upload SARIF to Code Scanning\n"@ + part(
        auth is Oidc,
        "  id-token: write          # required to mint a short-lived identity token\n"@,
    ) + "\njobs:\n  vericto:\n    runs-on: ubuntu-latest\n    steps:\n      - uses: actions/checkout@v4\n        with:\n          fetch-depth: 0   # full history so --changed can diff the merge base\n\n      - name: Install vericto\n        run: curl -fsSL https://github.com/donkan168/vericto-cli/releases/latest/download/vericto-cli-installer.sh | sh\n\n      - name: Vericto check\n        run: vericto check --changed --dialect "@;
    let a = " --format sarif --output vericto.sarif\n"@;
    let b = part(
        !(auth is Oidc),
        "        env:\n          VERICTO_API_KEY: ${{ secrets.VERICTO_API_KEY }}\n"@,
    );
    let c = "\n      - name: Upload SARIF\n        if: always()   # upload even when the check fails, so annotations appear\n        uses: github/codeql-action/upload-sarif@v3\n        with:\n          sarif_file: vericto.sarif\n"@;
    assert forall|dialect: Seq<char>| #[trigger] github_template(dialect, auth) == before + dialect
        + login_flags(auth) + (a + b + c) by {
        let front = before + dialect + login_flags(auth);
        assert(front + a + b + c =~= front + (a + b + c));
    }
    (before, a + b + c)
}

/// A job for GitLab likewise.
pub proof fn law_gitlab_jobs_hold_their_settings(auth: AuthStyle) -> (r: (Seq<char>, Seq<char>))
    ensures
        forall|dialect: Seq<char>| #[trigger]
            gitlab_template(dialect, auth) == r.0 + dialect + login_flags(auth) + r.1,
{
    let before = "# Managed by `vericto init`. Validates SQL changed in a merge request against\n# your Vericto workspace rules and surfaces findings as MR annotations.\nvericto-sql-check:\n  image: ghcr.io/donkan168/vericto-cli:latest\n"@ + part(
        auth is Oidc,
        "  id_tokens:\n    VERICTO_ID_TOKEN:\n      aud: vericto\n"@,
    ) + "  script:\n    - vericto check --changed --dialect "@;
    let a = " --format gitlab-codequality --output gl-code-quality.json\n  artifacts:\n    reports:\n      codequality: gl-code-quality.json\n  rules:\n    - if: $CI_PIPELINE_SOURCE == \"merge_request_event\"\n      changes:\n        - \"**/*.sql\"\n"@;
    let b = part(
        !(auth is Oidc),
        "  # Set VERICTO_API_KEY as a masked CI/CD variable in project settings.\n"@,
    );
    assert forall|dialect: Seq<char>| #[trigger] gitlab_template(dialect, auth) == before + dialect
        + login_flags(auth) + (a + b) by {
        let front = before + dialect + login_flags(auth);
        assert(front + a + b =~= front + (a + b));
    }
    (before, a + b)
}

/// The hook checks the dialect that was asked for.
pub proof fn law_hooks_hold_their_dialect() -> (r: (Seq<char>, Seq<char>))
    ensures
        forall|dialect: Seq<char>| #[trigger] hook_template(dialect) == r.0 + dialect + r.1,
{
    ("#!/bin/sh\n# Managed by `vericto init`. Blocks a commit if staged SQL trips a Vericto rule.\n# Bypass once with:  git commit --no-verify\nset -e\n\nif ! command -v vericto >/dev/null 2>&1; then\n  echo \"vericto not found on PATH — skipping SQL check (install: https://github.com/donkan168/vericto-cli)\" >&2\n  exit 0\nfi\n\nstaged=$(git diff --cached --name-only --diff-filter=d -- '*.sql')\n[ -z \"$staged\" ] && exit 0\n\n# shellcheck disable=SC2086\necho \"$staged\" | xargs vericto check --dialect "@, "\n"@)
}

/// A setup writes the job of the provider that was named, else of the one that was detected,
/// and the hook where it was asked for. It is refused without a provider, and with workload
/// identity but no workspace.
pub proof fn law_setups_write_what_was_asked_for(opts: InitOptions, detected: CiTarget)
    ensures
        ({
            let target = if opts.target is Some {
                opts.target->Some_0
            } else {
                detected
            };
            let plan = planned(opts, detected);
            let auth = if opts.oidc {
                AuthStyle::Oidc { workspace_id: opts.workspace->Some_0 }
            } else {
                AuthStyle::StaticKey
            };
            &&& plan is Ok <==> !(target is Unknown) && !(opts.oidc && opts.workspace is None)
            &&& plan matches Err(s) ==> s.code == 2
            &&& plan matches Ok(p) ==> {
                &&& p.target == target
                &&& p.files.len() == (if opts.hook {
                    2int
                } else {
                    1int
                })
                &&& target is GitHub ==> p.files[0].path == ".github/workflows/vericto.yml"@
                    && p.files[0].body == github_template(opts.dialect@, auth)
                &&& target is GitLab ==> p.files[0].path == ".vericto/gitlab-ci.yml"@
                    && p.files[0].body == gitlab_template(opts.dialect@, auth)
                &&& !p.files[0].executable
                &&& opts.hook ==> p.files[1].path == ".git/hooks/pre-commit"@ && p.files[1].body
                    == hook_template(opts.dialect@) && p.files[1].executable
            }
        }),
{
}

/// What is said of a file that was written, or was there already.
pub open spec fn told(w: Written) -> LineView {
    match w {
        Written::Created(p) => LineView::Stdout("created "@ + p@),
        Written::Skipped(p) => LineView::Stdout(
            "exists, skipped "@ + p@ + " (use --force to overwrite)"@,
        ),
    }
}

/// Each file that was written is told, in order; the first that could not be is told last,
/// by its own path, and ends the setup with an error.
pub proof fn law_setups_tell_of_every_file(
    files: Seq<PlannedFileView>,
    written: Seq<Result<Written, String>>,
    n: nat,
    k: int,
)
    requires
        n <= written.len(),
        0 <= k <= n,
        forall|i: int| 0 <= i < k ==> (#[trigger] written[i]) is Ok,
        k < n ==> written[k] is Err,
    ensures
        ({
            let r = files_report(files, written, n);
            let told_ones = Seq::new(k as nat, |i: int| told(written[i]->Ok_0));
            if k == n {
                r.code == 0 && r.say == told_ones
            } else {
                r.code == 2 && r.say == told_ones.push(
                    LineView::Stderr(
                        "error: "@ + ("could not write "@ + files[k].path + ": "@
                            + written[k]->Err_0@),
                    ),
                )
            }
        }),
    decreases n,
{
    let told_ones = Seq::new(k as nat, |i: int| told(written[i]->Ok_0));
    if n > 0 {
        let m = (n - 1) as nat;
        if k < n - 1 {
            law_setups_tell_of_every_file(files, written, m, k);
        } else if k == n - 1 {
            law_setups_tell_of_every_file(files, written, m, k);
        } else {
            law_setups_tell_of_every_file(files, written, m, k - 1);
            assert(written[n - 1] is Ok);
            assert(told_ones =~= Seq::new((k - 1) as nat, |i: int| told(written[i]->Ok_0)).push(
                told(written[k - 1]->Ok_0),
            ));
        }
    } else {
        assert(told_ones =~= seq![]);
    }
}

/// A setup that wrote all its files says what to do next and ends with success.
pub proof fn law_setups_end_with_what_comes_next(
    plan: InitPlanView,
    oidc: bool,
    hook: bool,
    written: Seq<Result<Written, String>>,
)
    ensures
        ({
            let files = files_report(plan.files, written, written.len());
            let r = init_report(plan, oidc, hook, written);
            &&& r.code == files.code
            &&& files.code != 0 ==> r.say == files.say
            &&& files.code == 0 ==> r.say == files.say + closing_lines(plan.target, oidc, hook)
        }),
{
}

// ── The installation ──────────────────────────────────────────────────────────

/// A look at the installation goes on unless the backend is of another major version, and
/// ends with success only where the backend answered and accepted the key.
pub proof fn law_the_doctor_ends_with_what_it_found(
    info: VersionInfo,
    e: ApiErrorView,
    mode: AuthModeView,
    s: StopView,
    cfg: WorkspaceConfig,
)
    ensures
        ({
            let other = info.api_version is Some && (parsed_version(
                info.api_version->Some_0@,
            ) matches Some((major, _)) && major != 1);
            &&& other ==> version_report(Ok(info)).action == DoctorAction::Exit(4)
            &&& !other ==> version_report(Ok(info)).action is Authenticate
        }),
        version_report(Err(e)).action is Authenticate,
        login_report(Ok(mode)).action is FetchWorkspace,
        login_report(Err(s)).action == DoctorAction::Exit(s.code),
        workspace_report(Ok(cfg)).action == DoctorAction::Exit(0),
        workspace_report(Err(e)).action == DoctorAction::Exit(
            if e is Auth {
                3
            } else {
                4
            },
        ),
{
    if info.api_version is Some {
        crate::laws::answers::law_backends_of_another_major_version_are_refused(
            info.api_version->Some_0@,
        );
    }
}

/// A look at the workspace tells its plan and rules where they are known, what is left of its
/// quota, and how it wants its SQL.
pub proof fn law_the_doctor_tells_of_the_workspace(cfg: WorkspaceConfig)
    ensures
        workspace_report(Ok(cfg)).say == seq![
            LineView::Stdout("\n✓ reachable and authenticated"@),
        ] + (match cfg.plan {
            Some(p) => seq![LineView::Stdout("  plan: "@ + p@)],
            None => seq![],
        }) + (match cfg.ruleset_version {
            Some(v) => seq![LineView::Stdout("  ruleset: "@ + v@)],
            None => seq![],
        }) + seq![
            LineView::Stdout(
                match cfg.ci_checks_remaining {
                    Some(n) => "  CLI checks remaining this month: "@ + signed_decimal(n as int),
                    None => "  CLI checks: unmetered (team/enterprise)"@,
                },
            ),
            LineView::Stdout(
                "  query mode: "@ + (match cfg.telemetry_query_mode {
                    Some(m) => m@,
                    None => "raw"@,
                }),
            ),
        ],
{
}

// ── Rules and keys ────────────────────────────────────────────────────────────

/// The rules that are listed are all of them, or those that are active, in order.
pub proof fn law_rules_are_listed_in_order(rules: Seq<RuleSummary>)
    ensures
        listed_rules(rules, false) == rules,
        listed_rules(rules, true) == rules.filter(|r: RuleSummary| r.is_active),
    decreases rules.len(),
{
    reveal(Seq::filter);
    if rules.len() > 0 {
        law_rules_are_listed_in_order(rules.drop_last());
        assert(rules.drop_last().push(rules.last()) =~= rules);
    } else {
        assert(rules =~= seq![]);
    }
}

/// A rule that does not exist is an error of usage, a refused key one of authentication, and
/// all else one of the backend.
pub proof fn law_rule_failures_end_with_their_code(e: ApiErrorView)
    ensures
        rule_failure_code(e) == (if e is Auth {
            3u8
        } else if e matches ApiErrorView::Backend { status, .. } && status == 404 {
            2u8
        } else {
            4u8
        }),
{
}

/// A column is filled up with spaces on the right, and never cut.
pub proof fn law_columns_are_filled_up(s: Seq<char>, width: nat, i: int)
    ensures
        padded(s, width).len() == (if s.len() < width {
            width
        } else {
            s.len()
        }),
        0 <= i < s.len() ==> padded(s, width)[i] == s[i],
        s.len() <= i < padded(s, width).len() ==> padded(s, width)[i] == ' ',
{
}

proof fn lemma_flat<T>(items: Seq<T>, f: spec_fn(T) -> Seq<char>)
    requires
        items.len() > 0,
    ensures
        items.map_values(f).flatten() == items.drop_last().map_values(f).flatten() + f(
            items.last(),
        ),
{
    let rest = items.drop_last().map_values(f);
    rest.lemma_flatten_push(f(items.last()));
    assert(items.map_values(f) =~= rest.push(f(items.last())));
}

/// The look of a severity.
pub open spec fn look_of(severity: Seq<char>) -> TextStyle {
    TextStyle {
        color: if severity == "critical"@ || severity == "high"@ {
            Some(Color::Red)
        } else if severity == "medium"@ {
            Some(Color::Yellow)
        } else if severity == "low"@ {
            Some(Color::Blue)
        } else {
            None
        },
        bold: severity == "critical"@,
        dimmed: severity != "critical"@ && severity != "high"@ && severity != "medium"@ && severity
            != "low"@,
    }
}

pub proof fn lemma_look(severity: Seq<char>)
    ensures
        severity_look(severity) == look_of(severity),
{
    reveal_strlit("critical");
    reveal_strlit("high");
    reveal_strlit("medium");
    reveal_strlit("low");
    assert("critical"@.len() == 8 && "high"@.len() == 4 && "medium"@.len() == 6 && "low"@.len()
        == 3);
}

/// A rule in the list: its code, severity, action and state in columns, then its name.
pub open spec fn row(r: RuleSummary, code_w: nat, severity_w: nat) -> Seq<char> {
    padded(r.code@, code_w) + "  "@ + styled(
        look_of(r.severity@),
        padded(r.severity@, severity_w),
    ) + "  "@ + padded(r.resolved_action@, 7) + "  "@ + padded(
        if r.is_active {
            "active"@
        } else {
            "inactive"@
        },
        8,
    ) + "  "@ + r.name@ + "\n"@
}

proof fn lemma_rule_lines(rules: Seq<&RuleSummary>, code_w: nat, severity_w: nat)
    ensures
        rule_lines(rules, code_w, severity_w) == rules.map_values(
            |r: &RuleSummary| row(*r, code_w, severity_w),
        ).flatten(),
    decreases rules.len(),
{
    if rules.len() > 0 {
        lemma_rule_lines(rules.drop_last(), code_w, severity_w);
        lemma_flat(rules, |r: &RuleSummary| row(*r, code_w, severity_w));
        let r = *rules.last();
        lemma_look(r.severity@);
        assert(rule_line(r, code_w, severity_w) == row(r, code_w, severity_w));
    }
}

/// A column is as wide as its widest entry, and as its least width.
pub open spec fn is_width(w: nat, least: nat, lengths: Seq<nat>) -> bool {
    &&& least <= w
    &&& forall|i: int| 0 <= i < lengths.len() ==> #[trigger] lengths[i] <= w
    &&& w == least || exists|i: int| 0 <= i < lengths.len() && #[trigger] lengths[i] == w
}

proof fn lemma_width_push(w: nat, least: nat, lengths: Seq<nat>, n: nat)
    requires
        is_width(w, least, lengths),
    ensures
        is_width(larger(w, n), least, lengths.push(n)),
{
    let all = lengths.push(n);
    assert forall|i: int| 0 <= i < all.len() implies #[trigger] all[i] <= larger(w, n) by {
        if i < lengths.len() {
            assert(lengths[i] <= w);
        }
    }
    if larger(w, n) == w && w != least {
        let i = choose|i: int| 0 <= i < lengths.len() && #[trigger] lengths[i] == w;
        assert(all[i] == w);
    } else {
        assert(all[lengths.len() as int] == n);
    }
}

proof fn lemma_rule_widths(rules: Seq<&RuleSummary>)
    ensures
        is_width(code_width(rules), 4, rules.map_values(|r: &RuleSummary| byte_len(r.code@))),
        is_width(severity_width(rules), 8, rules.map_values(|r: &RuleSummary| byte_len(r.severity@))),
    decreases rules.len(),
{
    let f = |r: &RuleSummary| byte_len(r.code@);
    let g = |r: &RuleSummary| byte_len(r.severity@);
    if rules.len() > 0 {
        let rest = rules.drop_last();
        lemma_rule_widths(rest);
        lemma_width_push(code_width(rest), 4, rest.map_values(f), f(rules.last()));
        lemma_width_push(severity_width(rest), 8, rest.map_values(g), g(rules.last()));
        assert(rules.map_values(f) =~= rest.map_values(f).push(f(rules.last())));
        assert(rules.map_values(g) =~= rest.map_values(g).push(g(rules.last())));
    }
}

/// The list of rules holds a line for each of them, in order, in columns that are wide enough
/// for all, and ends with their number.
pub proof fn law_rule_lists_hold_every_rule(rules: Seq<&RuleSummary>, version: Seq<char>) -> (w: (
    nat,
    nat,
))
    ensures
        rules.len() == 0 ==> rules_report(rules, version) == "No rules found.\n"@,
        rules.len() > 0 ==> rules_report(rules, version) == rules.map_values(
            |r: &RuleSummary| row(*r, w.0, w.1),
        ).flatten() + (styled(
            TextStyle { color: None, bold: false, dimmed: true },
            decimal(rules.len()) + " rules   (ruleset "@ + version + ")"@,
        ) + "\n"@),
        is_width(w.0, 4, rules.map_values(|r: &RuleSummary| byte_len(r.code@))),
        is_width(w.1, 8, rules.map_values(|r: &RuleSummary| byte_len(r.severity@))),
{
    lemma_rule_widths(rules);
    lemma_rule_lines(rules, code_width(rules), severity_width(rules));
    (code_width(rules), severity_width(rules))
}

/// Texts with commas between.
pub open spec fn with_commas(items: Seq<String>) -> Seq<char>
    decreases items.len(),
{
    if items.len() == 0 {
        seq![]
    } else if items.len() == 1 {
        items[0]@
    } else {
        items[0]@ + ","@ + with_commas(items.drop_first())
    }
}

proof fn lemma_commas(items: Seq<String>)
    ensures
        comma_joined(items) == with_commas(items),
    decreases items.len(),
{
    if items.len() >= 2 {
        lemma_commas(items.drop_last());
        lemma_commas(items.drop_first());
        let mid = items.drop_first();
        if items.len() > 2 {
            assert(mid.drop_last() =~= items.drop_last().drop_first());
            lemma_commas(mid.drop_last());
            assert(with_commas(items.drop_last()) == items[0]@ + ","@ + with_commas(
                items.drop_last().drop_first(),
            ));
            let a = items[0]@;
            let b = with_commas(mid.drop_last());
            let c = items.last()@;
            assert(comma_joined(mid) == b + ","@ + c);
            assert(a + ","@ + b + ","@ + c =~= a + ","@ + (b + ","@ + c));
        } else {
            assert(comma_joined(items.drop_last()) == items[0]@);
            assert(with_commas(mid) == items[1]@);
        }
    }
}

/// A key in the list: whether it is the one in use, its name, state, scopes and last use; one
/// that was revoked is dimmed.
pub open spec fn key_row(k: ApiKeyInfo, width: nat) -> Seq<char> {
    let line = (if k.is_current {
        "*"@
    } else {
        " "@
    }) + " "@ + padded(k.name@, width) + "  "@ + padded(
        if k.is_active {
            "active"@
        } else {
            "revoked"@
        },
        7,
    ) + "  "@ + with_commas(k.scopes@) + "  last used: "@ + (match k.last_used_at {
        Some(t) => t@,
        None => "never"@,
    });
    (if k.is_active {
        line
    } else {
        styled(TextStyle { color: None, bold: false, dimmed: true }, line)
    }) + "\n"@
}

proof fn lemma_key_lines(keys: Seq<ApiKeyInfo>, width: nat)
    ensures
        key_lines(keys, width) == keys.map_values(|k: ApiKeyInfo| key_row(k, width)).flatten(),
    decreases keys.len(),
{
    if keys.len() > 0 {
        lemma_key_lines(keys.drop_last(), width);
        lemma_flat(keys, |k: ApiKeyInfo| key_row(k, width));
        lemma_commas(keys.last().scopes@);
        assert(key_line(keys.last(), width) == key_row(keys.last(), width));
    }
}

proof fn lemma_key_width(keys: Seq<ApiKeyInfo>)
    ensures
        is_width(name_width(keys), 4, keys.map_values(|k: ApiKeyInfo| byte_len(k.name@))),
    decreases keys.len(),
{
    let f = |k: ApiKeyInfo| byte_len(k.name@);
    if keys.len() > 0 {
        let rest = keys.drop_last();
        lemma_key_width(rest);
        lemma_width_push(name_width(rest), 4, rest.map_values(f), f(keys.last()));
        assert(keys.map_values(f) =~= rest.map_values(f).push(f(keys.last())));
    }
}

/// The list of keys holds a line for each of them, in order, and ends with their number.
pub proof fn law_key_lists_hold_every_key(keys: Seq<ApiKeyInfo>) -> (w: nat)
    ensures
        keys_report(keys) == keys.map_values(|k: ApiKeyInfo| key_row(k, w)).flatten() + (styled(
            TextStyle { color: None, bold: false, dimmed: true },
            "* = the key you're using   ("@ + decimal(keys.len()) + " total)"@,
        ) + "\n"@),
        is_width(w, 4, keys.map_values(|k: ApiKeyInfo| byte_len(k.name@))),
{
    lemma_key_width(keys);
    lemma_key_lines(keys, name_width(keys));
    name_width(keys)
}

// ── Documentation ─────────────────────────────────────────────────────────────

proof fn lemma_topic_at(rows: Seq<DocRow>, slug: Seq<char>)
    ensures
        topic_at(rows, slug) is Some <==> exists|i: int|
            0 <= i < rows.len() && (#[trigger] rows[i]).slug@ == slug,
    decreases rows.len(),
{
    if rows.len() > 0 {
        let rest = rows.drop_last();
        lemma_topic_at(rest, slug);
        assert(forall|i: int| 0 <= i < rest.len() ==> rest[i] == rows[i]);
        if topic_at(rest, slug) is Some {
            let i = choose|i: int| 0 <= i < rest.len() && (#[trigger] rest[i]).slug@ == slug;
            assert(rows[i].slug@ == slug);
        }
        if rows.last().slug@ == slug {
            assert(rows[rows.len() - 1].slug@ == slug);
        }
        if exists|i: int| 0 <= i < rows.len() && (#[trigger] rows[i]).slug@ == slug {
            let i = choose|i: int| 0 <= i < rows.len() && (#[trigger] rows[i]).slug@ == slug;
            if i < rest.len() {
                assert(rest[i].slug@ == slug);
            }
        }
    }
}

/// A topic opens at its own page under the app's address; one that is not listed is an error
/// of usage.
pub proof fn law_topics_open_at_their_page(
    app_url: Seq<char>,
    rows: Seq<DocRow>,
    slug: Seq<char>,
    json: bool,
    linkify: bool,
) -> (n: int)
    ensures
        ({
            let step = docs_step(app_url, rows, Some(slug), json, linkify);
            let known = exists|i: int| 0 <= i < rows.len() && (#[trigger] rows[i]).slug@ == slug;
            &&& known ==> step == DocsStepView::Open(
                app_url.subrange(0, n) + "/docs"@ + "/"@ + slug,
            )
            &&& !known ==> (step matches DocsStepView::Stop(s) && s.code == 2)
        }),
        0 <= n <= app_url.len(),
        forall|i: int| n <= i < app_url.len() ==> #[trigger] app_url[i] == '/',
        n > 0 ==> app_url[n - 1] != '/',
{
    lemma_topic_at(rows, slug);
    law_base_addresses_end_without_slash(app_url)
}

proof fn lemma_topic(app_url: Seq<char>, r: DocRow)
    ensures
        member(topic_doc(app_url, r), "slug"@) == Some(JsonView::Text(r.slug@)),
        member(topic_doc(app_url, r), "blurb"@) == Some(JsonView::Text(r.blurb@)),
        member(topic_doc(app_url, r), "category"@) == Some(JsonView::Text(r.category@)),
        member(topic_doc(app_url, r), "url"@) == Some(
            JsonView::Text(topic_url_of(app_url, r.slug@)),
        ),
{
    reveal_strlit("slug");
    reveal_strlit("blurb");
    reveal_strlit("category");
    reveal_strlit("url");
    let fields = seq![
        ("slug"@, JsonView::Text(r.slug@)),
        ("blurb"@, JsonView::Text(r.blurb@)),
        ("category"@, JsonView::Text(r.category@)),
        ("url"@, JsonView::Text(topic_url_of(app_url, r.slug@))),
    ];
    assert(object(fields) == topic_doc(app_url, r));
    assert("slug"@.len() == 4 && "blurb"@.len() == 5 && "category"@.len() == 8
        && "url"@.len() == 3);
    assert(fields[0].0 == "slug"@ && fields[1].0 == "blurb"@ && fields[2].0 == "category"@
        && fields[3].0 == "url"@);
    lemma_member(fields, 0);
    lemma_member(fields, 1);
    lemma_member(fields, 2);
    lemma_member(fields, 3);
}

proof fn lemma_topics(app_url: Seq<char>, rows: Seq<DocRow>)
    ensures
        member(docs_doc(app_url, rows), "topics"@) == Some(
            JsonView::Array(topic_docs(app_url, rows)),
        ),
{
    reveal_strlit("topics");
    let fields = seq![
        ("topics"@, JsonView::Array(topic_docs(app_url, rows))),
    ];
    assert(object(fields) == docs_doc(app_url, rows));
    assert("topics"@.len() == 6);
    assert(fields[0].0 == "topics"@);
    lemma_member(fields, 0);
}

/// The documentation as JSON holds every topic, in order, with its address.
pub proof fn law_documentation_lists_every_topic(
    app_url: Seq<char>,
    rows: Seq<DocRow>,
    linkify: bool,
    k: int,
)
    requires
        0 <= k < rows.len(),
    ensures
        ({
            let doc = docs_doc(app_url, rows);
            let topics = at(Some(doc), "topics"@);
            let topic = item(topics, k);
            &&& docs_step(app_url, rows, None, true, linkify) == DocsStepView::Show(
                json_pretty_text(doc) + "\n"@,
            )
            &&& is_list_of(topics, rows.len())
            &&& at(topic, "slug"@) == text(rows[k].slug@)
            &&& at(topic, "blurb"@) == text(rows[k].blurb@)
            &&& at(topic, "category"@) == text(rows[k].category@)
            &&& at(topic, "url"@) == text(topic_url_of(app_url, rows[k].slug@))
        }),
{
    lemma_topics(app_url, rows);
    lemma_topic(app_url, rows[k]);
    assert(topic_docs(app_url, rows)[k] == topic_doc(app_url, rows[k]));
}

} // verus!
