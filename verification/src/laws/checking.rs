//! What a check reads, sends, and ends with.
use vstd::prelude::*;
use crate::api::{ApiErrorView, CheckResponse, QueryResult, WorkspaceConfig};
use crate::baseline::{fingerprint_in, suppression, Baseline};
use crate::check::{covered, dialect_of, diffed, failing_of, file_plan, files_or_stop, gathered, inline_reason, law_suppressed_fingerprints, listed, quota_note_of, source_text, suppressed, threshold, FailOn, FilePlanView, QueryView, SourceText};
use crate::check_run::{failures, inline_queries, params_of, with_failure, with_sources, with_workspace, ActionView, CheckRun};
use crate::config::{Config, ProjectConfig};
use crate::exit::{LineView, StopView};
use crate::laws::baselines::{file_of, law_findings_are_known_by_rule_file_and_path, print_of};
use crate::laws::suppressing::{lemma_same_rule, same_rule};
use crate::output::findings;
use crate::sanitize::sanitized;
use crate::text::{lines, lowered, nonblank, opt_view, trim};

verus! {

// ── Settings ──────────────────────────────────────────────────────────────────

proof fn lemma_names()
    ensures
        lowered("block"@) == "block"@,
        lowered("flag"@) == "flag"@,
        lowered("any"@) == "any"@,
        "block"@ != "flag"@,
        "block"@ != "any"@,
        "flag"@ != "any"@,
{
    reveal_strlit("block");
    reveal_strlit("flag");
    reveal_strlit("any");
    assert(lowered("block"@) =~= "block"@);
    assert(lowered("flag"@) =~= "flag"@);
    assert(lowered("any"@) =~= "any"@);
    assert("block"@.len() == 5 && "flag"@.len() == 4 && "any"@.len() == 3);
}

/// The threshold on the command line wins; else the project's counts, in any case and with
/// white space around it, and without one that is known only blocked statements fail.
pub proof fn law_the_command_line_sets_the_threshold(
    flag: Option<FailOn>,
    project: Option<Seq<char>>,
)
    ensures
        flag matches Some(f) ==> threshold(flag, project) == f,
        flag is None && project is None ==> threshold(flag, project) is Block,
        flag is None && project is Some && same_rule(trim(project->Some_0), "flag"@) ==> threshold(
            flag,
            project,
        ) is Flag,
        flag is None && project is Some && same_rule(trim(project->Some_0), "any"@) ==> threshold(
            flag,
            project,
        ) is Any,
        flag is None && project is Some && !same_rule(trim(project->Some_0), "flag"@) && !same_rule(
            trim(project->Some_0),
            "any"@,
        ) ==> threshold(flag, project) is Block,
{
    lemma_names();
    if project is Some {
        lemma_same_rule(trim(project->Some_0), "flag"@);
        lemma_same_rule(trim(project->Some_0), "any"@);
    }
}

/// The dialect on the command line wins over the project's, that over the user's, and
/// without any it is PostgreSQL.
pub proof fn law_the_command_line_sets_the_dialect(
    flag: Option<String>,
    project: ProjectConfig,
    file: Config,
)
    ensures
        flag matches Some(d) ==> dialect_of(flag, project, file) == d@,
        flag is None ==> (project.default_dialect matches Some(d) ==> dialect_of(
            flag,
            project,
            file,
        ) == d@),
        flag is None && project.default_dialect is None ==> (file.default_dialect matches Some(d)
            ==> dialect_of(flag, project, file) == d@),
        flag is None && project.default_dialect is None && file.default_dialect is None
            ==> dialect_of(flag, project, file) == "postgres"@,
{
}

// ── What is checked ───────────────────────────────────────────────────────────

/// There is one source of files: the command line, standard input or a diff. Two at once are
/// refused, and so is none. A diff is taken against the ref that was given, else against the
/// one that was detected.
pub proof fn law_files_come_from_one_place(
    given: nat,
    changed: bool,
    since: Option<Seq<char>>,
    stdin_file_list: bool,
    base: Option<Seq<char>>,
)
    ensures
        ({
            let plan = file_plan(given, changed, since, stdin_file_list, base);
            let diff = changed || since is Some;
            &&& plan is Given <==> given > 0 && !diff && !stdin_file_list
            &&& plan is ReadList <==> given == 0 && !diff && stdin_file_list
            &&& plan is Diff <==> given == 0 && diff && !stdin_file_list && (since is Some || base
                is Some)
            &&& plan matches FilePlanView::Diff(b) ==> b == (if since is Some {
                since->Some_0
            } else {
                base->Some_0
            })
        }),
{
}

/// The files of a list are its lines without the blank ones; a list without any is a success
/// with nothing to check.
pub proof fn law_a_list_names_its_files(text: Seq<char>, e: Seq<char>)
    ensures
        nonblank(lines(text)).len() > 0 ==> files_or_stop(listed(Ok(text))) == Ok::<
            Seq<Seq<char>>,
            StopView,
        >(lines(text).map_values(|t: Seq<char>| trim(t)).filter(|t: Seq<char>| t.len() > 0)),
        nonblank(lines(text)).len() == 0 ==> (files_or_stop(listed(Ok(text))) matches Err(s)
            && s.code == 0),
        files_or_stop(listed(Err(e))) matches Err(s) && s.code == 2,
{
    crate::laws::texts::law_nonblank(lines(text));
}

/// A diff names the files to check; an empty one is a success, and one that failed is an
/// error.
pub proof fn law_a_diff_names_its_files(base: Seq<char>, names: Seq<Seq<char>>, e: Seq<char>)
    ensures
        names.len() > 0 ==> files_or_stop(diffed(base, Ok(names))) == Ok::<
            Seq<Seq<char>>,
            StopView,
        >(names),
        names.len() == 0 ==> (files_or_stop(diffed(base, Ok(names))) matches Err(s) && s.code == 0),
        files_or_stop(diffed(base, Err(e))) matches Err(s) && s.code == 2 && s.line
            == LineView::Stderr("error: "@ + e),
{
}

/// The place of each source that holds SQL, counted from one, with its text.
pub open spec fn sent(sources: Seq<Seq<char>>) -> Seq<QueryView> {
    Seq::new(
        sources.len(),
        |i: int| QueryView { line: (i + 1) as u32, sql: sources[i] },
    ).filter(|q: QueryView| trim(q.sql).len() > 0)
}

proof fn lemma_sent(sources: Seq<Seq<char>>)
    requires
        sources.len() > 0,
    ensures
        sent(sources) == (if trim(sources.last()).len() > 0 {
            sent(sources.drop_last()).push(
                QueryView { line: sources.len() as u32, sql: sources.last() },
            )
        } else {
            sent(sources.drop_last())
        }),
{
    reveal(Seq::filter);
    let rest = sources.drop_last();
    let all = Seq::new(
        sources.len(),
        |i: int| QueryView { line: (i + 1) as u32, sql: sources[i] },
    );
    assert(all.drop_last() =~= Seq::new(
        rest.len(),
        |i: int| QueryView { line: (i + 1) as u32, sql: rest[i] },
    ));
}

proof fn lemma_gathered(files: Seq<String>, sources: Seq<Result<String, String>>, n: nat)
    requires
        n <= sources.len(),
    ensures
        gathered(files, sources, n) matches Ok(qs) ==> (forall|i: int|
            0 <= i < n ==> (#[trigger] sources[i]) is Ok) && qs == sent(
            Seq::new(n, |i: int| sources[i]->Ok_0@),
        ),
        gathered(files, sources, n) matches Err(e) ==> exists|i: int|
            0 <= i < n && ((#[trigger] sources[i]) matches Err(x) && e == "cannot read '"@
                + files[i]@ + "': "@ + x@) && forall|j: int|
                0 <= j < i ==> (#[trigger] sources[j]) is Ok,
    decreases n,
{
    if n > 0 {
        let m = (n - 1) as nat;
        lemma_gathered(files, sources, m);
        let texts = Seq::new(n, |i: int| sources[i]->Ok_0@);
        assert(texts.drop_last() =~= Seq::new(m, |i: int| sources[i]->Ok_0@));
        lemma_sent(texts);
        match gathered(files, sources, m) {
            Ok(qs) => {
                assert(sources[n - 1] is Ok || sources[n - 1] is Err);
            },
            Err(e) => {
                let i = choose|i: int|
                    0 <= i < m && ((#[trigger] sources[i]) matches Err(x) && e == "cannot read '"@
                        + files[i]@ + "': "@ + x@) && forall|j: int|
                        0 <= j < i ==> (#[trigger] sources[j]) is Ok;
                assert(sources[i] is Err);
            },
        }
    } else {
        reveal(Seq::filter);
        assert(sent(Seq::new(n, |i: int| sources[i]->Ok_0@)) =~= seq![]);
    }
}

/// Every source that holds SQL is sent, whole, under its place in the list of files; blank
/// ones are left out. One that cannot be read ends the run with an error that names it.
pub proof fn law_every_source_is_sent(
    files: Seq<String>,
    sources: Seq<Result<String, String>>,
    n: nat,
)
    requires
        n <= sources.len(),
    ensures
        gathered(files, sources, n) is Ok <==> forall|i: int|
            0 <= i < n ==> (#[trigger] sources[i]) is Ok,
        gathered(files, sources, n) matches Ok(qs) ==> qs == sent(
            Seq::new(n, |i: int| sources[i]->Ok_0@),
        ),
        gathered(files, sources, n) matches Err(e) ==> exists|i: int|
            0 <= i < n && ((#[trigger] sources[i]) matches Err(x) && e == "cannot read '"@
                + files[i]@ + "': "@ + x@) && forall|j: int|
                0 <= j < i ==> (#[trigger] sources[j]) is Ok,
{
    lemma_gathered(files, sources, n);
    if gathered(files, sources, n) is Err {
        let e = gathered(files, sources, n)->Err_0;
        let i = choose|i: int|
            0 <= i < n && ((#[trigger] sources[i]) matches Err(x) && e == "cannot read '"@
                + files[i]@ + "': "@ + x@) && forall|j: int|
                0 <= j < i ==> (#[trigger] sources[j]) is Ok;
        assert(!(sources[i] is Ok));
    }
}

/// Every statement on the command line that holds SQL is sent, under its place.
pub proof fn law_every_statement_is_sent(sql: Seq<String>, n: nat)
    requires
        n <= sql.len(),
    ensures
        inline_queries(sql, n) == sent(Seq::new(n, |i: int| sql[i]@)),
    decreases n,
{
    let texts = Seq::new(n, |i: int| sql[i]@);
    if n > 0 {
        let m = (n - 1) as nat;
        law_every_statement_is_sent(sql, m);
        assert(texts.drop_last() =~= Seq::new(m, |i: int| sql[i]@));
        lemma_sent(texts);
    } else {
        reveal(Seq::filter);
        assert(sent(texts) =~= seq![]);
    }
}

/// In a workspace that wants sanitized SQL each statement is sent sanitized, in its place;
/// in any other as it stands. A key that is refused ends the run before anything is sent.
pub proof fn law_sanitized_workspaces_get_sanitized_sql(
    run: CheckRun,
    queries: Seq<QueryView>,
    reply: Result<WorkspaceConfig, ApiErrorView>,
    k: int,
)
    requires
        0 <= k < queries.len(),
    ensures
        ({
            let step = with_workspace(run, queries, reply);
            let refused = reply matches Err(e) && e is Auth;
            let wanted = reply matches Ok(cfg) && opt_view(cfg.telemetry_query_mode) == Some(
                "sanitized"@,
            );
            &&& refused ==> step.action == ActionView::Exit(3)
            &&& !refused ==> {
                &&& step.action is Send
                &&& step.action->Send_queries.len() == queries.len()
                &&& step.action->Send_queries[k].line == queries[k].line
                &&& step.action->Send_queries[k].sql == (if wanted {
                    sanitized(queries[k].sql, run.dialect@)
                } else {
                    queries[k].sql
                })
            }
        }),
{
}

/// A run is sent to its own address, with its own key, dialect and provenance; the name of
/// its file goes along where it has just one that is no standard input.
pub proof fn law_runs_are_sent_with_their_own_settings(run: CheckRun)
    ensures
        ({
            let p = params_of(run);
            &&& p.api_url == run.api_url@
            &&& p.api_key == run.api_key@
            &&& p.dialect == run.dialect@
            &&& p.concurrency == run.concurrency
            &&& p.receipt == run.opts.receipt is Some
            &&& p.timeout_secs == run.transport.timeout_secs
            &&& p.ca_bundle is Some == run.transport.ca_bundle is Some
            &&& run.transport.ca_bundle matches Some(c) ==> p.ca_bundle == Some(c@)
            &&& p.file_name is Some <==> run.files@.len() == 1 && run.files@[0]@ != "-"@
            &&& p.file_name matches Some(f) ==> f == run.files@[0]@
            &&& p.provenance is Some == run.provenance is Some
            &&& run.provenance matches Some(v) ==> {
                &&& p.provenance->Some_0.git_sha == opt_view(v.git_sha)
                &&& p.provenance->Some_0.git_ref == opt_view(v.git_ref)
                &&& p.provenance->Some_0.ci_provider == v.ci_provider@
                &&& p.provenance->Some_0.ci_run_url == opt_view(v.ci_run_url)
                &&& p.provenance->Some_0.actor == opt_view(v.actor)
            }
        }),
{
}

// ── Failures ──────────────────────────────────────────────────────────────────

/// A run that fails ends with the code of its failure: a refused key, or a backend that does
/// not answer as it should. It is waved through only where the backend was not reached and a
/// reason was given for that.
pub proof fn law_failures_end_with_their_code(run: CheckRun, e: ApiErrorView, unix_time: int)
    ensures
        ({
            let step = with_failure(run, e, unix_time);
            let reason = run.opts.allow_degraded;
            let waved = e is Transport && reason is Some && trim(reason->Some_0@).len() > 0;
            &&& step.action is Record <==> waved
            &&& waved ==> step.action->Record_reason == trim(reason->Some_0@)
            &&& !waved ==> step.action == ActionView::Exit(
                if e is Auth {
                    3
                } else if e is Transport && reason is Some {
                    2
                } else {
                    4
                },
            )
        }),
{
}

/// A note says how many checks are left where fifty or fewer are.
pub proof fn law_low_quotas_are_announced(remaining: Option<i64>)
    ensures
        quota_note_of(remaining) is Some <==> (remaining matches Some(n) && n <= 50),
{
}

// ── The verdict ───────────────────────────────────────────────────────────────

/// Whether a status fails a run.
pub open spec fn fails(status: Seq<char>, fail_on: FailOn) -> bool {
    ||| status == "BLOCKED"@
    ||| (status == "FLAGGED"@ && !(fail_on is Block))
    ||| (status == "MONITORED"@ && fail_on is Any)
}

/// The text of the first source with a path.
pub open spec fn is_text_of(sql: Seq<char>, sources: Seq<SourceText>, path: Seq<char>) -> bool {
    exists|k: int|
        0 <= k < sources.len() && (#[trigger] sources[k]).path@ == path && opt_view(sources[k].text)
            == Some(sql) && forall|j: int| 0 <= j < k ==> (#[trigger] sources[j]).path@ != path
}

proof fn lemma_source_text(sources: Seq<SourceText>, path: Seq<char>, sql: Seq<char>)
    ensures
        source_text(sources, path) == Some(sql) <==> is_text_of(sql, sources, path),
    decreases sources.len(),
{
    if sources.len() > 0 {
        let rest = sources.drop_first();
        lemma_source_text(rest, path, sql);
        assert(forall|k: int| 0 <= k < rest.len() ==> rest[k] == sources[k + 1]);
        if sources[0].path@ == path {
            if is_text_of(sql, sources, path) {
                let k = choose|k: int|
                    0 <= k < sources.len() && (#[trigger] sources[k]).path@ == path && opt_view(
                        sources[k].text,
                    ) == Some(sql) && forall|j: int|
                        0 <= j < k ==> (#[trigger] sources[j]).path@ != path;
                assert(k == 0) by {
                    if k > 0 {
                        assert(sources[0].path@ != path);
                    }
                }
            }
            if source_text(sources, path) == Some(sql) {
                assert(sources[0].path@ == path && opt_view(sources[0].text) == Some(sql));
            }
        } else {
            if is_text_of(sql, rest, path) {
                let k = choose|k: int|
                    0 <= k < rest.len() && (#[trigger] rest[k]).path@ == path && opt_view(
                        rest[k].text,
                    ) == Some(sql) && forall|j: int|
                        0 <= j < k ==> (#[trigger] rest[j]).path@ != path;
                assert(sources[k + 1].path@ == path);
                assert forall|j: int| 0 <= j < k + 1 implies (#[trigger] sources[j]).path@
                    != path by {
                    if j > 0 {
                        assert(rest[j - 1].path@ != path);
                    }
                }
            }
            if is_text_of(sql, sources, path) {
                let k = choose|k: int|
                    0 <= k < sources.len() && (#[trigger] sources[k]).path@ == path && opt_view(
                        sources[k].text,
                    ) == Some(sql) && forall|j: int|
                        0 <= j < k ==> (#[trigger] sources[j]).path@ != path;
                assert(k > 0);
                assert(rest[k - 1].path@ == path);
                assert forall|j: int| 0 <= j < k - 1 implies (#[trigger] rest[j]).path@ != path by {
                    assert(sources[j + 1].path@ != path);
                }
            }
        }
    }
}

/// Whether the source of a finding gives `reason` for ignoring its rule. Standard input is
/// not read again.
pub open spec fn gives_reason(
    q: QueryResult,
    files: Seq<String>,
    sources: Seq<SourceText>,
    reason: Seq<char>,
) -> bool {
    &&& q.rule_code is Some
    &&& file_of(q, files) != "<stdin>"@
    &&& exists|sql: Seq<char>| #[trigger]
        is_text_of(sql, sources, file_of(q, files)) && suppression(sql, q.rule_code->Some_0@)
            == Some(reason)
}

/// The reason for which a finding is ignored is that which the source it stands in gives for
/// its own rule.
pub proof fn law_findings_are_ignored_by_their_own_source(
    q: QueryResult,
    files: Seq<String>,
    sources: Seq<SourceText>,
    reason: Seq<char>,
)
    ensures
        inline_reason(q, files, sources) == Some(reason) <==> gives_reason(
            q,
            files,
            sources,
            reason,
        ),
{
    let path = file_of(q, files);
    if inline_reason(q, files, sources) == Some(reason) {
        let sql = source_text(sources, path)->Some_0;
        lemma_source_text(sources, path, sql);
    }
    if gives_reason(q, files, sources, reason) {
        let sql = choose|sql: Seq<char>| #[trigger]
            is_text_of(sql, sources, path) && suppression(sql, q.rule_code->Some_0@) == Some(
                reason,
            );
        lemma_source_text(sources, path, sql);
    }
}

/// Whether a result is excused: a finding with its fingerprint is in the baseline, or
/// ignored by the source it stands in.
pub open spec fn excused(
    q: QueryResult,
    resp: CheckResponse,
    files: Seq<String>,
    baseline: Option<Baseline>,
    sources: Seq<SourceText>,
) -> bool {
    exists|i: int|
        0 <= i < resp.queries@.len() && (#[trigger] resp.queries@[i]).status@ != "ALLOWED"@
            && print_of(resp.queries@[i], files) == print_of(q, files) && (in_baseline(
            print_of(q, files),
            baseline,
        ) || exists|reason: Seq<char>| gives_reason(resp.queries@[i], files, sources, reason))
}

/// Whether an entry of the baseline has the fingerprint.
pub open spec fn in_baseline(fp: Seq<char>, baseline: Option<Baseline>) -> bool {
    baseline matches Some(b) && exists|k: int|
        0 <= k < b.entries@.len() && (#[trigger] b.entries@[k]).fingerprint@ == fp
}

proof fn lemma_covered(fp: Seq<char>, baseline: Option<Baseline>)
    ensures
        covered(baseline).contains(fp) <==> in_baseline(fp, baseline),
{
    if let Some(b) = baseline {
        let fps = b.entries@.map_values(|e: crate::baseline::Entry| e.fingerprint@);
        if fps.contains(fp) {
            let k = choose|k: int| 0 <= k < fps.len() && fps[k] == fp;
            assert(b.entries@[k].fingerprint@ == fp);
        }
        if in_baseline(fp, baseline) {
            let k = choose|k: int|
                0 <= k < b.entries@.len() && (#[trigger] b.entries@[k]).fingerprint@ == fp;
            assert(fps[k] == fp);
        }
    }
}

proof fn lemma_excused(
    q: QueryResult,
    resp: CheckResponse,
    files: Seq<String>,
    baseline: Option<Baseline>,
    sources: Seq<SourceText>,
)
    ensures
        suppressed(findings(resp.queries@), files, covered(baseline), sources).contains(
            fingerprint_in(q, files),
        ) <==> excused(q, resp, files, baseline, sources),
{
    let qs = resp.queries@;
    let fs = findings(qs);
    let fp = fingerprint_in(q, files);
    law_findings_are_known_by_rule_file_and_path(q, files);
    law_suppressed_fingerprints(fs, files, covered(baseline), sources, fp);
    lemma_covered(fp, baseline);
    let is = |f: QueryResult|
        fingerprint_in(f, files) == fp && (covered(baseline).contains(fp) || inline_reason(
            f,
            files,
            sources,
        ) is Some);
    if suppressed(fs, files, covered(baseline), sources).contains(fp) {
        let i = choose|i: int|
            0 <= i < fs.len() && fingerprint_in(#[trigger] fs[i], files) == fp && (covered(
                baseline,
            ).contains(fp) || inline_reason(fs[i], files, sources) is Some);
        let f = fs[i];
        assert(fs.contains(f));
        crate::output::law_findings_are_the_results_worth_reporting(qs, f);
        let j = choose|j: int| 0 <= j < qs.len() && qs[j] == f;
        law_findings_are_known_by_rule_file_and_path(f, files);
        if inline_reason(f, files, sources) is Some {
            let reason = inline_reason(f, files, sources)->Some_0;
            law_findings_are_ignored_by_their_own_source(f, files, sources, reason);
            assert(gives_reason(qs[j], files, sources, reason));
        }
        assert(qs[j].status@ != "ALLOWED"@);
    }
    if excused(q, resp, files, baseline, sources) {
        let j = choose|j: int|
            0 <= j < resp.queries@.len() && (#[trigger] resp.queries@[j]).status@ != "ALLOWED"@
                && print_of(resp.queries@[j], files) == print_of(q, files) && (in_baseline(
                print_of(q, files),
                baseline,
            ) || exists|reason: Seq<char>| gives_reason(resp.queries@[j], files, sources, reason));
        let f = qs[j];
        assert(qs.contains(f));
        crate::output::law_findings_are_the_results_worth_reporting(qs, f);
        let i = choose|i: int| 0 <= i < fs.len() && fs[i] == f;
        law_findings_are_known_by_rule_file_and_path(f, files);
        if exists|reason: Seq<char>| gives_reason(f, files, sources, reason) {
            let reason = choose|reason: Seq<char>| gives_reason(f, files, sources, reason);
            law_findings_are_ignored_by_their_own_source(f, files, sources, reason);
        }
        assert(fingerprint_in(fs[i], files) == fp);
    }
}

proof fn lemma_failing(
    qs: Seq<QueryResult>,
    files: Seq<String>,
    out: Set<Seq<char>>,
    fail_on: FailOn,
)
    ensures
        failing_of(qs, files, out, fail_on) == qs.filter(
            |q: QueryResult|
                fails(q.status@, fail_on) && !out.contains(fingerprint_in(q, files)),
        ),
    decreases qs.len(),
{
    reveal(Seq::filter);
    if qs.len() > 0 {
        lemma_failing(qs.drop_last(), files, out, fail_on);
    }
}

/// The findings that fail a run are the results with a status that the threshold takes in
/// and that are not excused, in order.
pub proof fn law_failures_are_what_is_not_excused(
    run: CheckRun,
    resp: CheckResponse,
    baseline: Option<Baseline>,
    sources: Seq<SourceText>,
)
    ensures
        failures(run, resp, baseline, sources) == resp.queries@.filter(
            |q: QueryResult|
                fails(q.status@, run.fail_on) && !excused(
                    q,
                    resp,
                    run.files@,
                    baseline,
                    sources,
                ),
        ),
{
    let out = suppressed(findings(resp.queries@), run.files@, covered(baseline), sources);
    lemma_failing(resp.queries@, run.files@, out, run.fail_on);
    let f = |q: QueryResult|
        fails(q.status@, run.fail_on) && !out.contains(fingerprint_in(q, run.files@));
    let g = |q: QueryResult|
        fails(q.status@, run.fail_on) && !excused(q, resp, run.files@, baseline, sources);
    assert forall|q: QueryResult| #[trigger] f(q) == g(q) by {
        lemma_excused(q, resp, run.files@, baseline, sources);
    }
    assert(f =~= g);
}

/// A run ends with code one exactly where one of its results fails it, and with zero
/// otherwise; one that only monitors always ends with zero.
pub proof fn law_verdicts_follow_the_findings(
    run: CheckRun,
    resp: CheckResponse,
    baseline: Option<Baseline>,
    sources: Seq<SourceText>,
)
    ensures
        ({
            let action = with_sources(run, resp, baseline, sources).action;
            let guilty = exists|i: int|
                0 <= i < resp.queries@.len() && fails(
                    (#[trigger] resp.queries@[i]).status@,
                    run.fail_on,
                ) && !excused(resp.queries@[i], resp, run.files@, baseline, sources);
            &&& action is Finish
            &&& action->Finish_code == (if guilty && !run.opts.monitor {
                1u8
            } else {
                0u8
            })
        }),
{
    let qs = resp.queries@;
    law_failures_are_what_is_not_excused(run, resp, baseline, sources);
    let g = |q: QueryResult|
        fails(q.status@, run.fail_on) && !excused(q, resp, run.files@, baseline, sources);
    let failing = qs.filter(g);
    if failing.len() > 0 {
        qs.lemma_filter_pred(g, 0);
        qs.lemma_filter_contains_rev(g, failing[0]);
        let i = choose|i: int| 0 <= i < qs.len() && qs[i] == failing[0];
        assert(g(qs[i]));
    }
    if exists|i: int|
        0 <= i < qs.len() && fails((#[trigger] qs[i]).status@, run.fail_on) && !excused(
            qs[i],
            resp,
            run.files@,
            baseline,
            sources,
        ) {
        let i = choose|i: int|
            0 <= i < qs.len() && fails((#[trigger] qs[i]).status@, run.fail_on) && !excused(
                qs[i],
                resp,
                run.files@,
                baseline,
                sources,
            );
        assert(g(qs[i]));
        qs.lemma_filter_contains(g, i);
        assert(failing.len() > 0);
    }
}

} // verus!
