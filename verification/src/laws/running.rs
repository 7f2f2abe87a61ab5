//! The steps of a check and of a baseline, one after the other.
use vstd::prelude::*;
use crate::api::{provenance_view, receipt_views, CheckResponse, ProvenanceView, QueryResult, WorkspaceConfig, ApiErrorView};
use crate::baseline::Baseline;
use crate::baseline_run::{BaselineActionView, BaselineRun};
use crate::check::{covered_count, degraded_doc, inline_notes, inline_reason, provenance_doc, reread_paths, QueryView, SourceText};
use crate::check_run::{annotations_of, closing, explanation_of, first_files, first_step, inline_queries, refs, with_baseline, with_failure, with_receipts, with_report, with_response, ActionView, CheckOptions, CheckRun};
use crate::exit::LineView;
use crate::json::{json_compact_text, lemma_member, member, number, object, text_or_null, JsonView};
use crate::laws::baselines::{file_of, law_findings_are_known_by_rule_file_and_path, print_of};
use crate::laws::reports::{at, command, explained, is_list_of, item, law_annotations_hold_every_failure, law_explanations_hold_every_failure, or_nothing, text, text_or_nothing, whole};
use crate::output::{failure_head, failure_tail, findings, first_rule, report, Target};
use crate::sanitize::sanitized;
use crate::text::{opt_view, trim};
use crate::version::version_gate_of;

verus! {

// ── The first step ────────────────────────────────────────────────────────────

/// Whether the command line asks for files in any way.
pub open spec fn selects_files(opts: CheckOptions) -> bool {
    opts.files@.len() > 0 || opts.changed || opts.since is Some || opts.stdin_file_list
}

/// A check begins with what it was asked to check: statements of the command line go on at
/// once, files are read, listed or compared first. A bypass without a reason is refused, and
/// so are statements together with files, and nothing at all.
pub proof fn law_checks_begin_with_what_was_asked(opts: CheckOptions, base: Option<Seq<char>>)
    ensures
        ({
            let action = first_step(opts, base).action;
            let blank = opts.allow_degraded matches Some(r) && trim(r@).len() == 0;
            let diff = opts.changed || opts.since is Some;
            let sql = opts.sql@.len() > 0;
            let given = opts.files@.len() > 0;
            let list = opts.stdin_file_list;
            let against = if opts.since is Some {
                opt_view(opts.since)
            } else {
                base
            };
            let queries = inline_queries(opts.sql@, opts.sql@.len());
            if blank || (sql && selects_files(opts)) || (!sql && !selects_files(opts)) {
                action == ActionView::Exit(2)
            } else if sql {
                if queries.len() == 0 {
                    action == ActionView::Exit(2)
                } else {
                    action == (ActionView::FetchWorkspace { queries })
                }
            } else if list {
                if given || diff {
                    action == ActionView::Exit(2)
                } else {
                    action is ReadFileList
                }
            } else if diff {
                if given || against is None {
                    action == ActionView::Exit(2)
                } else {
                    action == (ActionView::Diff { base: against->Some_0 })
                }
            } else {
                action is ReadSources
            }
        }),
{
}

/// The sources of a run are the files that were given, or one unnamed source for each
/// statement of the command line.
pub proof fn law_statements_have_unnamed_sources(opts: CheckOptions, k: int)
    ensures
        opts.sql@.len() > 0 ==> first_files(opts).len() == opts.sql@.len(),
        opts.sql@.len() > 0 && 0 <= k < opts.sql@.len() ==> first_files(opts)[k] == "<inline>"@,
        opts.sql@.len() == 0 ==> first_files(opts).len() == opts.files@.len(),
        opts.sql@.len() == 0 && 0 <= k < opts.files@.len() ==> first_files(opts)[k]
            == opts.files@[k]@,
{
}

// ── After the answer ──────────────────────────────────────────────────────────

/// The report of a run is that of its response in the format that was asked for, for the
/// file that was named or for the terminal; it is written unless the backend's version rules
/// it out.
pub proof fn law_runs_report_their_response(run: CheckRun, resp: CheckResponse)
    ensures
        ({
            let step = with_response(run, resp);
            let refused = version_gate_of(opt_view(resp.api_version_header)) is Err;
            let target = if run.opts.output is Some {
                Target::File
            } else {
                Target::Stdout
            };
            &&& !refused ==> step.action == (ActionView::WriteReport {
                resp,
                text: report(
                    resp,
                    run.opts.format,
                    run.files@,
                    run.opts.quiet,
                    target,
                    !run.opts.no_color,
                ),
            })
            &&& refused ==> step.action is Exit
        }),
{
}

/// What follows the report: the receipts where they were asked for and there are any, then
/// the verdict. A report that cannot be written ends the run with an error.
pub proof fn law_receipts_follow_the_report(run: CheckRun, resp: CheckResponse, e: Seq<char>)
    ensures
        with_report(run, resp, Err(e)).action == ActionView::Exit(2),
        run.opts.receipt matches Some(path) && resp.receipts().len() > 0 ==> with_report(
            run,
            resp,
            Ok(()),
        ).action == (ActionView::WriteReceipts {
            resp,
            receipts: receipt_views(resp.receipts()),
            path: run.opts.receipt->Some_0@,
        }),
        !(run.opts.receipt is Some && resp.receipts().len() > 0) ==> with_report(
            run,
            resp,
            Ok(()),
        ).action == closing(run, resp, seq![]).action,
{
}

/// A run that only monitors ends with success; any other is judged, against its baseline
/// where it has one, and with the sources of its findings read again.
pub proof fn law_runs_are_judged_unless_they_monitor(
    run: CheckRun,
    resp: CheckResponse,
    said: Seq<LineView>,
    path: Seq<char>,
    b: Baseline,
    e: Seq<char>,
)
    ensures
        ({
            let action = closing(run, resp, said).action;
            let paths = reread_paths(findings(resp.queries@), run.files@);
            &&& run.opts.monitor ==> action == ActionView::Exit(0)
            &&& !run.opts.monitor ==> (run.baseline_path matches Some(p) ==> action == (
            ActionView::LoadBaseline { resp, path: p@ }))
            &&& !run.opts.monitor && run.baseline_path is None ==> action == (ActionView::Reread {
                resp,
                baseline: None,
                paths,
            })
            &&& with_baseline(run, resp, Ok(b)).action == (ActionView::Reread {
                resp,
                baseline: Some(b),
                paths,
            })
            &&& with_baseline(run, resp, Err(e)).action == ActionView::Exit(2)
            &&& with_receipts(run, resp, path, Ok(())).action == action
            &&& with_receipts(run, resp, path, Err(e)).action == ActionView::Exit(2)
        }),
{
}

/// The sources that are read again are those of the findings with a rule, standard input
/// left out.
pub proof fn law_sources_of_findings_are_read_again(fs: Seq<QueryResult>, files: Seq<String>)
    ensures
        reread_paths(fs, files) == fs.filter(
            |q: QueryResult| q.rule_code is Some && file_of(q, files) != "<stdin>"@,
        ).map_values(|q: QueryResult| file_of(q, files)),
    decreases fs.len(),
{
    reveal(Seq::filter);
    let has = |q: QueryResult| q.rule_code is Some && file_of(q, files) != "<stdin>"@;
    let its = |q: QueryResult| file_of(q, files);
    if fs.len() > 0 {
        law_sources_of_findings_are_read_again(fs.drop_last(), files);
        let rest = fs.drop_last().filter(has);
        assert(rest.push(fs.last()).map_values(its) =~= rest.map_values(its).push(its(fs.last())));
    } else {
        assert(fs.filter(has).map_values(its) =~= seq![]);
    }
}

/// The note on a baseline counts the findings that it covers.
pub proof fn law_covered_findings_are_counted(
    fs: Seq<QueryResult>,
    files: Seq<String>,
    baselined: Set<Seq<char>>,
)
    ensures
        covered_count(fs, files, baselined) == fs.filter(
            |q: QueryResult| baselined.contains(print_of(q, files)),
        ).len(),
    decreases fs.len(),
{
    reveal(Seq::filter);
    if fs.len() > 0 {
        law_covered_findings_are_counted(fs.drop_last(), files, baselined);
        law_findings_are_known_by_rule_file_and_path(fs.last(), files);
    }
}

/// Each finding that its source ignores is noted, in order, with its file, its rule and the
/// reason.
pub proof fn law_ignored_findings_are_noted(
    fs: Seq<QueryResult>,
    files: Seq<String>,
    sources: Seq<SourceText>,
)
    ensures
        inline_notes(fs, files, sources) == fs.filter(
            |q: QueryResult| inline_reason(q, files, sources) is Some,
        ).map_values(
            |q: QueryResult|
                LineView::Stderr(
                    "note: "@ + file_of(q, files) + ": "@ + or_nothing(q.rule_code)
                        + " suppressed inline — "@ + inline_reason(q, files, sources)->Some_0,
                ),
        ),
    decreases fs.len(),
{
    reveal(Seq::filter);
    reveal_strlit("");
    assert(""@ =~= Seq::<char>::empty());
    let has = |q: QueryResult| inline_reason(q, files, sources) is Some;
    let its = |q: QueryResult|
        LineView::Stderr(
            "note: "@ + file_of(q, files) + ": "@ + or_nothing(q.rule_code)
                + " suppressed inline — "@ + inline_reason(q, files, sources)->Some_0,
        );
    if fs.len() > 0 {
        law_ignored_findings_are_noted(fs.drop_last(), files, sources);
        let rest = fs.drop_last().filter(has);
        assert(rest.push(fs.last()).map_values(its) =~= rest.map_values(its).push(its(fs.last())));
    } else {
        assert(fs.filter(has).map_values(its) =~= seq![]);
    }
}

/// A run that fails explains each finding that fails it and, on GitHub, annotates it; a quiet
/// run says nothing.
pub proof fn law_failed_runs_explain_every_failure(
    run: CheckRun,
    resp: CheckResponse,
    failing: Seq<QueryResult>,
)
    ensures
        run.opts.quiet || failing.len() == 0 ==> explanation_of(run, resp, failing).len() == 0,
        !run.opts.quiet && failing.len() > 0 ==> explanation_of(run, resp, failing) == failure_head(
            failing.len(),
            resp.summary.ruleset_version@,
        ) + failing.map_values(|q: QueryResult| explained(q, run.files@)).flatten() + failure_tail(
            first_rule(refs(failing)),
        ),
        run.opts.quiet || !run.on_github ==> annotations_of(run, failing).len() == 0,
        !run.opts.quiet && run.on_github ==> annotations_of(run, failing) == failing.map_values(
            |q: QueryResult| command(q, run.files@),
        ).flatten(),
{
    law_explanations_hold_every_failure(refs(failing), run.files@);
    law_annotations_hold_every_failure(refs(failing), run.files@);
    assert(refs(failing).map_values(|q: &QueryResult| explained(*q, run.files@))
        =~= failing.map_values(|q: QueryResult| explained(q, run.files@)));
    assert(refs(failing).map_values(|q: &QueryResult| command(*q, run.files@))
        =~= failing.map_values(|q: QueryResult| command(q, run.files@)));
}

// ── Runs that are waved through ───────────────────────────────────────────────

proof fn lemma_record(
    unix_time: int,
    reason: Seq<char>,
    files: Seq<String>,
    provenance: Option<ProvenanceView>,
)
    ensures
        member(degraded_doc(unix_time, reason, files, provenance), "kind"@) == Some(
            JsonView::Text("vericto-degraded-run"@),
        ),
        member(degraded_doc(unix_time, reason, files, provenance), "version"@) == Some(number(1)),
        member(degraded_doc(unix_time, reason, files, provenance), "unix_time"@) == Some(
            number(unix_time),
        ),
        member(degraded_doc(unix_time, reason, files, provenance), "reason"@) == Some(
            JsonView::Text(reason),
        ),
        member(degraded_doc(unix_time, reason, files, provenance), "files"@) == Some(
            JsonView::Array(files.map_values(|s: String| JsonView::Text(s@))),
        ),
        member(degraded_doc(unix_time, reason, files, provenance), "provenance"@) == Some(
            provenance_doc(provenance),
        ),
{
    reveal_strlit("kind");
    reveal_strlit("version");
    reveal_strlit("unix_time");
    reveal_strlit("reason");
    reveal_strlit("files");
    reveal_strlit("provenance");
    let fields = seq![
        ("kind"@, JsonView::Text("vericto-degraded-run"@)),
        ("version"@, number(1)),
        ("unix_time"@, number(unix_time)),
        ("reason"@, JsonView::Text(reason)),
        ("files"@, JsonView::Array(files.map_values(|s: String| JsonView::Text(s@)))),
        ("provenance"@, provenance_doc(provenance)),
    ];
    assert(object(fields) == degraded_doc(unix_time, reason, files, provenance));
    assert("kind"@.len() == 4 && "version"@.len() == 7 && "unix_time"@.len() == 9
        && "reason"@.len() == 6 && "files"@.len() == 5 && "provenance"@.len() == 10);
    assert(fields[0].0 == "kind"@ && fields[1].0 == "version"@ && fields[2].0 == "unix_time"@
        && fields[3].0 == "reason"@ && fields[4].0 == "files"@ && fields[5].0 == "provenance"@);
    lemma_member(fields, 0);
    lemma_member(fields, 1);
    lemma_member(fields, 2);
    lemma_member(fields, 3);
    lemma_member(fields, 4);
    lemma_member(fields, 5);
}

proof fn lemma_provenance(v: ProvenanceView)
    ensures
        member(provenance_doc(Some(v)), "git_sha"@) == Some(text_or_null(v.git_sha)),
        member(provenance_doc(Some(v)), "git_ref"@) == Some(text_or_null(v.git_ref)),
        member(provenance_doc(Some(v)), "ci_provider"@) == Some(JsonView::Text(v.ci_provider)),
        member(provenance_doc(Some(v)), "ci_run_url"@) == Some(text_or_null(v.ci_run_url)),
        member(provenance_doc(Some(v)), "actor"@) == Some(text_or_null(v.actor)),
{
    reveal_strlit("git_sha");
    reveal_strlit("git_ref");
    reveal_strlit("ci_provider");
    reveal_strlit("ci_run_url");
    reveal_strlit("actor");
    let fields = seq![
        ("git_sha"@, text_or_null(v.git_sha)),
        ("git_ref"@, text_or_null(v.git_ref)),
        ("ci_provider"@, JsonView::Text(v.ci_provider)),
        ("ci_run_url"@, text_or_null(v.ci_run_url)),
        ("actor"@, text_or_null(v.actor)),
    ];
    assert(object(fields) == provenance_doc(Some(v)));
    assert("git_sha"@.len() == 7 && "git_ref"@.len() == 7 && "ci_provider"@.len() == 11
        && "ci_run_url"@.len() == 10 && "actor"@.len() == 5);
    assert("git_sha"@[4] == 's' && "git_ref"@[4] == 'r');
    assert(fields[0].0 == "git_sha"@ && fields[1].0 == "git_ref"@ && fields[2].0 == "ci_provider"@
        && fields[3].0 == "ci_run_url"@ && fields[4].0 == "actor"@);
    lemma_member(fields, 0);
    lemma_member(fields, 1);
    lemma_member(fields, 2);
    lemma_member(fields, 3);
    lemma_member(fields, 4);
}

/// The record of a run that was waved through says when, why, for which files and by whom.
pub proof fn law_waved_runs_are_recorded(run: CheckRun, e: ApiErrorView, unix_time: int, k: int)
    requires
        with_failure(run, e, unix_time).action is Record,
    ensures
        ({
            let action = with_failure(run, e, unix_time).action;
            let reason = trim(run.opts.allow_degraded->Some_0@);
            let doc = degraded_doc(
                unix_time,
                reason,
                run.files@,
                provenance_view(run.provenance),
            );
            let r = Some(doc);
            let by = at(r, "provenance"@);
            &&& action->Record_reason == reason
            &&& action->Record_record == json_compact_text(doc) + "\n"@
            &&& at(r, "kind"@) == text("vericto-degraded-run"@)
            &&& at(r, "version"@) == whole(1)
            &&& at(r, "unix_time"@) == whole(unix_time)
            &&& at(r, "reason"@) == text(reason)
            &&& is_list_of(at(r, "files"@), run.files@.len())
            &&& 0 <= k < run.files@.len() ==> item(at(r, "files"@), k) == text(run.files@[k]@)
            &&& run.provenance is None ==> by == Some(JsonView::Null)
            &&& run.provenance matches Some(v) ==> {
                &&& at(by, "git_sha"@) == text_or_nothing(v.git_sha)
                &&& at(by, "git_ref"@) == text_or_nothing(v.git_ref)
                &&& at(by, "ci_provider"@) == text(v.ci_provider@)
                &&& at(by, "ci_run_url"@) == text_or_nothing(v.ci_run_url)
                &&& at(by, "actor"@) == text_or_nothing(v.actor)
            }
        }),
{
    let reason = trim(run.opts.allow_degraded->Some_0@);
    lemma_record(unix_time, reason, run.files@, provenance_view(run.provenance));
    if let Some(v) = provenance_view(run.provenance) {
        lemma_provenance(v);
    }
}

// ── Baselines ─────────────────────────────────────────────────────────────────

/// A baseline is made of the files that were asked for, and its SQL is sent as that of a
/// check: sanitized where the workspace wants it, to its own address with its own key.
pub proof fn law_baselines_are_checked_like_runs(
    run: BaselineRun,
    base: Option<Seq<char>>,
    queries: Seq<QueryView>,
    reply: Result<WorkspaceConfig, ApiErrorView>,
    k: int,
)
    requires
        0 <= k < queries.len(),
    ensures
        ({
            let first = crate::baseline_run::first_action(run, base);
            let diff = run.changed || run.since is Some;
            let given = run.given@.len() > 0;
            let against = if run.since is Some {
                opt_view(run.since)
            } else {
                base
            };
            let step = crate::baseline_run::with_workspace(run, queries, reply);
            let refused = reply matches Err(e) && e is Auth;
            let wanted = reply matches Ok(cfg) && opt_view(cfg.telemetry_query_mode) == Some(
                "sanitized"@,
            );
            &&& first is ReadSources <==> given && !diff
            &&& first is Diff <==> !given && diff && against is Some
            &&& first matches BaselineActionView::Diff { base: b } ==> b == against->Some_0
            &&& first matches BaselineActionView::Exit(s) ==> s.code == 2
            &&& refused ==> (step matches BaselineActionView::Exit(s) && s.code == 3)
            &&& !refused ==> {
                &&& step is Send
                &&& step->Send_queries.len() == queries.len()
                &&& step->Send_queries[k].line == queries[k].line
                &&& step->Send_queries[k].sql == (if wanted {
                    sanitized(queries[k].sql, run.dialect@)
                } else {
                    queries[k].sql
                })
                &&& step->Send_params.api_url == run.api_url@
                &&& step->Send_params.api_key == run.api_key@
                &&& step->Send_params.dialect == run.dialect@
                &&& step->Send_params.provenance == provenance_view(run.provenance)
                &&& step->Send_params.receipt == false
            }
        }),
{
}

} // verus!
