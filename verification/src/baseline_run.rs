//! Recording and pruning a baseline, as a machine: each function takes the run and what
//! came of the last action, and says what follows.
use vstd::prelude::*;
use crate::api::{error_text, outcome_view, provenance_view, ApiError, ApiErrorView, CheckParams, CheckResponse, Provenance, QueryInput, Transport, WorkspaceConfig};
use crate::auth::{exit_code_of, failure_code};
use crate::baseline::{drifted, entry_views, finding_fingerprints, law_fresh_baseline_does_not_drift, matching, pruned, recorded, referred, stale, Baseline, EntryView};
use crate::check::{collect_queries, diffed, file_plan, files_of, files_or_stop, gathered, law_sanitized_mode_sends_no_literals, on_diff, on_workspace, preflight, queries_or_stop, query_views, resolve_files, sanitized_queries, FilePlan, FilePlanView, QueryView};
use crate::check_run::{add_note, note_lines, written_view, ParamsView};
use crate::ci_env::{base_ref, changed_files, detected_base_ref, printed, provider_in, CommandOutput, EnvVars, Provider};
use crate::exit::{dealt_with, error_stop, line_views, stop_with, Line, LineView, Stop, StopView, OK, USAGE};
use crate::output::findings;
use crate::sanitize::{masked, tokens};
use crate::text::{copy_text, copy_texts, decimal, decimal_text, opt_view, text_views};

verus! {

/// What a run does with the findings.
#[derive(Debug)]
pub enum BaselineGoal {
    /// Write them to a file.
    Record { out: String },
    /// Drop the entries of a baseline that none of them matches.
    Prune { path: String, baseline: Baseline, dry_run: bool },
}

/// A run for a baseline.
#[derive(Debug)]
pub struct BaselineRun {
    /// The files that the command line names.
    pub given: Vec<String>,
    pub changed: bool,
    pub since: Option<String>,
    pub api_url: String,
    pub api_key: String,
    pub dialect: String,
    pub provenance: Option<Provenance>,
    pub transport: Transport,
    /// The sources of the run, once they are known.
    pub files: Vec<String>,
}

/// What to do next.
#[derive(Debug)]
pub enum BaselineAction {
    /// Run git for the files that differ from a ref.
    Diff { base: String },
    /// Read the files of the run in order, up to the first that cannot be read.
    ReadSources,
    /// Read the workspace's settings.
    FetchWorkspace { queries: Vec<QueryInput> },
    /// Say the lines, then send the requests of the run.
    Send { say: Vec<Line>, params: CheckParams, queries: Vec<QueryInput> },
    /// Write the baseline; `done` is what to say then.
    Save { baseline: Baseline, path: String, done: String },
    Exit(Stop),
}

pub enum BaselineActionView {
    Diff { base: Seq<char> },
    ReadSources,
    FetchWorkspace { queries: Seq<QueryView> },
    Send { say: Seq<LineView>, params: ParamsView, queries: Seq<QueryView> },
    Save { version: u32, entries: Seq<EntryView>, path: Seq<char>, done: Seq<char> },
    Exit(StopView),
}

impl View for BaselineAction {
    type V = BaselineActionView;

    open spec fn view(&self) -> BaselineActionView {
        match self {
            BaselineAction::Diff { base } => BaselineActionView::Diff { base: base@ },
            BaselineAction::ReadSources => BaselineActionView::ReadSources,
            BaselineAction::FetchWorkspace { queries } => BaselineActionView::FetchWorkspace {
                queries: query_views(queries@),
            },
            BaselineAction::Send { say, params, queries } => BaselineActionView::Send {
                say: line_views(say@),
                params: params@,
                queries: query_views(queries@),
            },
            BaselineAction::Save { baseline, path, done } => BaselineActionView::Save {
                version: baseline.version,
                entries: entry_views(baseline.entries@),
                path: path@,
                done: done@,
            },
            BaselineAction::Exit(s) => BaselineActionView::Exit(s@),
        }
    }
}

/// An end with success that says something.
pub open spec fn success(text: Seq<char>) -> StopView {
    StopView { code: OK, line: LineView::Stdout(text) }
}

fn succeed(text: String) -> (r: Stop)
    ensures
        r@ == success(text@),
{
    Stop { code: OK, line: Line::Stdout(text) }
}

pub open spec fn baseline_result(r: Result<Baseline, Stop>) -> Result<Baseline, StopView> {
    match r {
        Ok(b) => Ok(b),
        Err(s) => Err(s@),
    }
}

/// The baseline to prune, or the end of the run: a file that cannot be read is an error
/// of usage, and an empty baseline leaves nothing to do.
pub open spec fn prunable(path: Seq<char>, read: Result<Baseline, Seq<char>>) -> Result<
    Baseline,
    StopView,
> {
    match read {
        Err(e) => Err(error_stop(USAGE, e)),
        Ok(b) => if b.entries@.len() == 0 {
            Err(success("Baseline "@ + path + " is empty — nothing to prune."@))
        } else {
            Ok(b)
        },
    }
}

/// Decides whether there is anything to prune, before anything is sent.
pub fn prune_loaded(path: &str, read: Result<Baseline, String>) -> (r: Result<Baseline, Stop>)
    ensures
        baseline_result(r) == prunable(path@, crate::check_run::baseline_view(read)),
{
    match read {
        Err(e) => Err(stop_with(USAGE, e.as_str())),
        Ok(b) => if b.entries.len() == 0 {
            let mut text = "Baseline ".to_owned();
            text.append(path);
            text.append(" is empty — nothing to prune.");
            Err(succeed(text))
        } else {
            Ok(b)
        },
    }
}

/// The first action: where the files come from.
pub open spec fn first_action(run: BaselineRun, detected_base: Option<Seq<char>>) -> BaselineActionView {
    match file_plan(run.given@.len(), run.changed, opt_view(run.since), false, detected_base) {
        FilePlanView::Diff(base) => BaselineActionView::Diff { base },
        FilePlanView::Usage(m) => BaselineActionView::Exit(error_stop(USAGE, m)),
        _ => BaselineActionView::ReadSources,
    }
}

/// Begins a run for a baseline.
pub fn start(run: BaselineRun, env: &EnvVars, origin_head: &Option<CommandOutput>) -> (r: (
    BaselineRun,
    BaselineAction,
))
    ensures
        r.0 == (BaselineRun { files: r.0.files, ..run }),
        text_views(r.0.files@) == text_views(run.given@),
        r.1@ == first_action(run, base_ref(provider_in(*env), *env, printed(*origin_head))),
{
    let mut run = run;
    run.files = copy_texts(&run.given);
    let base = detected_base_ref(Provider::detect(env), env, origin_head);
    match resolve_files(run.given.as_slice(), run.changed, &run.since, false, base) {
        FilePlan::Diff(base) => (run, BaselineAction::Diff { base }),
        FilePlan::Usage(m) => (run, BaselineAction::Exit(stop_with(USAGE, m.as_str()))),
        _ => (run, BaselineAction::ReadSources),
    }
}

/// The action after the files of a run have been looked for.
pub open spec fn with_files(r: Result<Seq<Seq<char>>, StopView>) -> BaselineActionView {
    match r {
        Ok(_) => BaselineActionView::ReadSources,
        Err(s) => BaselineActionView::Exit(s),
    }
}

/// Goes on after git was run for the files that differ from `base`.
pub fn diff_done(run: BaselineRun, base: &str, out: &Result<CommandOutput, String>) -> (r: (
    BaselineRun,
    BaselineAction,
))
    ensures
        r.0 == (BaselineRun { files: r.0.files, ..run }),
        files_or_stop(diffed(base@, changed_files(base@, *out))) matches Ok(f) ==> text_views(
            r.0.files@,
        ) == f,
        files_or_stop(diffed(base@, changed_files(base@, *out))) is Err ==> r.0 == run,
        r.1@ == with_files(files_or_stop(diffed(base@, changed_files(base@, *out)))),
{
    match files_of(on_diff(base, out)) {
        Ok(files) => {
            let mut run = run;
            run.files = files;
            (run, BaselineAction::ReadSources)
        },
        Err(s) => (run, BaselineAction::Exit(s)),
    }
}

/// How the requests of a run are sent: without a file name and without receipts, four at
/// a time.
pub open spec fn params_of(run: BaselineRun) -> ParamsView {
    ParamsView {
        api_url: run.api_url@,
        api_key: run.api_key@,
        dialect: run.dialect@,
        file_name: None,
        provenance: provenance_view(run.provenance),
        timeout_secs: run.transport.timeout_secs,
        ca_bundle: opt_view(run.transport.ca_bundle),
        concurrency: 4,
        receipt: false,
    }
}

/// The action after the sources were read.
pub open spec fn with_queries(r: Result<Seq<QueryView>, StopView>) -> BaselineActionView {
    match r {
        Err(s) => BaselineActionView::Exit(s),
        Ok(qs) => if qs.len() == 0 {
            BaselineActionView::Exit(
                error_stop(USAGE, "no SQL to baseline (all inputs were empty)."@),
            )
        } else {
            BaselineActionView::FetchWorkspace { queries: qs }
        },
    }
}

/// Goes on after the sources were read.
pub fn sources_read(run: &BaselineRun, sources: Vec<Result<String, String>>) -> (r: BaselineAction)
    requires
        dealt_with(sources@, run.files@.len()),
    ensures
        r@ == with_queries(queries_or_stop(gathered(run.files@, sources@, sources@.len()))),
{
    match collect_queries(run.files.as_slice(), sources) {
        Err(s) => BaselineAction::Exit(s),
        Ok(queries) => {
            assert(query_views(queries@).len() == queries@.len());
            if queries.len() == 0 {
                return BaselineAction::Exit(
                    stop_with(USAGE, "no SQL to baseline (all inputs were empty)."),
                );
            }
            BaselineAction::FetchWorkspace { queries }
        },
    }
}

/// The action after the workspace's settings were read: as in a check, the literals are
/// replaced first in a workspace in sanitized mode, and a key that is refused ends the
/// run.
pub open spec fn with_workspace(
    run: BaselineRun,
    queries: Seq<QueryView>,
    reply: Result<WorkspaceConfig, ApiErrorView>,
) -> BaselineActionView {
    match preflight(queries, run.dialect@, reply) {
        Err(s) => BaselineActionView::Exit(s),
        Ok((qs, note)) => BaselineActionView::Send {
            say: note_lines(note),
            params: params_of(run),
            queries: qs,
        },
    }
}

/// Goes on after the workspace's settings were read.
pub fn workspace_read(
    run: &BaselineRun,
    queries: Vec<QueryInput>,
    reply: Result<WorkspaceConfig, ApiError>,
) -> (r: BaselineAction)
    ensures
        r@ == with_workspace(*run, query_views(queries@), outcome_view(reply)),
{
    match on_workspace(queries, run.dialect.as_str(), reply) {
        Err(s) => BaselineAction::Exit(s),
        Ok((queries, note)) => {
            let params = CheckParams {
                api_url: run.api_url.clone(),
                api_key: run.api_key.clone(),
                dialect: run.dialect.clone(),
                file_name: None,
                provenance: match &run.provenance {
                    Some(p) => Some(p.clone()),
                    None => None,
                },
                transport: Transport {
                    timeout_secs: run.transport.timeout_secs,
                    ca_bundle: copy_text(&run.transport.ca_bundle),
                },
                concurrency: 4,
                receipt: false,
            };
            let mut say: Vec<Line> = Vec::new();
            add_note(&mut say, note);
            assert(line_views(say@) =~= note_lines(opt_view(note)));
            BaselineAction::Send { say, params, queries }
        },
    }
}

/// The end of a run whose check failed.
pub open spec fn with_failure(e: ApiErrorView) -> BaselineActionView {
    BaselineActionView::Exit(error_stop(failure_code(e), error_text(e)))
}

/// Ends a run whose check failed.
pub fn check_failed(e: &ApiError) -> (r: BaselineAction)
    ensures
        r@ == with_failure(e@),
{
    BaselineAction::Exit(stop_with(exit_code_of(e), e.message().as_str()))
}

pub open spec fn recorded_text(n: nat, path: Seq<char>) -> Seq<char> {
    "Wrote "@ + decimal(n) + " finding(s) to "@ + path + "."@
}

pub open spec fn up_to_date_text(path: Seq<char>) -> Seq<char> {
    "Baseline "@ + path + " is up to date — no stale entries."@
}

pub open spec fn would_prune_text(n: nat, total: nat, path: Seq<char>) -> Seq<char> {
    "Would prune "@ + decimal(n) + " of "@ + decimal(total) + " entries from "@ + path
        + " (dry run, nothing written)."@
}

pub open spec fn pruned_text(n: nat, path: Seq<char>) -> Seq<char> {
    "Pruned "@ + decimal(n) + (if n == 1 {
        " stale entry"@
    } else {
        " stale entries"@
    }) + " from "@ + path + "."@
}

/// The action after a check: the findings are recorded, or the baseline loses the
/// entries that none of them matches. A dry run and a baseline without stale entries
/// write nothing.
pub open spec fn with_response(goal: BaselineGoal, files: Seq<String>, resp: CheckResponse) -> BaselineActionView {
    let fs = findings(resp.queries@);
    match goal {
        BaselineGoal::Record { out } => BaselineActionView::Save {
            version: 1,
            entries: recorded(fs, files),
            path: out@,
            done: recorded_text(recorded(fs, files).len(), out@),
        },
        BaselineGoal::Prune { path, baseline, dry_run } => {
            let current = finding_fingerprints(fs, files);
            let n = stale(baseline.entries@, current).len();
            if n == 0 {
                BaselineActionView::Exit(success(up_to_date_text(path@)))
            } else if dry_run {
                BaselineActionView::Exit(
                    success(would_prune_text(n, baseline.entries@.len(), path@)),
                )
            } else {
                BaselineActionView::Save {
                    version: baseline.version,
                    entries: entry_views(matching(baseline.entries@, current)),
                    path: path@,
                    done: pruned_text(n, path@),
                }
            }
        },
    }
}

/// Goes on after a check.
pub fn check_done(goal: BaselineGoal, files: &[String], resp: &CheckResponse) -> (r: BaselineAction)
    ensures
        r@ == with_response(goal, files@, *resp),
{
    match goal {
        BaselineGoal::Record { out } => {
            let baseline = Baseline::from_response(resp, files);
            assert(entry_views(baseline.entries@).len() == baseline.entries@.len());
            let mut done = "Wrote ".to_owned();
            done.append(decimal_text(baseline.entries.len() as u128).as_str());
            done.append(" finding(s) to ");
            done.append(out.as_str());
            done.append(".");
            BaselineAction::Save { baseline, path: out, done }
        },
        BaselineGoal::Prune { path, baseline, dry_run } => {
            let drift = drifted(&baseline, resp, files);
            assert(referred(drift@).len() == drift@.len());
            let n: usize = drift.len();
            if n == 0 {
                let mut text = "Baseline ".to_owned();
                text.append(path.as_str());
                text.append(" is up to date — no stale entries.");
                return BaselineAction::Exit(succeed(text));
            }
            if dry_run {
                let mut text = "Would prune ".to_owned();
                text.append(decimal_text(n as u128).as_str());
                text.append(" of ");
                text.append(decimal_text(baseline.entries.len() as u128).as_str());
                text.append(" entries from ");
                text.append(path.as_str());
                text.append(" (dry run, nothing written).");
                return BaselineAction::Exit(succeed(text));
            }
            let baseline = pruned(baseline, resp, files);
            let mut done = "Pruned ".to_owned();
            done.append(decimal_text(n as u128).as_str());
            done.append(
                if n == 1 {
                    " stale entry"
                } else {
                    " stale entries"
                },
            );
            done.append(" from ");
            done.append(path.as_str());
            done.append(".");
            BaselineAction::Save { baseline, path, done }
        },
    }
}

/// The end of a run after the baseline was written.
pub open spec fn after_saving(done: Seq<char>, written: Result<(), Seq<char>>) -> StopView {
    match written {
        Ok(_) => success(done),
        Err(e) => error_stop(USAGE, "could not write baseline: "@ + e),
    }
}

/// Ends a run after the baseline was written.
pub fn saved(done: String, written: Result<(), String>) -> (r: Stop)
    ensures
        r@ == after_saving(done@, written_view(written)),
{
    match written {
        Ok(_) => succeed(done),
        Err(e) => stop_with(
            USAGE,
            "could not write baseline: ".to_owned().concat(e.as_str()).as_str(),
        ),
    }
}

/// In a workspace in sanitized mode no literal leaves the machine: two runs whose queries
/// differ only in the contents of their literals send the same.
pub proof fn law_sanitized_runs_send_no_literals(
    run: BaselineRun,
    a: Seq<QueryView>,
    b: Seq<QueryView>,
    cfg: WorkspaceConfig,
)
    requires
        opt_view(cfg.telemetry_query_mode) == Some("sanitized"@),
        a.len() == b.len(),
        forall|k: int|
            0 <= k < a.len() ==> (#[trigger] a[k]).line == b[k].line && masked(tokens(a[k].sql))
                == masked(tokens(b[k].sql)),
    ensures
        with_workspace(run, a, Ok(cfg)) matches BaselineActionView::Send { queries, .. }
            && queries == sanitized_queries(a, run.dialect@),
        with_workspace(run, a, Ok(cfg)) == with_workspace(run, b, Ok(cfg)),
{
    law_sanitized_mode_sends_no_literals(a, b, run.dialect@, cfg);
}

/// Pruning a baseline against the run that it was recorded from changes nothing: it is
/// up to date, and nothing is written.
pub proof fn law_fresh_baseline_is_up_to_date(
    baseline: Baseline,
    path: String,
    dry_run: bool,
    files: Seq<String>,
    resp: CheckResponse,
)
    requires
        entry_views(baseline.entries@) == recorded(findings(resp.queries@), files),
    ensures
        with_response(BaselineGoal::Prune { path, baseline, dry_run }, files, resp)
            == BaselineActionView::Exit(success(up_to_date_text(path@))),
{
    law_fresh_baseline_does_not_drift(baseline.entries@, resp.queries@, files);
}

/// A dry run never writes a baseline.
pub proof fn law_dry_runs_write_nothing(
    path: String,
    baseline: Baseline,
    files: Seq<String>,
    resp: CheckResponse,
)
    ensures
        with_response(BaselineGoal::Prune { path, baseline, dry_run: true }, files, resp)
            matches BaselineActionView::Exit(s) && s.code == OK,
{
}

} // verus!
