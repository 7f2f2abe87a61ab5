//! A check from beginning to end, as a machine: each function takes the run and what
//! came of the last action, and returns the run, what to say, and the next action. The
//! caller performs the actions: it reads files, runs git, and sends requests.
use vstd::prelude::*;
use crate::api::{outcome_view, provenance_view, receipt_views, ApiError, ApiErrorView, CheckParams, CheckResponse, Provenance, ProvenanceView, QueryInput, QueryResult, Receipt, ReceiptView, Transport, WorkspaceConfig};
use crate::baseline::{entry_views, fingerprint_in, law_baseline_covers_its_own_run, recorded, Baseline};
use crate::check::{after_failure, covered, degraded_doc, degraded_notice, degraded_notice_of, degraded_record, diffed, failing, failing_of, file_plan, files_of, files_or_stop, gathered, inline_conflict, inline_reason, law_failing_results, law_suppressed_fingerprints, law_thresholds_widen, listed, on_baseline, on_diff, on_failure, on_file_list, on_receipts, on_report, on_workspace, paths_to_reread, preflight, queries_or_stop, query_views, quota_note, quota_note_of, receipts_note, reread_paths, resolve_files, results_at, single_file_name, status_fails, suppressed, suppressed_fingerprints, suppression_notes, text_result, verdict, verdict_code, FailOn, FailureStep, FailureStepView, FilePlan, FilePlanView, FileResolutionView, QueryView, SourceText};
use crate::ci_env::{base_ref, changed_files, detected_base_ref, printed, provider_in, CommandOutput, EnvVars, Provider};
use crate::exit::{dealt_with, error_stop, line_views, stop_with, Line, LineView, Stop, StopView, FINDING, OK, USAGE};
use crate::json::json_compact_text;
use crate::output::{annotations, failing_findings, failure_head, failure_tail, findings, first_rule, law_findings_are_the_results_worth_reporting, render, render_ci_failure_summary, report, FailureSummary, Format, Target};
use crate::text::{copy_text, copy_texts, opt_view, text_views};
use crate::version::{update_note, update_note_of, version_gate, version_gate_of};

verus! {

/// What the command line asks of a check.
#[derive(Debug)]
pub struct CheckOptions {
    pub files: Vec<String>,
    pub changed: bool,
    pub since: Option<String>,
    pub stdin_file_list: bool,
    /// SQL given on the command line.
    pub sql: Vec<String>,
    pub format: Format,
    pub monitor: bool,
    /// File that the report goes to.
    pub output: Option<String>,
    /// File that signed receipts go to.
    pub receipt: Option<String>,
    pub allow_degraded: Option<String>,
    pub quiet: bool,
    pub no_color: bool,
}

/// A check under way.
#[derive(Debug)]
pub struct CheckRun {
    pub opts: CheckOptions,
    pub api_url: String,
    pub api_key: String,
    pub transport: Transport,
    pub provenance: Option<Provenance>,
    pub dialect: String,
    pub fail_on: FailOn,
    pub baseline_path: Option<String>,
    pub concurrency: usize,
    pub on_github: bool,
    /// The sources of the run, once they are known.
    pub files: Vec<String>,
}

/// What to do next.
#[derive(Debug)]
pub enum CheckAction {
    /// Read the list of files from standard input.
    ReadFileList,
    /// Run git for the files that differ from a ref.
    Diff { base: String },
    /// Read the files of the run in order, up to the first that cannot be read.
    ReadSources,
    /// Read the workspace's settings.
    FetchWorkspace { queries: Vec<QueryInput> },
    /// Send the requests of the run.
    Send { params: CheckParams, queries: Vec<QueryInput> },
    /// Append the record of a run that is waved through.
    Record { reason: String, record: String },
    WriteReport { resp: CheckResponse, text: String },
    WriteReceipts { resp: CheckResponse, receipts: Vec<Receipt>, path: String },
    LoadBaseline { resp: CheckResponse, path: String },
    /// Read the named sources again, for inline suppressions.
    Reread { resp: CheckResponse, baseline: Option<Baseline>, paths: Vec<String> },
    /// Explain the verdict and end.
    Finish { code: u8, summary: FailureSummary },
    Exit(u8),
}

/// The run, what to say, and the next action.
#[derive(Debug)]
pub struct Turn {
    pub run: CheckRun,
    pub say: Vec<Line>,
    pub action: CheckAction,
}

pub struct ParamsView {
    pub api_url: Seq<char>,
    pub api_key: Seq<char>,
    pub dialect: Seq<char>,
    pub file_name: Option<Seq<char>>,
    pub provenance: Option<ProvenanceView>,
    pub timeout_secs: u64,
    pub ca_bundle: Option<Seq<char>>,
    pub concurrency: usize,
    pub receipt: bool,
}

impl View for CheckParams {
    type V = ParamsView;

    open spec fn view(&self) -> ParamsView {
        ParamsView {
            api_url: self.api_url@,
            api_key: self.api_key@,
            dialect: self.dialect@,
            file_name: opt_view(self.file_name),
            provenance: provenance_view(self.provenance),
            timeout_secs: self.transport.timeout_secs,
            ca_bundle: opt_view(self.transport.ca_bundle),
            concurrency: self.concurrency,
            receipt: self.receipt,
        }
    }
}

pub enum ActionView {
    ReadFileList,
    Diff { base: Seq<char> },
    ReadSources,
    FetchWorkspace { queries: Seq<QueryView> },
    Send { params: ParamsView, queries: Seq<QueryView> },
    Record { reason: Seq<char>, record: Seq<char> },
    WriteReport { resp: CheckResponse, text: Seq<char> },
    WriteReceipts { resp: CheckResponse, receipts: Seq<ReceiptView>, path: Seq<char> },
    LoadBaseline { resp: CheckResponse, path: Seq<char> },
    Reread { resp: CheckResponse, baseline: Option<Baseline>, paths: Seq<Seq<char>> },
    Finish { code: u8, annotations: Seq<char>, explanation: Seq<char> },
    Exit(u8),
}

impl View for CheckAction {
    type V = ActionView;

    open spec fn view(&self) -> ActionView {
        match self {
            CheckAction::ReadFileList => ActionView::ReadFileList,
            CheckAction::Diff { base } => ActionView::Diff { base: base@ },
            CheckAction::ReadSources => ActionView::ReadSources,
            CheckAction::FetchWorkspace { queries } => ActionView::FetchWorkspace {
                queries: query_views(queries@),
            },
            CheckAction::Send { params, queries } => ActionView::Send {
                params: params@,
                queries: query_views(queries@),
            },
            CheckAction::Record { reason, record } => ActionView::Record {
                reason: reason@,
                record: record@,
            },
            CheckAction::WriteReport { resp, text } => ActionView::WriteReport {
                resp: *resp,
                text: text@,
            },
            CheckAction::WriteReceipts { resp, receipts, path } => ActionView::WriteReceipts {
                resp: *resp,
                receipts: receipt_views(receipts@),
                path: path@,
            },
            CheckAction::LoadBaseline { resp, path } => ActionView::LoadBaseline {
                resp: *resp,
                path: path@,
            },
            CheckAction::Reread { resp, baseline, paths } => ActionView::Reread {
                resp: *resp,
                baseline: *baseline,
                paths: text_views(paths@),
            },
            CheckAction::Finish { code, summary } => ActionView::Finish {
                code: *code,
                annotations: summary.annotations@,
                explanation: summary.explanation@,
            },
            CheckAction::Exit(code) => ActionView::Exit(*code),
        }
    }
}

/// What to say and what to do next.
pub struct StepView {
    pub say: Seq<LineView>,
    pub action: ActionView,
}

impl View for Turn {
    type V = StepView;

    open spec fn view(&self) -> StepView {
        StepView { say: line_views(self.say@), action: self.action@ }
    }
}

pub open spec fn quietly(action: ActionView) -> StepView {
    StepView { say: seq![], action }
}

pub open spec fn ended(s: StopView) -> StepView {
    StepView { say: seq![s.line], action: ActionView::Exit(s.code) }
}

pub open spec fn note_lines(note: Option<Seq<char>>) -> Seq<LineView> {
    match note {
        Some(n) => seq![LineView::Stderr(n)],
        None => seq![],
    }
}

fn go(run: CheckRun, action: CheckAction) -> (t: Turn)
    ensures
        t.run == run,
        t@ == quietly(action@),
{
    let say: Vec<Line> = Vec::new();
    assert(line_views(say@) =~= seq![]);
    Turn { run, say, action }
}

fn end(run: CheckRun, s: Stop) -> (t: Turn)
    ensures
        t.run == run,
        t@ == ended(s@),
{
    let say = vec![s.line];
    assert(line_views(say@) =~= seq![s@.line]);
    Turn { run, say, action: CheckAction::Exit(s.code) }
}

pub(crate) fn add_note(say: &mut Vec<Line>, note: Option<String>)
    ensures
        line_views(final(say)@) == line_views(old(say)@) + note_lines(opt_view(note)),
{
    let ghost before = say@;
    if let Some(n) = note {
        say.push(Line::Stderr(n));
        assert(line_views(say@) =~= line_views(before) + seq![LineView::Stderr(n@)]);
    } else {
        assert(line_views(say@) =~= line_views(before) + Seq::<LineView>::empty());
    }
}

// ── Files and queries ─────────────────────────────────────────────────────────

/// The label of SQL that was given on the command line.
pub open spec fn inline_label() -> Seq<char> {
    "<inline>"@
}

/// The step after the queries of a run are known.
pub open spec fn with_queries(r: Result<Seq<QueryView>, StopView>) -> StepView {
    match r {
        Err(s) => ended(s),
        Ok(qs) => if qs.len() == 0 {
            ended(error_stop(USAGE, "no SQL to check (all inputs were empty)."@))
        } else {
            quietly(ActionView::FetchWorkspace { queries: qs })
        },
    }
}

/// The queries of SQL that was given on the command line: those that are not blank, each
/// at its 1-based position.
pub open spec fn inline_queries(sql: Seq<String>, n: nat) -> Seq<QueryView>
    decreases n,
{
    if n == 0 {
        seq![]
    } else {
        let rest = inline_queries(sql, (n - 1) as nat);
        if crate::text::trim(sql[n - 1]@).len() == 0 {
            rest
        } else {
            rest.push(QueryView { line: n as u32, sql: sql[n - 1]@ })
        }
    }
}

/// Whether `--allow-degraded` was given without a reason.
pub open spec fn lacks_reason(allow_degraded: Option<Seq<char>>) -> bool {
    allow_degraded matches Some(reason) && crate::text::trim(reason).len() == 0
}

/// Refuses an `--allow-degraded` without a reason.
pub fn refuse_blank_reason(allow_degraded: &Option<String>) -> (r: Option<Stop>)
    ensures
        match r {
            Some(s) => lacks_reason(opt_view(*allow_degraded)) && s@ == error_stop(
                USAGE,
                "--allow-degraded requires a reason."@,
            ),
            None => !lacks_reason(opt_view(*allow_degraded)),
        },
{
    match allow_degraded {
        Some(reason) => if crate::text::trimmed(reason.as_str()).as_str().unicode_len() == 0 {
            Some(stop_with(USAGE, "--allow-degraded requires a reason."))
        } else {
            None
        },
        None => None,
    }
}

/// The first step of a check: what is checked, and where it comes from. An
/// `--allow-degraded` without a reason is refused before anything else.
pub open spec fn first_step(opts: CheckOptions, detected_base: Option<Seq<char>>) -> StepView {
    let selects_files = opts.files@.len() > 0 || opts.changed || opts.since is Some
        || opts.stdin_file_list;
    if lacks_reason(opt_view(opts.allow_degraded)) {
        ended(error_stop(USAGE, "--allow-degraded requires a reason."@))
    } else if opts.sql@.len() > 0 {
        if selects_files {
            ended(
                error_stop(
                    USAGE,
                    "--sql can't be combined with files, --changed/--since or --stdin-file-list."@,
                ),
            )
        } else {
            with_queries(Ok(inline_queries(opts.sql@, opts.sql@.len())))
        }
    } else {
        match file_plan(
            opts.files@.len(),
            opts.changed,
            opt_view(opts.since),
            opts.stdin_file_list,
            detected_base,
        ) {
            FilePlanView::Given => quietly(ActionView::ReadSources),
            FilePlanView::ReadList => quietly(ActionView::ReadFileList),
            FilePlanView::Diff(base) => quietly(ActionView::Diff { base }),
            FilePlanView::Usage(m) => ended(error_stop(USAGE, m)),
        }
    }
}

/// The sources that a check knows after its first step.
pub open spec fn first_files(opts: CheckOptions) -> Seq<Seq<char>> {
    if opts.sql@.len() > 0 {
        Seq::new(opts.sql@.len(), |i: int| inline_label())
    } else {
        text_views(opts.files@)
    }
}

fn queries_of_sql(sql: &Vec<String>) -> (r: Vec<QueryInput>)
    ensures
        query_views(r@) == inline_queries(sql@, sql@.len()),
{
    let n: usize = sql.len();
    let mut out: Vec<QueryInput> = Vec::new();
    let mut i: usize = 0;
    assert(query_views(out@) =~= seq![]);
    while i < n
        invariant
            n == sql@.len(),
            i <= n,
            query_views(out@) == inline_queries(sql@, i as nat),
        decreases n - i,
    {
        let ghost so_far = out@;
        if crate::text::trimmed(sql[i].as_str()).as_str().unicode_len() > 0 {
            out.push(QueryInput { line: (i + 1) as u32, sql: sql[i].clone() });
            assert(query_views(out@) =~= query_views(so_far).push(
                QueryView { line: (i + 1) as u32, sql: sql@[i as int]@ },
            ));
        }
        i = i + 1;
    }
    out
}

fn labels(n: usize) -> (r: Vec<String>)
    ensures
        text_views(r@) == Seq::new(n as nat, |i: int| inline_label()),
{
    let mut out: Vec<String> = Vec::new();
    let mut i: usize = 0;
    while i < n
        invariant
            i <= n,
            out@.len() == i,
            forall|k: int| 0 <= k < i ==> (#[trigger] out@[k])@ == inline_label(),
        decreases n - i,
    {
        out.push("<inline>".to_owned());
        i = i + 1;
    }
    assert(text_views(out@) =~= Seq::new(n as nat, |i: int| inline_label()));
    out
}

fn take_queries(run: CheckRun, r: Result<Vec<QueryInput>, Stop>) -> (t: Turn)
    ensures
        t.run == run,
        t@ == with_queries(crate::check::queries_result(r)),
{
    match r {
        Err(s) => end(run, s),
        Ok(queries) => {
            assert(query_views(queries@).len() == queries@.len());
            if queries.len() == 0 {
                end(run, stop_with(USAGE, "no SQL to check (all inputs were empty)."))
            } else {
                go(run, CheckAction::FetchWorkspace { queries })
            }
        },
    }
}

/// Begins a check.
pub fn start(run: CheckRun, env: &EnvVars, origin_head: &Option<CommandOutput>) -> (t: Turn)
    ensures
        t.run == (CheckRun { files: t.run.files, ..run }),
        text_views(t.run.files@) == first_files(run.opts),
        t@ == first_step(
            run.opts,
            base_ref(provider_in(*env), *env, printed(*origin_head)),
        ),
{
    let mut run = run;
    run.files = if run.opts.sql.len() > 0 {
        labels(run.opts.sql.len())
    } else {
        copy_texts(&run.opts.files)
    };
    if let Some(s) = refuse_blank_reason(&run.opts.allow_degraded) {
        return end(run, s);
    }
    if run.opts.sql.len() > 0 {
        if let Some(s) = inline_conflict(
            run.opts.sql.as_slice(),
            run.opts.files.as_slice(),
            run.opts.changed,
            &run.opts.since,
            run.opts.stdin_file_list,
        ) {
            return end(run, s);
        }
        let queries = queries_of_sql(&run.opts.sql);
        return take_queries(run, Ok(queries));
    }
    let base = detected_base_ref(Provider::detect(env), env, origin_head);
    match resolve_files(
        run.opts.files.as_slice(),
        run.opts.changed,
        &run.opts.since,
        run.opts.stdin_file_list,
        base,
    ) {
        FilePlan::Given => go(run, CheckAction::ReadSources),
        FilePlan::ReadList => go(run, CheckAction::ReadFileList),
        FilePlan::Diff(base) => go(run, CheckAction::Diff { base }),
        FilePlan::Usage(m) => end(run, stop_with(USAGE, m.as_str())),
    }
}

/// The step after the files of a run have been looked for.
pub open spec fn with_files(r: Result<Seq<Seq<char>>, StopView>) -> StepView {
    match r {
        Ok(_) => quietly(ActionView::ReadSources),
        Err(s) => ended(s),
    }
}

fn take_files(run: CheckRun, r: Result<Vec<String>, Stop>) -> (t: Turn)
    ensures
        t.run == (CheckRun { files: t.run.files, ..run }),
        r matches Ok(f) ==> t.run.files == f,
        r is Err ==> t.run == run,
        t@ == with_files(crate::check::files_view(r)),
{
    match r {
        Ok(files) => {
            let mut run = run;
            run.files = files;
            go(run, CheckAction::ReadSources)
        },
        Err(s) => end(run, s),
    }
}

/// Goes on after the list of files was read from standard input.
pub fn file_list_read(run: CheckRun, read: Result<String, String>) -> (t: Turn)
    ensures
        t.run == (CheckRun { files: t.run.files, ..run }),
        files_or_stop(listed(text_result(read))) matches Ok(f) ==> text_views(t.run.files@) == f,
        files_or_stop(listed(text_result(read))) is Err ==> t.run == run,
        t@ == with_files(files_or_stop(listed(text_result(read)))),
{
    take_files(run, files_of(on_file_list(read)))
}

/// Goes on after git was run for the files that differ from `base`.
pub fn diff_done(run: CheckRun, base: &str, out: &Result<CommandOutput, String>) -> (t: Turn)
    ensures
        t.run == (CheckRun { files: t.run.files, ..run }),
        files_or_stop(diffed(base@, changed_files(base@, *out))) matches Ok(f) ==> text_views(
            t.run.files@,
        ) == f,
        files_or_stop(diffed(base@, changed_files(base@, *out))) is Err ==> t.run == run,
        t@ == with_files(files_or_stop(diffed(base@, changed_files(base@, *out)))),
{
    take_files(run, files_of(on_diff(base, out)))
}

/// Goes on after the sources were read.
pub fn sources_read(run: CheckRun, sources: Vec<Result<String, String>>) -> (t: Turn)
    requires
        dealt_with(sources@, run.files@.len()),
    ensures
        t.run == run,
        t@ == with_queries(
            queries_or_stop(gathered(run.files@, sources@, sources@.len())),
        ),
{
    let queries = crate::check::collect_queries(run.files.as_slice(), sources);
    take_queries(run, queries)
}

// ── Sending ───────────────────────────────────────────────────────────────────

/// How the requests of a run are sent.
pub open spec fn params_of(run: CheckRun) -> ParamsView {
    ParamsView {
        api_url: run.api_url@,
        api_key: run.api_key@,
        dialect: run.dialect@,
        file_name: if run.files@.len() == 1 && run.files@[0]@ != "-"@ {
            Some(run.files@[0]@)
        } else {
            None
        },
        provenance: provenance_view(run.provenance),
        timeout_secs: run.transport.timeout_secs,
        ca_bundle: opt_view(run.transport.ca_bundle),
        concurrency: run.concurrency,
        receipt: run.opts.receipt is Some,
    }
}

fn make_params(run: &CheckRun) -> (r: CheckParams)
    ensures
        r@ == params_of(*run),
{
    CheckParams {
        api_url: run.api_url.clone(),
        api_key: run.api_key.clone(),
        dialect: run.dialect.clone(),
        file_name: single_file_name(run.files.as_slice()),
        provenance: match &run.provenance {
            Some(p) => Some(p.clone()),
            None => None,
        },
        transport: Transport {
            timeout_secs: run.transport.timeout_secs,
            ca_bundle: copy_text(&run.transport.ca_bundle),
        },
        concurrency: run.concurrency,
        receipt: run.opts.receipt.is_some(),
    }
}

/// The step after the workspace's settings were read.
pub open spec fn with_workspace(
    run: CheckRun,
    queries: Seq<QueryView>,
    reply: Result<WorkspaceConfig, ApiErrorView>,
) -> StepView {
    match preflight(queries, run.dialect@, reply) {
        Err(s) => ended(s),
        Ok((qs, note)) => StepView {
            say: note_lines(note),
            action: ActionView::Send { params: params_of(run), queries: qs },
        },
    }
}

/// Goes on after the workspace's settings were read.
pub fn workspace_read(
    run: CheckRun,
    queries: Vec<QueryInput>,
    reply: Result<WorkspaceConfig, ApiError>,
) -> (t: Turn)
    ensures
        t.run == run,
        t@ == with_workspace(run, query_views(queries@), outcome_view(reply)),
{
    match on_workspace(queries, run.dialect.as_str(), reply) {
        Err(s) => end(run, s),
        Ok((queries, note)) => {
            let params = make_params(&run);
            let mut t = go(run, CheckAction::Send { params, queries });
            add_note(&mut t.say, note);
            assert(line_views(t.say@) =~= note_lines(opt_view(note)));
            t
        },
    }
}

// ── Failure ───────────────────────────────────────────────────────────────────

/// The step after a check that failed, at the given time.
pub open spec fn with_failure(run: CheckRun, e: ApiErrorView, unix_time: int) -> StepView {
    match after_failure(e, opt_view(run.opts.allow_degraded)) {
        FailureStepView::Stop(s) => ended(s),
        FailureStepView::Degrade { line, reason } => StepView {
            say: seq![line],
            action: ActionView::Record {
                reason,
                record: json_compact_text(
                    degraded_doc(unix_time, reason, run.files@, provenance_view(run.provenance)),
                ) + "\n"@,
            },
        },
    }
}

/// Goes on after a check that failed.
pub fn check_failed(run: CheckRun, e: ApiError, unix_time: i64) -> (t: Turn)
    ensures
        t.run == run,
        t@ == with_failure(run, e@, unix_time as int),
{
    match on_failure(&e, &run.opts.allow_degraded) {
        FailureStep::Stop(s) => end(run, s),
        FailureStep::Degrade { line, reason } => {
            let record = degraded_record(
                unix_time,
                reason.as_str(),
                run.files.as_slice(),
                &run.provenance,
            );
            let mut t = go(run, CheckAction::Record { reason, record });
            t.say.push(line);
            assert(line_views(t.say@) =~= seq![line@]);
            t
        },
    }
}

/// The step after a run that is waved through was recorded or could not be.
pub open spec fn with_record(reason: Seq<char>, recorded_at: Option<Seq<char>>) -> StepView {
    StepView {
        say: seq![LineView::Stderr(degraded_notice_of(reason, recorded_at))],
        action: ActionView::Exit(OK),
    }
}

/// Ends a run that is waved through, after it was recorded or could not be.
pub fn degraded_recorded(run: CheckRun, reason: &str, recorded_at: Option<&str>) -> (t: Turn)
    ensures
        t.run == run,
        t@ == with_record(reason@, crate::api::opt_str_view(recorded_at)),
{
    let notice = degraded_notice(reason, recorded_at);
    let mut t = go(run, CheckAction::Exit(OK));
    t.say.push(Line::Stderr(notice));
    assert(line_views(t.say@) =~= seq![LineView::Stderr(notice@)]);
    t
}

// ── Response ──────────────────────────────────────────────────────────────────

pub open spec fn target_of(opts: CheckOptions) -> Target {
    if opts.output is Some {
        Target::File
    } else {
        Target::Stdout
    }
}

/// The step after a response: a backend of another major ends the run, else the report
/// is written.
pub open spec fn with_response(run: CheckRun, resp: CheckResponse) -> StepView {
    match version_gate_of(opt_view(resp.api_version_header)) {
        Err(s) => ended(s),
        Ok(note) => StepView {
            say: note_lines(note),
            action: ActionView::WriteReport {
                resp,
                text: report(
                    resp,
                    run.opts.format,
                    run.files@,
                    run.opts.quiet,
                    target_of(run.opts),
                    !run.opts.no_color,
                ),
            },
        },
    }
}

/// Goes on after a response.
pub fn check_done(run: CheckRun, resp: CheckResponse) -> (t: Turn)
    ensures
        t.run == run,
        t@ == with_response(run, resp),
{
    match version_gate(&resp.api_version_header) {
        Err(s) => end(run, s),
        Ok(note) => {
            let target = if run.opts.output.is_some() {
                Target::File
            } else {
                Target::Stdout
            };
            let text = render(
                &resp,
                run.opts.format,
                run.files.as_slice(),
                run.opts.quiet,
                target,
                !run.opts.no_color,
            );
            let mut t = go(run, CheckAction::WriteReport { resp, text });
            add_note(&mut t.say, note);
            assert(line_views(t.say@) =~= note_lines(opt_view(note)));
            t
        },
    }
}

/// What is said once report and receipts are done: that checks run low, and that this
/// client is too old.
pub open spec fn closing_notes(resp: CheckResponse) -> Seq<LineView> {
    note_lines(quota_note_of(resp.ci_checks_remaining)) + note_lines(
        update_note_of(opt_view(resp.min_cli_version)),
    )
}

/// The step once report and receipts are done: a monitoring run ends with success, any
/// other goes on to its verdict.
pub open spec fn closing(run: CheckRun, resp: CheckResponse, said: Seq<LineView>) -> StepView {
    StepView {
        say: said + closing_notes(resp),
        action: if run.opts.monitor {
            ActionView::Exit(OK)
        } else {
            match run.baseline_path {
                Some(path) => ActionView::LoadBaseline { resp, path: path@ },
                None => ActionView::Reread {
                    resp,
                    baseline: None,
                    paths: reread_paths(findings(resp.queries@), run.files@),
                },
            }
        },
    }
}

fn close(run: CheckRun, resp: CheckResponse, said: Vec<Line>) -> (t: Turn)
    ensures
        t.run == run,
        t@ == closing(run, resp, line_views(said@)),
{
    let mut say = said;
    let ghost first = line_views(say@);
    add_note(&mut say, quota_note(resp.ci_checks_remaining));
    add_note(&mut say, update_note(&resp.min_cli_version));
    assert(line_views(say@) =~= first + closing_notes(resp));
    if run.opts.monitor {
        return Turn { run, say, action: CheckAction::Exit(OK) };
    }
    let action = match &run.baseline_path {
        Some(path) => CheckAction::LoadBaseline { resp, path: path.clone() },
        None => {
            let paths = paths_to_reread(&resp, run.files.as_slice());
            CheckAction::Reread { resp, baseline: None, paths }
        },
    };
    Turn { run, say, action }
}

/// The step after the report was written.
pub open spec fn with_report(
    run: CheckRun,
    resp: CheckResponse,
    written: Result<(), Seq<char>>,
) -> StepView {
    match written {
        Err(e) => ended(error_stop(USAGE, "could not write output: "@ + e)),
        Ok(_) => match run.opts.receipt {
            None => closing(run, resp, seq![]),
            Some(path) => if resp.receipts().len() == 0 {
                closing(run, resp, seq![LineView::Stderr(receipts_note(0, path@))])
            } else {
                quietly(
                    ActionView::WriteReceipts {
                        resp,
                        receipts: receipt_views(resp.receipts()),
                        path: path@,
                    },
                )
            },
        },
    }
}

pub open spec fn written_view(w: Result<(), String>) -> Result<(), Seq<char>> {
    match w {
        Ok(_) => Ok(()),
        Err(e) => Err(e@),
    }
}

/// Goes on after the report was written.
pub fn report_written(run: CheckRun, resp: CheckResponse, written: Result<(), String>) -> (t: Turn)
    ensures
        t.run == run,
        t@ == with_report(run, resp, written_view(written)),
{
    if let Err(s) = on_report(written) {
        return end(run, s);
    }
    let path = match &run.opts.receipt {
        None => {
            let say: Vec<Line> = Vec::new();
            assert(line_views(say@) =~= seq![]);
            return close(run, resp, say);
        },
        Some(p) => p.clone(),
    };
    let receipts = resp.all_receipts();
    assert(receipt_views(receipts@).len() == receipt_views(resp.receipts()).len());
    if receipts.len() == 0 {
        let mut say: Vec<Line> = Vec::new();
        if let Ok(note) = on_receipts(0, path.as_str(), Ok(())) {
            say.push(Line::Stderr(note));
        }
        assert(line_views(say@) =~= seq![LineView::Stderr(receipts_note(0, path@))]);
        return close(run, resp, say);
    }
    go(run, CheckAction::WriteReceipts { resp, receipts, path })
}

/// The step after the receipts were written.
pub open spec fn with_receipts(
    run: CheckRun,
    resp: CheckResponse,
    path: Seq<char>,
    written: Result<(), Seq<char>>,
) -> StepView {
    match written {
        Err(e) => ended(error_stop(USAGE, "could not write receipt to "@ + path + ": "@ + e)),
        Ok(_) => closing(
            run,
            resp,
            seq![LineView::Stderr(receipts_note(resp.receipts().len(), path))],
        ),
    }
}

/// Goes on after the receipts of a response, of which there are some, were written.
pub fn receipts_written(
    run: CheckRun,
    resp: CheckResponse,
    path: &str,
    written: Result<(), String>,
) -> (t: Turn)
    requires
        resp.receipts().len() > 0,
    ensures
        t.run == run,
        t@ == with_receipts(run, resp, path@, written_view(written)),
{
    let n: usize = resp.all_receipts().len();
    assert(receipt_views(resp.receipts()).len() == resp.receipts().len());
    match on_receipts(n, path, written) {
        Err(s) => end(run, s),
        Ok(note) => {
            let say = vec![Line::Stderr(note)];
            assert(line_views(say@) =~= seq![LineView::Stderr(note@)]);
            close(run, resp, say)
        },
    }
}

// ── Verdict ───────────────────────────────────────────────────────────────────

pub open spec fn baseline_view(r: Result<Baseline, String>) -> Result<Baseline, Seq<char>> {
    match r {
        Ok(b) => Ok(b),
        Err(e) => Err(e@),
    }
}

/// The step after the baseline was read. One that cannot be read ends the run.
pub open spec fn with_baseline(
    run: CheckRun,
    resp: CheckResponse,
    read: Result<Baseline, Seq<char>>,
) -> StepView {
    match read {
        Err(e) => ended(error_stop(USAGE, e)),
        Ok(b) => quietly(
            ActionView::Reread {
                resp,
                baseline: Some(b),
                paths: reread_paths(findings(resp.queries@), run.files@),
            },
        ),
    }
}

/// Goes on after the baseline was read.
pub fn baseline_loaded(run: CheckRun, resp: CheckResponse, read: Result<Baseline, String>) -> (t: Turn)
    ensures
        t.run == run,
        t@ == with_baseline(run, resp, baseline_view(read)),
{
    match on_baseline(read) {
        Err(s) => end(run, s),
        Ok(b) => {
            let paths = paths_to_reread(&resp, run.files.as_slice());
            go(run, CheckAction::Reread { resp, baseline: Some(b), paths })
        },
    }
}

/// The results that fail a run.
pub open spec fn failures(
    run: CheckRun,
    resp: CheckResponse,
    baseline: Option<Baseline>,
    sources: Seq<SourceText>,
) -> Seq<QueryResult> {
    failing_of(
        resp.queries@,
        run.files@,
        suppressed(findings(resp.queries@), run.files@, covered(baseline), sources),
        run.fail_on,
    )
}

pub open spec fn refs<'a>(qs: Seq<QueryResult>) -> Seq<&'a QueryResult> {
    qs.map_values(|q: QueryResult| &q)
}

/// The explanation of a failed run; a quiet run gives none.
pub open spec fn explanation_of(run: CheckRun, resp: CheckResponse, failing: Seq<QueryResult>) -> Seq<
    char,
> {
    if run.opts.quiet || failing.len() == 0 {
        seq![]
    } else {
        failure_head(failing.len(), resp.summary.ruleset_version@) + failing_findings(
            refs(failing),
            run.files@,
        ) + failure_tail(first_rule(refs(failing)))
    }
}

/// The annotations of a failed run under GitHub Actions; a quiet run gives none.
pub open spec fn annotations_of(run: CheckRun, failing: Seq<QueryResult>) -> Seq<char> {
    if run.opts.quiet || !run.on_github {
        seq![]
    } else {
        annotations(refs(failing), run.files@)
    }
}

/// The last step: the verdict, with what was suppressed and why the run fails.
pub open spec fn with_sources(
    run: CheckRun,
    resp: CheckResponse,
    baseline: Option<Baseline>,
    sources: Seq<SourceText>,
) -> StepView {
    let failing = failures(run, resp, baseline, sources);
    StepView {
        say: suppression_notes(
            findings(resp.queries@),
            run.files@,
            baseline,
            crate::text::text_or(run.baseline_path, ""@),
            sources,
        ),
        action: ActionView::Finish {
            code: verdict_code(run.opts.monitor, failing.len()),
            annotations: annotations_of(run, failing),
            explanation: explanation_of(run, resp, failing),
        },
    }
}

/// Ends a check with its verdict, after the sources were read again.
pub fn sources_reread(
    run: CheckRun,
    resp: CheckResponse,
    baseline: Option<Baseline>,
    sources: &[SourceText],
) -> (t: Turn)
    ensures
        t.run == run,
        t@ == with_sources(run, resp, baseline, sources@),
{
    let found = suppressed_fingerprints(
        &resp,
        run.files.as_slice(),
        &baseline,
        crate::text::str_or(&run.baseline_path, ""),
        sources,
    );
    let bad = failing(&resp, run.files.as_slice(), &found.fingerprints, run.fail_on);
    assert(results_at(bad@).len() == bad@.len());
    assert(refs(results_at(bad@)) =~= bad@);
    let code = verdict(run.opts.monitor, bad.len());
    let summary = if run.opts.quiet {
        FailureSummary { annotations: String::new(), explanation: String::new() }
    } else {
        render_ci_failure_summary(&resp, bad.as_slice(), run.files.as_slice(), run.on_github)
    };
    Turn { run, say: found.notes, action: CheckAction::Finish { code, summary } }
}

// ── Laws ──────────────────────────────────────────────────────────────────────

/// A run fails on findings exactly where some result at or above the threshold is
/// neither in the baseline nor ignored by its source, and it does not only monitor.
pub proof fn law_verdict_follows_the_findings(
    run: CheckRun,
    resp: CheckResponse,
    baseline: Option<Baseline>,
    sources: Seq<SourceText>,
)
    ensures
        with_sources(run, resp, baseline, sources).action matches ActionView::Finish { code, .. }
            && (code == FINDING || code == OK) && (code == FINDING <==> !run.opts.monitor
            && exists|k: int|
            0 <= k < resp.queries@.len() && status_fails(
                (#[trigger] resp.queries@[k]).status@,
                run.fail_on,
            ) && !suppressed(
                findings(resp.queries@),
                run.files@,
                covered(baseline),
                sources,
            ).contains(fingerprint_in(resp.queries@[k], run.files@))),
{
    let qs = resp.queries@;
    let quiet = suppressed(findings(qs), run.files@, covered(baseline), sources);
    let bad = failures(run, resp, baseline, sources);
    if bad.len() > 0 {
        law_failing_results(qs, run.files@, quiet, run.fail_on, bad[0]);
        assert(bad.contains(bad[0]));
        let k = choose|k: int| 0 <= k < qs.len() && qs[k] == bad[0];
        assert(status_fails(qs[k].status@, run.fail_on));
    }
    if exists|k: int|
        0 <= k < qs.len() && status_fails((#[trigger] qs[k]).status@, run.fail_on)
            && !quiet.contains(fingerprint_in(qs[k], run.files@)) {
        let k = choose|k: int|
            0 <= k < qs.len() && status_fails((#[trigger] qs[k]).status@, run.fail_on)
                && !quiet.contains(fingerprint_in(qs[k], run.files@));
        law_failing_results(qs, run.files@, quiet, run.fail_on, qs[k]);
        assert(qs.contains(qs[k]));
    }
}

/// Only the verdict reports a finding: no other step of a check ends with the code for
/// one, so a failure of usage, authentication or backend is never taken for a finding.
pub proof fn law_other_ends_are_no_findings(
    run: CheckRun,
    detected_base: Option<Seq<char>>,
    resolution: FileResolutionView,
    queries: Result<Seq<QueryView>, Seq<char>>,
    sent: Seq<QueryView>,
    reply: Result<WorkspaceConfig, ApiErrorView>,
    e: ApiErrorView,
    unix_time: int,
    resp: CheckResponse,
    written: Result<(), Seq<char>>,
    path: Seq<char>,
    read: Result<Baseline, Seq<char>>,
)
    ensures
        first_step(run.opts, detected_base).action !is Finish,
        first_step(run.opts, detected_base).action != ActionView::Exit(FINDING),
        with_files(files_or_stop(resolution)).action !is Finish,
        with_files(files_or_stop(resolution)).action != ActionView::Exit(FINDING),
        with_queries(queries_or_stop(queries)).action !is Finish,
        with_queries(queries_or_stop(queries)).action != ActionView::Exit(FINDING),
        with_workspace(run, sent, reply).action !is Finish,
        with_workspace(run, sent, reply).action != ActionView::Exit(FINDING),
        with_failure(run, e, unix_time).action !is Finish,
        with_failure(run, e, unix_time).action != ActionView::Exit(FINDING),
        with_response(run, resp).action !is Finish,
        with_response(run, resp).action != ActionView::Exit(FINDING),
        with_report(run, resp, written).action !is Finish,
        with_report(run, resp, written).action != ActionView::Exit(FINDING),
        with_receipts(run, resp, path, written).action !is Finish,
        with_receipts(run, resp, path, written).action != ActionView::Exit(FINDING),
        with_baseline(run, resp, read).action !is Finish,
        with_baseline(run, resp, read).action != ActionView::Exit(FINDING),
{
}

/// A check fails closed: where it failed to check the SQL, it ends with success only if
/// the backend was never reached and a reason for going on was given.
pub proof fn law_failed_checks_fail_closed(run: CheckRun, e: ApiErrorView, unix_time: int)
    ensures
        with_failure(run, e, unix_time).action != ActionView::Exit(OK),
        with_failure(run, e, unix_time).action is Record <==> e is Transport
            && run.opts.allow_degraded is Some && crate::text::trim(
            run.opts.allow_degraded->Some_0@,
        ).len() > 0,
{
}

/// A run that is checked against a baseline recorded from the same response never fails
/// on findings, whatever the threshold.
pub proof fn law_recorded_findings_pass(
    run: CheckRun,
    resp: CheckResponse,
    baseline: Baseline,
    sources: Seq<SourceText>,
)
    requires
        entry_views(baseline.entries@) == recorded(findings(resp.queries@), run.files@),
    ensures
        with_sources(run, resp, Some(baseline), sources).action matches ActionView::Finish {
            code,
            ..
        } && code == OK,
{
    let qs = resp.queries@;
    let base = covered(Some(baseline));
    law_verdict_follows_the_findings(run, resp, Some(baseline), sources);
    assert forall|k: int|
        0 <= k < qs.len() && status_fails((#[trigger] qs[k]).status@, run.fail_on) implies suppressed(
        findings(qs),
        run.files@,
        base,
        sources,
    ).contains(fingerprint_in(qs[k], run.files@)) by {
        let q = qs[k];
        law_thresholds_widen(q.status@);
        assert(qs.contains(q));
        law_baseline_covers_its_own_run(baseline.entries@, qs, run.files@, q);
        law_findings_are_the_results_worth_reporting(qs, q);
        let fs = findings(qs);
        let i = choose|i: int| 0 <= i < fs.len() && fs[i] == q;
        law_suppressed_fingerprints(fs, run.files@, base, sources, fingerprint_in(q, run.files@));
        assert(fingerprint_in(fs[i], run.files@) == fingerprint_in(q, run.files@));
    }
}

/// A new finding fails the run: one at or above the threshold whose fingerprint the
/// baseline does not cover, and that is not ignored in a source.
pub proof fn law_new_findings_fail(
    run: CheckRun,
    resp: CheckResponse,
    baseline: Option<Baseline>,
    sources: Seq<SourceText>,
    k: int,
)
    requires
        !run.opts.monitor,
        0 <= k < resp.queries@.len(),
        status_fails(resp.queries@[k].status@, run.fail_on),
        !covered(baseline).contains(fingerprint_in(resp.queries@[k], run.files@)),
        forall|j: int|
            0 <= j < resp.queries@.len() && fingerprint_in(resp.queries@[j], run.files@)
                == fingerprint_in(resp.queries@[k], run.files@) ==> inline_reason(
                #[trigger] resp.queries@[j],
                run.files@,
                sources,
            ) is None,
    ensures
        with_sources(run, resp, baseline, sources).action matches ActionView::Finish { code, .. }
            && code == FINDING,
{
    let qs = resp.queries@;
    let fs = findings(qs);
    let fp = fingerprint_in(qs[k], run.files@);
    law_verdict_follows_the_findings(run, resp, baseline, sources);
    law_suppressed_fingerprints(fs, run.files@, covered(baseline), sources, fp);
    assert forall|i: int|
        0 <= i < fs.len() && fingerprint_in(#[trigger] fs[i], run.files@) == fp implies inline_reason(
        fs[i],
        run.files@,
        sources,
    ) is None by {
        law_findings_are_the_results_worth_reporting(qs, fs[i]);
        assert(fs.contains(fs[i]));
        let j = choose|j: int| 0 <= j < qs.len() && qs[j] == fs[i];
        assert(inline_reason(qs[j], run.files@, sources) is None);
    }
}

} // verus!
