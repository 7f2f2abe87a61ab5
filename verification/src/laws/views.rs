//! A view holds all that its value holds.
use vstd::prelude::*;
use crate::api::{chunk_views, opt_str_view, outcome_view, provenance_view, receipt_views, ApiError, ApiErrorView, CheckParams, Provenance, QueryInput, QueryResult, Receipt, ReceiptView, RuleSummary};
use crate::auth::{AuthMode, AuthModeView, AuthRun, AuthStep, AuthStepView};
use crate::baseline::{entry_views, referred, Baseline, Entry};
use crate::baseline_run::{baseline_result, BaselineAction, BaselineActionView};
use crate::browser_login::{pair_views, Callback};
use crate::catalogue::rules_at;
use crate::check::{files_view, preflight_result, queries_result, query_views, results_at, text_result, QueryView};
use crate::check_run::{baseline_view, written_view, ActionView, CheckAction, Turn};
use crate::ci_env::names_view;
use crate::config::{project_result, Config, ConfigView, ProjectConfig};
use crate::doctor::login_result;
use crate::exit::{line_views, stop_view, Line, LineView, Stop, StopView};
use crate::init::{line_result, plan_result, planned_views, InitPlan, InitPlanView, PlannedFile, PlannedFileView};
use crate::json::{field_views, json_view, views};
use crate::login::{config_result, minted_key, saved_view};
use crate::oidc::{availability_view, token_view, Availability};
use crate::receipt::{verdict_view, VerifyError, VerifyErrorView};
use crate::text::{first_text, opt_view, span_texts, text_or, text_views};
use crate::verify_run::receipts_result;
use crate::version::{note_result, version_view};

verus! {

/// An optional text is there exactly where its value is, and reads the same.
pub proof fn law_optional_texts(a: String, b: Option<String>, default: Seq<char>, s: &str)
    ensures
        opt_view(Some(a)) == Some(a@),
        opt_view(None) is None,
        opt_str_view(Some(s)) == Some(s@),
        opt_str_view(None) is None,
        text_or(Some(a), default) == a@,
        text_or(None, default) == default,
        first_text(Some(a@), opt_view(b)) == Some(a@),
        first_text(None, opt_view(b)) == opt_view(b),
{
}

/// A list has as many views as items, each of its own item.
pub proof fn law_lists_are_viewed_item_by_item(
    texts: Seq<String>,
    lines: Seq<Line>,
    receipts: Seq<Receipt>,
    queries: Seq<QueryInput>,
    entries: Seq<Entry>,
    k: int,
)
    ensures
        text_views(texts).len() == texts.len(),
        0 <= k < texts.len() ==> text_views(texts)[k] == texts[k]@,
        line_views(lines).len() == lines.len(),
        0 <= k < lines.len() ==> line_views(lines)[k] == (match lines[k] {
            Line::Stdout(s) => LineView::Stdout(s@),
            Line::Stderr(s) => LineView::Stderr(s@),
        }),
        receipt_views(receipts).len() == receipts.len(),
        0 <= k < receipts.len() ==> receipt_views(receipts)[k] == receipts[k]@,
        query_views(queries).len() == queries.len(),
        0 <= k < queries.len() ==> query_views(queries)[k].line == queries[k].line && query_views(
            queries,
        )[k].sql == queries[k].sql@,
        entry_views(entries).len() == entries.len(),
        0 <= k < entries.len() ==> {
            let e = entry_views(entries)[k];
            &&& e.fingerprint == entries[k].fingerprint@
            &&& e.file == entries[k].file@
            &&& e.rule_code == opt_view(entries[k].rule_code)
            &&& e.status == opt_view(entries[k].status)
        },
{
}

/// Receipts, provenance, settings, parameters and ends are viewed field by field.
pub proof fn law_values_are_viewed_field_by_field(
    r: Receipt,
    p: Provenance,
    c: Config,
    q: CheckParams,
    s: Stop,
)
    ensures
        r@.payload == json_view(r.payload),
        r@.scheme == r.scheme@,
        r@.signature == r.signature@,
        r@.public_key_id == r.public_key_id@,
        r@.sha256 == r.sha256@,
        provenance_view(None) is None,
        provenance_view(Some(p)) == Some(p@),
        p@.git_sha == opt_view(p.git_sha),
        p@.git_ref == opt_view(p.git_ref),
        p@.ci_provider == p.ci_provider@,
        p@.ci_run_url == opt_view(p.ci_run_url),
        p@.actor == opt_view(p.actor),
        c@.api_url == opt_view(c.api_url),
        c@.api_key == opt_view(c.api_key),
        c@.default_dialect == opt_view(c.default_dialect),
        c@.workspace_id == opt_view(c.workspace_id),
        c@.oidc_audience == opt_view(c.oidc_audience),
        q@.api_url == q.api_url@,
        q@.api_key == q.api_key@,
        q@.dialect == q.dialect@,
        q@.file_name == opt_view(q.file_name),
        q@.provenance == provenance_view(q.provenance),
        q@.timeout_secs == q.transport.timeout_secs,
        q@.ca_bundle == opt_view(q.transport.ca_bundle),
        q@.concurrency == q.concurrency,
        q@.receipt == q.receipt,
        s@.code == s.code,
        s@.line == s.line@,
{
}

/// An error is viewed as its own kind, with its own message.
pub proof fn law_errors_are_viewed_as_their_kind<T>(e: ApiError, v: T)
    ensures
        e matches ApiError::Auth(m) ==> e@ == ApiErrorView::Auth(m@),
        e matches ApiError::Backend { status, message } ==> e@ == (ApiErrorView::Backend {
            status,
            message: message@,
        }),
        e matches ApiError::Transport(m) ==> e@ == ApiErrorView::Transport(m@),
        e matches ApiError::PartialFailure(m) ==> e@ == ApiErrorView::PartialFailure(m@),
        outcome_view(Ok::<T, ApiError>(v)) == Ok::<T, ApiErrorView>(v),
        outcome_view(Err::<T, ApiError>(e)) == Err::<T, ApiErrorView>(e@),
{
}

/// A result is viewed as the success or the failure that it is, with all it holds.
pub proof fn law_results_are_viewed_as_they_are<T>(
    v: T,
    s: Stop,
    text: String,
    e: String,
    f: ApiError,
    files: Vec<String>,
    queries: Vec<QueryInput>,
    note: Option<String>,
    receipts: Vec<Receipt>,
    c: Config,
    b: Baseline,
    p: ProjectConfig,
    m: AuthMode,
    l: Line,
    plan: InitPlan,
    fault: VerifyError,
    avail: Availability,
    version: (u32, u32),
)
    ensures
        stop_view(Ok::<T, Stop>(v)) == Ok::<T, StopView>(v),
        stop_view(Err::<T, Stop>(s)) == Err::<T, StopView>(s@),
        text_result(Ok(text)) == Ok::<Seq<char>, Seq<char>>(text@),
        text_result(Err(e)) == Err::<Seq<char>, Seq<char>>(e@),
        files_view(Ok(files)) == Ok::<Seq<Seq<char>>, StopView>(text_views(files@)),
        files_view(Err(s)) == Err::<Seq<Seq<char>>, StopView>(s@),
        names_view(Ok(files)) == Ok::<Seq<Seq<char>>, Seq<char>>(text_views(files@)),
        names_view(Err(e)) == Err::<Seq<Seq<char>>, Seq<char>>(e@),
        queries_result(Ok(queries)) == Ok::<Seq<QueryView>, StopView>(query_views(queries@)),
        queries_result(Err(s)) == Err::<Seq<QueryView>, StopView>(s@),
        preflight_result(Ok((queries, note))) == Ok::<(Seq<QueryView>, Option<Seq<char>>), StopView>(
            (query_views(queries@), opt_view(note)),
        ),
        preflight_result(Err(s)) == Err::<(Seq<QueryView>, Option<Seq<char>>), StopView>(s@),
        receipts_result(Ok(receipts)) == Ok::<Seq<ReceiptView>, StopView>(receipt_views(receipts@)),
        receipts_result(Err(s)) == Err::<Seq<ReceiptView>, StopView>(s@),
        config_result(Ok(c)) == Ok::<ConfigView, StopView>(c@),
        config_result(Err(s)) == Err::<ConfigView, StopView>(s@),
        baseline_result(Ok(b)) == Ok::<Baseline, StopView>(b),
        baseline_result(Err(s)) == Err::<Baseline, StopView>(s@),
        baseline_view(Ok(b)) == Ok::<Baseline, Seq<char>>(b),
        baseline_view(Err(e)) == Err::<Baseline, Seq<char>>(e@),
        project_result(Ok(p)) == Ok::<ProjectConfig, Seq<char>>(p),
        project_result(Err(e)) == Err::<ProjectConfig, Seq<char>>(e@),
        written_view(Ok(())) == Ok::<(), Seq<char>>(()),
        written_view(Err(e)) == Err::<(), Seq<char>>(e@),
        saved_view(Ok(text)) == Ok::<Seq<char>, Seq<char>>(text@),
        saved_view(Err(e)) == Err::<Seq<char>, Seq<char>>(e@),
        minted_key(Ok(text)) == Ok::<Seq<char>, ApiErrorView>(text@),
        minted_key(Err(f@)) == Err::<Seq<char>, ApiErrorView>(f@),
        token_view(Ok(text)) == Ok::<Seq<char>, ApiErrorView>(text@),
        token_view(Err(f)) == Err::<Seq<char>, ApiErrorView>(f@),
        login_result(Ok(m)) == Ok::<AuthModeView, StopView>(m@),
        login_result(Err(s)) == Err::<AuthModeView, StopView>(s@),
        line_result(Ok(l)) == Ok::<LineView, StopView>(l@),
        line_result(Err(s)) == Err::<LineView, StopView>(s@),
        plan_result(Ok(plan)) == Ok::<InitPlanView, StopView>(plan@),
        plan_result(Err(s)) == Err::<InitPlanView, StopView>(s@),
        verdict_view(Ok(())) == Ok::<(), VerifyErrorView>(()),
        verdict_view(Err(fault)) == Err::<(), VerifyErrorView>(fault@),
        availability_view(Some(avail)) == Some(avail@),
        availability_view(None) is None,
        note_result(Ok(note)) == Ok::<Option<Seq<char>>, StopView>(opt_view(note)),
        note_result(Err(s)) == Err::<Option<Seq<char>>, StopView>(s@),
        version_view(Some(version)) == Some((version.0 as nat, version.1 as nat)),
        version_view(None) is None,
{
}

/// Lists of references, spans, chunks and pairs are viewed item by item too.
pub proof fn law_other_lists_are_viewed_item_by_item(
    results: Seq<&QueryResult>,
    entries: Seq<&Entry>,
    rules: Seq<&RuleSummary>,
    chunks: Seq<Vec<QueryInput>>,
    pairs: Seq<(String, String)>,
    fields: Seq<(String, serde_json::Value)>,
    values: Seq<serde_json::Value>,
    files: Seq<PlannedFile>,
    s: Seq<char>,
    spans: Seq<(usize, usize)>,
    k: int,
)
    ensures
        results_at(results).len() == results.len(),
        0 <= k < results.len() ==> results_at(results)[k] == *results[k],
        referred(entries).len() == entries.len(),
        0 <= k < entries.len() ==> referred(entries)[k] == *entries[k],
        rules_at(rules).len() == rules.len(),
        0 <= k < rules.len() ==> rules_at(rules)[k] == *rules[k],
        chunk_views(chunks).len() == chunks.len(),
        0 <= k < chunks.len() ==> chunk_views(chunks)[k] == chunks[k]@,
        pair_views(pairs).len() == pairs.len(),
        0 <= k < pairs.len() ==> pair_views(pairs)[k] == (pairs[k].0@, pairs[k].1@),
        field_views(fields).len() == fields.len(),
        0 <= k < fields.len() ==> field_views(fields)[k] == (fields[k].0@, json_view(fields[k].1)),
        views(values).len() == values.len(),
        0 <= k < values.len() ==> views(values)[k] == json_view(values[k]),
        planned_views(files).len() == files.len(),
        0 <= k < files.len() ==> planned_views(files)[k] == (PlannedFileView {
            path: files[k].path@,
            body: files[k].body@,
            executable: files[k].executable,
        }),
        span_texts(s, spans).len() == spans.len(),
        0 <= k < spans.len() ==> span_texts(s, spans)[k] == s.subrange(
            spans[k].0 as int,
            spans[k].1 as int,
        ),
{
}

/// What a check does next is viewed with all that goes with it.
pub proof fn law_actions_are_viewed_whole(a: CheckAction, t: Turn)
    ensures
        a matches CheckAction::Diff { base } ==> a@ == (ActionView::Diff { base: base@ }),
        a matches CheckAction::FetchWorkspace { queries } ==> a@ == (ActionView::FetchWorkspace {
            queries: query_views(queries@),
        }),
        a matches CheckAction::Send { params, queries } ==> a@ == (ActionView::Send {
            params: params@,
            queries: query_views(queries@),
        }),
        a matches CheckAction::Record { reason, record } ==> a@ == (ActionView::Record {
            reason: reason@,
            record: record@,
        }),
        a matches CheckAction::WriteReport { resp, text } ==> a@ == (ActionView::WriteReport {
            resp,
            text: text@,
        }),
        a matches CheckAction::WriteReceipts { resp, receipts, path } ==> a@ == (
        ActionView::WriteReceipts { resp, receipts: receipt_views(receipts@), path: path@ }),
        a matches CheckAction::LoadBaseline { resp, path } ==> a@ == (ActionView::LoadBaseline {
            resp,
            path: path@,
        }),
        a matches CheckAction::Reread { resp, baseline, paths } ==> a@ == (ActionView::Reread {
            resp,
            baseline,
            paths: text_views(paths@),
        }),
        a matches CheckAction::Finish { code, summary } ==> a@ == (ActionView::Finish {
            code,
            annotations: summary.annotations@,
            explanation: summary.explanation@,
        }),
        a matches CheckAction::Exit(code) ==> a@ == ActionView::Exit(code),
        a is ReadFileList <==> a@ is ReadFileList,
        a is ReadSources <==> a@ is ReadSources,
        t@.say == line_views(t.say@),
        t@.action == t.action@,
{
}

/// What a baseline does next is viewed with all that goes with it.
pub proof fn law_baseline_actions_are_viewed_whole(a: BaselineAction)
    ensures
        a matches BaselineAction::Diff { base } ==> a@ == (BaselineActionView::Diff { base: base@ }),
        a matches BaselineAction::FetchWorkspace { queries } ==> a@ == (
        BaselineActionView::FetchWorkspace { queries: query_views(queries@) }),
        a matches BaselineAction::Send { say, params, queries } ==> a@ == (
        BaselineActionView::Send {
            say: line_views(say@),
            params: params@,
            queries: query_views(queries@),
        }),
        a matches BaselineAction::Save { baseline, path, done } ==> a@ == (
        BaselineActionView::Save {
            version: baseline.version,
            entries: entry_views(baseline.entries@),
            path: path@,
            done: done@,
        }),
        a matches BaselineAction::Exit(s) ==> a@ == BaselineActionView::Exit(s@),
        a is ReadSources <==> a@ is ReadSources,
{
}

/// The steps of a login are viewed with all that goes with them.
pub proof fn law_login_steps_are_viewed_whole(a: AuthStep, m: AuthMode, r: AuthRun, c: Callback)
    ensures
        a matches AuthStep::Done { key, mode, note } ==> a@ == (AuthStepView::Done {
            key: key@,
            mode: mode@,
            note: opt_view(note),
        }),
        a matches AuthStep::RequestToken { run, url, authorization, audience } ==> a@ == (
        AuthStepView::RequestToken {
            run: run@,
            url: url@,
            authorization: authorization@,
            audience: opt_view(audience),
        }),
        a matches AuthStep::Exchange { run, id_token } ==> a@ == (AuthStepView::Exchange {
            run: run@,
            id_token: id_token@,
        }),
        a matches AuthStep::Failed(s) ==> a@ == AuthStepView::Failed(s@),
        m matches AuthMode::Static(source) ==> m@ == AuthModeView::Static(source),
        m matches AuthMode::Oidc { source, policy_id } ==> m@ == (AuthModeView::Oidc {
            source: source@,
            policy_id: opt_view(policy_id),
        }),
        r@.workspace == r.workspace@,
        r@.source == r.source@,
        c@.status == c.status,
        c@.message == c.message@,
        c@.code == opt_view(c.code),
{
}

} // verus!
