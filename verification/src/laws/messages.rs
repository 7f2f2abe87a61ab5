//! What is said on the way, and what stands around the findings in a report.
use vstd::prelude::*;
use crate::api::{count_text, is_outcome, is_retry_step, in_order, responses, run_error, split_note, sum_of, ApiErrorView, ApiError, Attempt, CheckResponse, ChunkOutcome, Count, QueryResult, RetryStep, error_text, OidcExchangeResult, VersionInfo, WorkspaceConfig};
use crate::auth::{after_exchange, after_token, AuthModeView, AuthRunView, AuthStepView};
use crate::baseline::Baseline;
use crate::baseline_run::prunable;
use crate::check::{quota_note_of, SourceText};
use crate::check_run::{closing, ended, first_step, with_failure, with_response, with_sources, with_workspace, ActionView, CheckRun};
use crate::config::{key_source_label, KeySource, Resolved};
use crate::doctor::{mode_text, settings_lines, version_report};
use crate::exit::{LineView, StopView};
use crate::init::closing_lines;
use crate::json::{lemma_member, member, object, signed_decimal, JsonView};
use crate::laws::reports::{at, part, text};
use crate::login::{after_login_exchange, after_login_token};
use crate::output::{failure_head, failure_tail, findings, rule_ids, sast_scan, text_field, CLI_VERSION};
use crate::receipt::{verify_error_text, VerifyErrorView};
use crate::scaffold::CiTarget;
use crate::style::{styled, Color, TextStyle};
use crate::text::{decimal, opt_view, trim};
use crate::version::{update_note_of, version_gate_of};

verus! {

// ── Runs in parts ─────────────────────────────────────────────────────────────

/// The failure of a run names the chunk that failed, counted from one, and its error. Only a
/// run that reached the backend in none of its chunks is told as unreachable.
pub proof fn law_failed_runs_name_the_chunk(
    outcomes: Seq<ChunkOutcome>,
    total: nat,
    index: usize,
    cause: ApiErrorView,
)
    ensures
        ({
            let e = run_error(outcomes, total, index, cause);
            let place = "chunk "@ + decimal((index + 1) as nat) + "/"@ + decimal(total);
            let unreached = cause is Transport && outcomes.len() == total && forall|k: int|
                0 <= k < outcomes.len() ==> ((#[trigger] outcomes[k]) matches ChunkOutcome::Failed {
                    error,
                    ..
                } && error@ is Transport);
            &&& e is Transport <==> unreached
            &&& unreached ==> e == ApiErrorView::Transport(place + ": "@ + cause->Transport_0)
            &&& !unreached && index < usize::MAX ==> e == ApiErrorView::PartialFailure(
                place + " failed, failing the run closed: "@ + error_text(cause),
            )
        }),
{
}

/// A run without a response has no outcome only where its counts are beyond what a summary
/// can hold.
pub proof fn law_runs_have_an_outcome(
    r: Option<Result<CheckResponse, ApiError>>,
    outcomes: Seq<ChunkOutcome>,
    total: nat,
)
    requires
        is_outcome(r, outcomes, total),
        forall|k: int| 0 <= k < outcomes.len() ==> (#[trigger] outcomes[k]) is Done,
        outcomes.len() == total,
        total > 0,
        forall|c: Count| #[trigger] sum_of(responses(in_order(outcomes)), c) <= u32::MAX,
    ensures
        r matches Some(Ok(_)),
{
    crate::api::law_runs_fail_closed(outcomes);
    if total == 1 {
        assert(outcomes[0] is Done);
    }
}

/// A run that has too few or too many outcomes is told with both numbers.
pub proof fn law_miscounted_runs_are_told(n: nat, total: nat)
    ensures
        count_text(n, total) == decimal(n) + " outcomes for "@ + decimal(total)
            + " chunks, failing the run closed"@,
        split_note(n, total, 1) == "note: "@ + decimal(n)
            + " queries exceed the "@ + decimal(500) + "-per-call limit; splitting into "@
            + decimal(total) + " chunks (concurrency "@ + decimal(1) + ")"@,
{
}

/// The note on another try says what failed, which try it is, and how long it waits.
pub proof fn law_tries_are_noted(
    step: RetryStep,
    attempt: u32,
    outcome: Attempt,
    backoff_ms: u64,
)
    requires
        is_retry_step(step, attempt, outcome, backoff_ms),
    ensures
        step matches RetryStep::Retry { delay_ms, note } ==> note@ == "note: transient failure ("@
            + error_text(outcome.err@) + "); retry "@ + decimal((attempt + 1) as nat) + "/"@
            + decimal(3) + " in "@ + decimal(delay_ms as nat) + "ms"@,
{
}

/// The receipts of a response are those of its chunks where there are any, else its own.
pub proof fn law_responses_have_all_their_receipts(r: CheckResponse)
    ensures
        r.merged_receipts@.len() > 0 ==> r.receipts() == r.merged_receipts@,
        r.merged_receipts@.len() == 0 && r.receipt is None ==> r.receipts().len() == 0,
        r.merged_receipts@.len() == 0 ==> (r.receipt matches Some(x) ==> r.receipts() == seq![x]),
{
}

// ── Lines of a run ────────────────────────────────────────────────────────────

/// A line of notes: one on standard error where there is something to say.
pub open spec fn noted(note: Option<Seq<char>>) -> Seq<LineView> {
    match note {
        Some(n) => seq![LineView::Stderr(n)],
        None => Seq::<LineView>::empty(),
    }
}

/// A run that ends early says why: the line of its end, and that alone.
pub proof fn law_early_ends_say_why(
    run: CheckRun,
    s: StopView,
    base: Option<Seq<char>>,
    e: ApiErrorView,
    unix_time: int,
)
    ensures
        ended(s).say == seq![s.line],
        ended(s).action == ActionView::Exit(s.code),
        first_step(run.opts, base).action is Exit ==> first_step(run.opts, base).say.len() == 1,
        with_failure(run, e, unix_time).say == seq![
            LineView::Stderr(
                "error: "@ + (if e is Transport && run.opts.allow_degraded is Some && trim(
                    run.opts.allow_degraded->Some_0@,
                ).len() == 0 {
                    "--allow-degraded requires a reason."@
                } else {
                    error_text(e)
                }),
            ),
        ],
{
}

/// The steps of a run say what they have to: that the SQL is sanitized or that this could not
/// be found out, that the backend is old, what is left of the quota, and that there is an
/// update.
pub proof fn law_steps_say_their_notes(
    run: CheckRun,
    resp: CheckResponse,
    said: Seq<LineView>,
    cfg: WorkspaceConfig,
    e: ApiErrorView,
)
    ensures
        closing(run, resp, said).say == said + (noted(quota_note_of(resp.ci_checks_remaining))
            + noted(update_note_of(opt_view(resp.min_cli_version)))),
        version_gate_of(opt_view(resp.api_version_header)) matches Ok(note) ==> with_response(
            run,
            resp,
        ).say == noted(note),
        opt_view(cfg.telemetry_query_mode) == Some("sanitized"@) ==> with_workspace(
            run,
            seq![],
            Ok(cfg),
        ).say == noted(
            Some("note: workspace is in sanitized mode — literals normalized before sending."@),
        ),
        opt_view(cfg.telemetry_query_mode) != Some("sanitized"@) ==> with_workspace(
            run,
            seq![],
            Ok(cfg),
        ).say.len() == 0,
        !(e is Auth) ==> with_workspace(run, seq![], Err(e)).say == noted(
            Some(
                "note: could not read workspace config; proceeding without client-side sanitization."@,
            ),
        ),
{
}

/// The quota note gives the number of checks that are left.
pub proof fn law_quota_notes_give_the_number(n: i64)
    requires
        n <= 50,
    ensures
        quota_note_of(Some(n)) == Some(
            "note: "@ + signed_decimal(n as int)
                + " CLI checks left this month on your plan. Upgrade at https://vericto.com/pricing for more."@,
        ),
        n >= 0 ==> signed_decimal(n as int) == decimal(n as nat),
        n < 0 ==> signed_decimal(n as int) == seq!['-'] + decimal((-n) as nat),
{
}

/// The notes on what is suppressed: first those on the baseline, then those on the sources.
pub proof fn law_suppressions_are_noted_in_order(
    run: CheckRun,
    resp: CheckResponse,
    baseline: Option<Baseline>,
    sources: Seq<SourceText>,
)
    ensures
        with_sources(run, resp, baseline, sources).say == (match baseline {
            Some(b) => crate::check::baseline_notes(
                crate::check::covered_count(
                    findings(resp.queries@),
                    run.files@,
                    crate::baseline::entry_fingerprints(b.entries@),
                ),
                crate::baseline::stale(
                    b.entries@,
                    crate::baseline::finding_fingerprints(findings(resp.queries@), run.files@),
                ).len(),
                match run.baseline_path {
                    Some(p) => p@,
                    None => ""@,
                },
            ),
            None => Seq::<LineView>::empty(),
        }) + crate::check::inline_notes(findings(resp.queries@), run.files@, sources),
{
}

/// A baseline that cannot be read ends the command with an error, an empty one with success.
pub proof fn law_empty_baselines_need_no_pruning(path: Seq<char>, b: Baseline, e: Seq<char>)
    ensures
        prunable(path, Err(e)) matches Err(s) && s.code == 2 && s.line == LineView::Stderr(
            "error: "@ + e,
        ),
        b.entries@.len() == 0 ==> (prunable(path, Ok(b)) matches Err(s) && s.code == 0),
        b.entries@.len() > 0 ==> prunable(path, Ok(b)) == Ok::<Baseline, StopView>(b),
{
}

// ── Logins ────────────────────────────────────────────────────────────────────

/// A login by token says where the token came from and when the key expires, and a failure
/// says what failed.
pub proof fn law_token_logins_say_what_happened(
    run: AuthRunView,
    res: OidcExchangeResult,
    e: ApiErrorView,
)
    ensures
        after_exchange(run, Ok(res)) matches AuthStepView::Done { note, .. } && note == Some(
            "note: authenticated via OIDC ("@ + run.source + "); minted a short-lived key"@ + (
            match res.expires_at {
                Some(t) => " (expires "@ + t@ + ")"@,
                None => Seq::<char>::empty(),
            }) + "."@,
        ),
        after_exchange(run, Err(e)) matches AuthStepView::Failed(s) && s.line == LineView::Stderr(
            "error: "@ + ("OIDC token exchange failed: "@ + error_text(e)),
        ),
        after_token(run, Err(e)) matches AuthStepView::Failed(s) && s.line == LineView::Stderr(
            "error: "@ + ("could not obtain an OIDC ID token: "@ + error_text(e)),
        ),
        after_login_token(Err(e)).say == seq![
            LineView::Stderr("✖ could not obtain an OIDC token: "@ + error_text(e)),
        ],
        after_login_exchange(Err(e)).say[0] == LineView::Stderr(
            "✖ OIDC exchange failed: "@ + error_text(e),
        ),
{
}

/// The source of a key is told by its own words.
pub proof fn law_key_sources_are_told_apart(source: Seq<char>, policy: Option<Seq<char>>)
    ensures
        key_source_label(KeySource::Flag) == "--api-key flag"@,
        key_source_label(KeySource::Env) == "VETRO_API_KEY env"@,
        key_source_label(KeySource::ConfigFile) == "config file"@,
        key_source_label(KeySource::Absent) == "none"@,
        mode_text(AuthModeView::Static(KeySource::Env)) == "auth mode:   static key ("@
            + "VETRO_API_KEY env"@ + ")"@,
        mode_text(AuthModeView::Oidc { source, policy_id: policy })
            == "auth mode:   OIDC workload-identity via "@ + source + (match policy {
            Some(p) => " (policy "@ + p + ")"@,
            None => Seq::<char>::empty(),
        }),
{
}

/// A look at the installation begins with its settings, and tells the backend's version.
pub proof fn law_the_doctor_tells_of_the_settings(
    path: Option<Seq<char>>,
    r: Resolved,
    info: VersionInfo,
)
    ensures
        settings_lines(path, r) == seq![
            LineView::Stdout("config file: "@ + (if path is Some {
                path->Some_0
            } else {
                "(unavailable)"@
            })),
            LineView::Stdout("api url:     "@ + r.api_url@),
            LineView::Stdout("api key:     "@ + key_source_label(r.key_source)),
            LineView::Stdout("\ncli version: "@ + CLI_VERSION@),
        ],
        info.api_version matches Some(v) ==> version_report(Ok(info)).say[0] == LineView::Stdout(
            "backend api: "@ + v@ + (match info.min_cli_version {
                Some(m) => " (min cli "@ + m@ + ")"@,
                None => Seq::<char>::empty(),
            }),
        ),
{
}

/// Each fault of a receipt is told by its own words, with what is known of it.
pub proof fn law_faults_are_told_apart(a: Seq<char>, b: Seq<char>)
    ensures
        verify_error_text(VerifyErrorView::UnsupportedScheme(a))
            == "unsupported signature scheme '"@ + a + "' (expected '"@ + "ed25519-sha256"@
            + "')"@,
        verify_error_text(VerifyErrorView::BadPublicKey(a)) == "invalid public key: "@ + a,
        verify_error_text(VerifyErrorView::BadSignature(a)) == "malformed signature: "@ + a,
        verify_error_text(VerifyErrorView::DigestMismatch { expected: a, actual: b })
            == "payload digest mismatch (receipt says "@ + a + ", computed "@ + b
            + ") — the receipt payload was altered"@,
        verify_error_text(VerifyErrorView::SignatureInvalid)
            == "signature does not verify — receipt is not authentic"@,
{
}

/// A setup says one thing to do next for the provider, and one more where it wrote a hook.
pub proof fn law_setups_say_what_comes_next(target: CiTarget, oidc: bool, hook: bool)
    ensures
        closing_lines(target, oidc, hook).len() == (if target is Unknown {
            0int
        } else {
            1int
        }) + (if hook {
            1int
        } else {
            0int
        }),
{
}

// ── Around the findings ───────────────────────────────────────────────────────

/// The code that switches a color on.
pub open spec fn color_on(c: Color) -> Seq<char> {
    match c {
        Color::Red => "\x1b[31m"@,
        Color::Green => "\x1b[32m"@,
        Color::Yellow => "\x1b[33m"@,
        Color::Blue => "\x1b[34m"@,
    }
}

/// A text in a style stands between the codes that switch the style on and the one that
/// switches it off; without a style it stands alone.
pub proof fn law_styles_stand_around_the_text(s: TextStyle, t: Seq<char>)
    ensures
        styled(s, t) == part(s.bold, "\x1b[1m"@) + part(s.dimmed, "\x1b[2m"@) + (match s.color {
            Some(c) => color_on(c),
            None => Seq::<char>::empty(),
        }) + t + part(s.bold || s.dimmed || s.color is Some, "\x1b[0m"@),
{
}

/// The explanation of a failed run begins with the number of statements that were blocked and
/// the version of the rules, and ends with how to allow one.
pub proof fn law_explanations_count_the_statements(n: nat, version: Seq<char>, rule: Seq<char>)
    ensures
        failure_head(n, version) == "\n"@ + styled(
            TextStyle { color: Some(Color::Red), bold: true, dimmed: false },
            "✖ Vericto blocked "@ + decimal(n) + " statement"@ + (if n == 1 {
                ""@
            } else {
                "s"@
            }),
        ) + "  "@ + styled(
            TextStyle { color: None, bold: false, dimmed: true },
            "(ruleset "@ + version + ")"@,
        ) + "\n"@,
        failure_tail(rule) == "\n"@ + styled(
            TextStyle { color: None, bold: false, dimmed: true },
            "This is Vericto enforcing a rule — the exit code is intentional, not a crash."@,
        ) + "\n"@ + styled(
            TextStyle { color: None, bold: false, dimmed: true },
            "To allow a finding on purpose, add an inline comment on the statement:"@,
        ) + "\n"@ + styled(
            TextStyle { color: None, bold: false, dimmed: true },
            "    -- vericto:ignore["@ + rule + "] <reason>   (a reason is required)"@,
        ) + "\n"@,
{
}

/// The rules of a SARIF report stand in the order of their first findings: a further finding
/// adds its rule at the end, unless it is there.
pub proof fn law_rules_stand_in_order(fs: Seq<QueryResult>, q: QueryResult)
    ensures
        ({
            let before = rule_ids(fs);
            let after = rule_ids(fs.push(q));
            match q.rule_code {
                Some(code) => if before.contains(code@) {
                    after == before
                } else {
                    after == before.push(code@)
                },
                None => after == before,
            }
        }),
        rule_ids(Seq::<QueryResult>::empty()).len() == 0,
{
    assert(fs.push(q).drop_last() =~= fs);
}

proof fn lemma_scan()
    ensures
        member(sast_scan(), "scanner"@) == Some(
            object(
                seq![
                    text_field("id"@, "vericto"@),
                    text_field("name"@, "Vericto"@),
                    text_field("version"@, CLI_VERSION@),
                    ("vendor"@, object(seq![text_field("name"@, "Vericto"@)])),
                ],
            ),
        ),
        member(sast_scan(), "type"@) == Some(JsonView::Text("sast"@)),
        member(sast_scan(), "status"@) == Some(JsonView::Text("success"@)),
{
    reveal_strlit("scanner");
    reveal_strlit("type");
    reveal_strlit("status");
    let fields = seq![
        (
            "scanner"@,
            object(
                seq![
                    text_field("id"@, "vericto"@),
                    text_field("name"@, "Vericto"@),
                    text_field("version"@, CLI_VERSION@),
                    ("vendor"@, object(seq![text_field("name"@, "Vericto"@)])),
                ],
            ),
        ),
        ("type"@, JsonView::Text("sast"@)),
        ("status"@, JsonView::Text("success"@)),
    ];
    assert(object(fields) == sast_scan());
    assert("scanner"@.len() == 7 && "type"@.len() == 4 && "status"@.len() == 6);
    assert(fields[0].0 == "scanner"@ && fields[1].0 == "type"@ && fields[2].0 == "status"@);
    lemma_member(fields, 0);
    lemma_member(fields, 1);
    lemma_member(fields, 2);
}

proof fn lemma_scanner()
    ensures
        member(
            object(
                seq![
                    text_field("id"@, "vericto"@),
                    text_field("name"@, "Vericto"@),
                    text_field("version"@, CLI_VERSION@),
                    ("vendor"@, object(seq![text_field("name"@, "Vericto"@)])),
                ],
            ),
            "id"@,
        )
            == Some(JsonView::Text("vericto"@)),
        member(
            object(
                seq![
                    text_field("id"@, "vericto"@),
                    text_field("name"@, "Vericto"@),
                    text_field("version"@, CLI_VERSION@),
                    ("vendor"@, object(seq![text_field("name"@, "Vericto"@)])),
                ],
            ),
            "name"@,
        )
            == Some(JsonView::Text("Vericto"@)),
        member(
            object(
                seq![
                    text_field("id"@, "vericto"@),
                    text_field("name"@, "Vericto"@),
                    text_field("version"@, CLI_VERSION@),
                    ("vendor"@, object(seq![text_field("name"@, "Vericto"@)])),
                ],
            ),
            "version"@,
        )
            == Some(JsonView::Text(CLI_VERSION@)),
        member(
            object(
                seq![
                    text_field("id"@, "vericto"@),
                    text_field("name"@, "Vericto"@),
                    text_field("version"@, CLI_VERSION@),
                    ("vendor"@, object(seq![text_field("name"@, "Vericto"@)])),
                ],
            ),
            "vendor"@,
        )
            == Some(object(seq![text_field("name"@, "Vericto"@)])),
{
    reveal_strlit("id");
    reveal_strlit("name");
    reveal_strlit("version");
    reveal_strlit("vendor");
    let fields = seq![
        ("id"@, JsonView::Text("vericto"@)),
        ("name"@, JsonView::Text("Vericto"@)),
        ("version"@, JsonView::Text(CLI_VERSION@)),
        ("vendor"@, object(seq![text_field("name"@, "Vericto"@)])),
    ];
    assert(object(fields) == object(
        seq![
            text_field("id"@, "vericto"@),
            text_field("name"@, "Vericto"@),
            text_field("version"@, CLI_VERSION@),
            ("vendor"@, object(seq![text_field("name"@, "Vericto"@)])),
        ],
    ));
    assert("id"@.len() == 2 && "name"@.len() == 4 && "version"@.len() == 7 && "vendor"@.len() == 6);
    assert(fields[0].0 == "id"@ && fields[1].0 == "name"@ && fields[2].0 == "version"@
        && fields[3].0 == "vendor"@);
    lemma_member(fields, 0);
    lemma_member(fields, 1);
    lemma_member(fields, 2);
    lemma_member(fields, 3);
}

/// A SAST report names the tool that made it, and its scan as a success.
pub proof fn law_scans_name_their_tool()
    ensures
        ({
            let scan = Some(sast_scan());
            let scanner = at(scan, "scanner"@);
            &&& at(scan, "type"@) == text("sast"@)
            &&& at(scan, "status"@) == text("success"@)
            &&& at(scanner, "id"@) == text("vericto"@)
            &&& at(scanner, "name"@) == text("Vericto"@)
            &&& at(scanner, "version"@) == text(CLI_VERSION@)
        }),
{
    lemma_scan();
    lemma_scanner();
}

} // verus!
