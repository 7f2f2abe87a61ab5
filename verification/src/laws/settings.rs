//! Defaults and limits, and how the commands end.
use vstd::prelude::*;
use crate::api::{address_of, version_answered, ApiErrorView, ApiKeyInfo, QueryResult, Sent, Transport, VersionInfo};
use crate::baseline::is_covered;
use crate::browser_login::{is_pushed, is_wait_step, LineStatus, WaitStep};
use crate::catalogue::keys_shown;
use crate::check::{any_fails, baseline_notes, baseline_of, concurrency_of, is_transport, receipts_note, FailOn};
use crate::check_run::{with_record, ActionView};
use crate::config::{base_of, is_user_config, Config, ConfigView, FileRead, ProjectConfig};
use crate::docs::docs_base_of;
use crate::exit::{error_stop, LineView, StopView};
use crate::laws::answers::law_base_addresses_end_without_slash;
use crate::laws::baselines::print_of;
use crate::laws::checking::fails;
use crate::login::{identity_settings, mode_of, LoginMode};
use crate::output::{doc_block, doc_blocks, keys_report, rule_report, DocRow};
use crate::scaffold::is_writable;
use crate::style::{styled, Color, TextStyle};
use crate::text::{byte_len, decimal, lines, occurs_at};
use crate::verify_run::{key_source, loaded, KeyArgument, ReceiptFile};

verus! {

// ── Defaults and limits ───────────────────────────────────────────────────────

/// The baseline on the command line wins over the project's.
pub proof fn law_the_command_line_sets_the_baseline(flag: Option<String>, project: ProjectConfig)
    ensures
        flag matches Some(b) ==> baseline_of(flag, project) == Some(b@),
        flag is None ==> (project.baseline matches Some(b) ==> baseline_of(flag, project) == Some(
            b@,
        )),
        flag is None && project.baseline is None ==> baseline_of(flag, project) is None,
{
}

/// Between one and eight requests are in flight, four where nothing else was asked for.
pub proof fn law_requests_in_flight_are_limited(n: usize)
    ensures
        concurrency_of(None) == 4,
        1 <= concurrency_of(Some(n)) <= 8,
        1 <= n <= 8 ==> concurrency_of(Some(n)) == n,
        n == 0 ==> concurrency_of(Some(n)) == 1,
        n > 8 ==> concurrency_of(Some(n)) == 8,
{
}

/// A timeout that was given is taken, else it is thirty seconds; a CA bundle that was given
/// beats the one of the environment.
pub proof fn law_requests_are_sent_as_asked(
    r: Transport,
    timeout: Option<u64>,
    given: Option<String>,
    env: Option<String>,
)
    requires
        is_transport(r, timeout, given, env),
    ensures
        timeout matches Some(n) ==> r.timeout_secs == n,
        timeout is None ==> r.timeout_secs == 30,
        given is Some ==> r.ca_bundle == given,
        given is None ==> r.ca_bundle == env,
{
}

/// Settings are looked for where the variable says; an empty one, or none on Unix, means the
/// home directory.
pub proof fn law_settings_have_one_place(unix: bool)
    ensures
        base_of(Some(true), unix) is Xdg,
        base_of(Some(false), unix) is DotConfig,
        base_of(None, true) is DotConfig,
        base_of(None, false) is Platform,
{
}

/// Settings that can be read are taken as they stand. Without them all are empty, and there
/// is a warning unless the file is just missing.
pub proof fn law_user_settings_are_taken_whole(
    r: (Config, Option<String>),
    read: FileRead<Config>,
    path: Seq<char>,
)
    requires
        is_user_config(r, read, path),
    ensures
        read matches FileRead::Parsed(c) ==> r.0 == c && r.1 is None,
        !(read is Parsed) ==> r.0.api_url is None && r.0.api_key is None && r.0.default_dialect
            is None && r.0.workspace_id is None && r.0.oidc_audience is None,
        r.1 is Some <==> read is Unreadable || read is Malformed,
{
}

/// A file that is there is overwritten only by force.
pub proof fn law_files_are_overwritten_by_force(force: bool)
    ensures
        is_writable(false, force),
        is_writable(true, force) == force,
{
}

/// The address of a request is the base address without the slashes at its end, and the path.
pub proof fn law_requests_go_under_the_base_address(url: Seq<char>, path: Seq<char>) -> (n: int)
    ensures
        0 <= n <= url.len(),
        address_of(url, path) == url.subrange(0, n) + path,
        docs_base_of(url) == url.subrange(0, n) + "/docs"@,
        forall|i: int| n <= i < url.len() ==> #[trigger] url[i] == '/',
        n > 0 ==> url[n - 1] != '/',
{
    law_base_addresses_end_without_slash(url)
}

/// The version of a backend is what its answer holds; a backend without that endpoint is told
/// by its status and not taken for one that refuses the key.
pub proof fn law_versions_are_what_the_backend_says(
    status: u16,
    body: String,
    decoded: Result<VersionInfo, String>,
    e: String,
)
    ensures
        ({
            let r = version_answered(Sent::Answered { status, body, decoded });
            let ok = 200 <= status && status < 300;
            &&& r is Ok <==> ok && decoded is Ok
            &&& r matches Ok(v) ==> decoded == Ok::<VersionInfo, String>(v)
            &&& r matches Err(x) ==> (x matches ApiErrorView::Backend { status: s, .. } && s
                == status)
        }),
        version_answered(Sent::Unreachable(e)) == Err::<VersionInfo, ApiErrorView>(
            ApiErrorView::Transport(e@),
        ),
{
}

// ── Logins ────────────────────────────────────────────────────────────────────

/// A login is made with workload identity where that is asked for, else with the key that
/// was given, else through the browser.
pub proof fn law_logins_are_made_as_asked(key: Option<String>, oidc: bool)
    ensures
        mode_of(true, key) is Oidc,
        !oidc ==> (key matches Some(k) ==> mode_of(oidc, key) == LoginMode::Key(k)),
        mode_of(false, None) is Browser,
{
}

/// A login with workload identity needs a workspace, and stores no key.
pub proof fn law_identity_logins_need_a_workspace(
    cfg: ConfigView,
    workspace: Option<Seq<char>>,
    api_url: Option<Seq<char>>,
    audience: Option<Seq<char>>,
)
    ensures
        identity_settings(cfg, workspace, api_url, audience) is Ok <==> workspace is Some,
        identity_settings(cfg, workspace, api_url, audience) matches Ok(c) ==> c.workspace_id
            == workspace && c.api_key is None && c.default_dialect == cfg.default_dialect,
        identity_settings(cfg, workspace, api_url, audience) matches Err(s) ==> s.code == 2,
{
}

/// Settings that were written end a command with success; those that could not be end it with
/// an error that says why.
pub proof fn law_writing_decides_the_end(path: Seq<char>, done: Seq<char>, e: Seq<char>)
    ensures
        crate::login::after_saving(Ok(path)) == (StopView {
            code: 0,
            line: LineView::Stdout("Saved credentials to "@ + path),
        }),
        crate::login::after_saving(Err(e)) == (StopView {
            code: 2,
            line: LineView::Stderr("error: "@ + ("could not write config: "@ + e)),
        }),
        crate::baseline_run::after_saving(done, Ok(())) == (StopView {
            code: 0,
            line: LineView::Stdout(done),
        }),
        crate::baseline_run::after_saving(done, Err(e)) == (StopView {
            code: 2,
            line: LineView::Stderr("error: "@ + ("could not write baseline: "@ + e)),
        }),
{
}

/// A baseline whose check failed ends with the code of the failure.
pub proof fn law_failed_baselines_end_with_their_code(e: ApiErrorView)
    ensures
        crate::baseline_run::with_failure(e) matches crate::baseline_run::BaselineActionView::Exit(
            s,
        ) && s.code == (if e is Auth {
            3u8
        } else {
            4u8
        }),
{
}

/// A request line takes its bytes in order up to the line feed, which it leaves out; beyond
/// the limit it is refused.
pub proof fn law_request_lines_grow_byte_by_byte(
    before: Seq<u8>,
    byte: u8,
    after: Seq<u8>,
    r: LineStatus,
)
    requires
        is_pushed(before, byte, after, r),
    ensures
        r is Complete <==> byte == '\n' as u8,
        r is Complete ==> after == before,
        !(r is Complete) ==> after == before + seq![byte],
        r is TooLong <==> byte != '\n' as u8 && after.len() > 8192,
{
    if byte != 10 {
        assert(before.push(byte) =~= before + seq![byte]);
    }
}

/// A code ends the wait for the browser; without one it goes on until the time is up.
pub proof fn law_codes_end_the_wait(
    r: WaitStep,
    outcome: Result<Option<String>, String>,
    past_deadline: bool,
)
    requires
        is_wait_step(r, outcome, past_deadline),
    ensures
        r is Finish <==> (outcome matches Ok(c) && c is Some),
        r matches WaitStep::Finish(c) ==> outcome == Ok::<Option<String>, String>(Some(c)),
        !(r is Finish) ==> (r is TimedOut <==> past_deadline),
        r matches WaitStep::Again(note) ==> (note is Some <==> outcome is Err),
{
}

// ── Receipts ──────────────────────────────────────────────────────────────────

/// An argument that holds `BEGIN` is the key itself, any other names the file of the key.
pub proof fn law_keys_are_given_or_named(v: String)
    ensures
        key_source(None) is Bundled,
        (exists|j: int| occurs_at(v@, j, "BEGIN"@)) ==> key_source(Some(v))
            == KeyArgument::Inline(v),
        (forall|j: int| !occurs_at(v@, j, "BEGIN"@)) ==> key_source(Some(v)) == KeyArgument::File(
            v,
        ),
{
    crate::laws::texts::law_find(v@, 0, "BEGIN"@);
    if exists|j: int| occurs_at(v@, j, "BEGIN"@) {
        let j = choose|j: int| occurs_at(v@, j, "BEGIN"@);
        assert(0 <= j);
    }
    if crate::text::find_seq(v@, 0, "BEGIN"@) is Some {
        let p = crate::text::find_seq(v@, 0, "BEGIN"@)->Some_0;
        assert(occurs_at(v@, p, "BEGIN"@));
    }
}

/// A file gives all its receipts, in order; one without any, or that cannot be read, is an
/// error of usage.
pub proof fn law_files_give_all_their_receipts(path: Seq<char>, read: ReceiptFile, k: int)
    ensures
        loaded(path, read) is Ok <==> (read matches ReceiptFile::Parsed(rs) && rs@.len() > 0),
        loaded(path, read) matches Err(s) ==> s.code == 2,
        read matches ReceiptFile::Parsed(rs) ==> (loaded(path, read) matches Ok(out) ==> out.len()
            == rs@.len() && (0 <= k < rs@.len() ==> out[k] == rs@[k]@)),
{
}

// ── What is said ──────────────────────────────────────────────────────────────

/// A run that was waved through ends with success, and says loudly that nothing was checked,
/// why, and where that is recorded.
pub proof fn law_waved_runs_say_so(reason: Seq<char>, at: Seq<char>)
    ensures
        with_record(reason, Some(at)).action == ActionView::Exit(0),
        with_record(reason, None).action == ActionView::Exit(0),
        with_record(reason, Some(at)).say == seq![
            LineView::Stderr(
                "⚠ DEGRADED: backend unreachable; proceeding due to --allow-degraded (reason: "@
                    + reason + "). The SQL was NOT checked."@ + (" Recorded locally at "@ + at
                    + "."@)
                    + " Archive this record as a CI artifact — server-side reconciliation is not yet available (see DESIGN §6.5)."@,
            ),
        ],
{
}

/// The note on receipts says how many were written and where, or that there are none.
pub proof fn law_receipts_are_noted(n: nat, path: Seq<char>)
    ensures
        n > 0 ==> receipts_note(n, path) == "note: wrote "@ + decimal(n) + " signed receipt"@ + (
        if n == 1 {
            ""@
        } else {
            "s"@
        }) + " to "@ + path + ". Verify with `vericto verify-receipt "@ + path + "`."@,
{
}

/// A baseline is noted where it covers findings and where some of its entries match none.
pub proof fn law_baselines_are_noted(covers: nat, stale: nat, path: Seq<char>)
    ensures
        baseline_notes(covers, stale, path).len() == (if covers > 0 {
            1int
        } else {
            0int
        }) + (if stale > 0 {
            1int
        } else {
            0int
        }),
        covers > 0 ==> baseline_notes(covers, stale, path)[0] == LineView::Stderr(
            "note: "@ + decimal(covers) + " finding(s) suppressed by baseline "@ + path + "."@,
        ),
        stale > 0 ==> baseline_notes(covers, stale, path).last() == LineView::Stderr(
            "note: "@ + decimal(stale)
                + " baseline entr(y/ies) no longer match — consider re-running `vericto baseline`."@,
        ),
{
}

/// Without keys the list says so.
pub proof fn law_empty_key_lists_say_so(keys: Seq<ApiKeyInfo>)
    ensures
        keys.len() == 0 ==> keys_shown(keys) == "No API keys found for this workspace.\n"@,
        keys.len() > 0 ==> keys_shown(keys) == keys_report(keys),
{
}

/// Errors go to standard error, behind a word that says so.
pub proof fn law_errors_are_said_to_be_errors(code: u8, message: Seq<char>)
    ensures
        error_stop(code, message).code == code,
        error_stop(code, message).line == LineView::Stderr("error: "@ + message),
{
}

// ── Results ───────────────────────────────────────────────────────────────────

/// A response fails where one of its results has a status that the threshold takes in.
pub proof fn law_responses_fail_with_one_result(qs: Seq<QueryResult>, fail_on: FailOn)
    ensures
        any_fails(qs, fail_on) <==> exists|k: int|
            0 <= k < qs.len() && fails((#[trigger] qs[k]).status@, fail_on),
{
    if any_fails(qs, fail_on) {
        let k = choose|k: int|
            0 <= k < qs.len() && crate::check::status_fails((#[trigger] qs[k]).status@, fail_on);
        assert(fails(qs[k].status@, fail_on));
    }
    if exists|k: int| 0 <= k < qs.len() && fails((#[trigger] qs[k]).status@, fail_on) {
        let k = choose|k: int| 0 <= k < qs.len() && fails((#[trigger] qs[k]).status@, fail_on);
        assert(crate::check::status_fails(qs[k].status@, fail_on));
    }
}

/// A result is covered by a baseline where it is a finding with one of its fingerprints; what
/// is allowed never is.
pub proof fn law_findings_are_covered_by_fingerprint(
    q: QueryResult,
    files: Seq<String>,
    baselined: Set<Seq<char>>,
)
    ensures
        is_covered(q, files, baselined) <==> q.status@ != "ALLOWED"@ && baselined.contains(
            print_of(q, files),
        ),
{
    crate::laws::baselines::law_findings_are_known_by_rule_file_and_path(q, files);
}

// ── Documentation ─────────────────────────────────────────────────────────────

/// An address as the text that is clicked on.
pub open spec fn clickable(url: Seq<char>, shown: Seq<char>, linkify: bool) -> Seq<char> {
    if linkify {
        "\x1b]8;;"@ + url + "\x1b\\"@ + shown + "\x1b]8;;\x1b\\"@
    } else {
        shown
    }
}

/// A topic in the list: its name and what it is about, and below the address of its page.
pub open spec fn topic_lines(base: Seq<char>, r: DocRow, width: nat, linkify: bool) -> Seq<char> {
    let url = base + "/"@ + r.slug@;
    let gap = if byte_len(r.slug@) < width {
        width - byte_len(r.slug@)
    } else {
        0
    };
    "    "@ + clickable(url, r.slug@, linkify) + Seq::new(gap as nat, |i: int| ' ') + "  "@
        + r.blurb@ + "\n"@ + "    "@ + Seq::new(width, |i: int| ' ') + "  "@ + styled(
        TextStyle { color: None, bold: false, dimmed: true },
        "↳ "@ + clickable(url, url, linkify),
    ) + "\n\n"@
}

/// Every topic stands in the list, in order, under the heading of its category wherever that
/// changes.
pub proof fn law_topic_lists_hold_every_topic(
    base: Seq<char>,
    rows: Seq<DocRow>,
    width: nat,
    linkify: bool,
)
    requires
        rows.len() > 0,
    ensures
        ({
            let r = rows.last();
            let before = rows.drop_last();
            let changes = if before.len() == 0 {
                r.category@ != ""@
            } else {
                r.category@ != before.last().category@
            };
            doc_blocks(base, rows, width, linkify) == doc_blocks(base, before, width, linkify) + ((
            if changes {
                "\n  "@ + styled(
                    TextStyle { color: None, bold: true, dimmed: false },
                    r.category@,
                ) + "\n\n"@
            } else {
                Seq::<char>::empty()
            }) + topic_lines(base, r, width, linkify))
        }),
{
    let r = rows.last();
    let gap = if byte_len(r.slug@) < width {
        width - byte_len(r.slug@)
    } else {
        0
    };
    if gap == 0 {
        assert(Seq::new(0nat, |i: int| ' ') =~= Seq::<char>::empty());
    }
    assert(doc_block(base, r, width, linkify) == topic_lines(base, r, width, linkify));
}

/// A part of a rule that is shown only where there is one.
pub open spec fn where_there(o: Option<String>, f: spec_fn(Seq<char>) -> Seq<char>) -> Seq<char> {
    match o {
        Some(s) => f(s@),
        None => Seq::<char>::empty(),
    }
}

proof fn lemma_indented(ls: Seq<Seq<char>>)
    ensures
        crate::output::indented(ls) == ls.map_values(
            |l: Seq<char>| "    "@ + l + "\n"@,
        ).flatten(),
    decreases ls.len(),
{
    let f = |l: Seq<char>| "    "@ + l + "\n"@;
    if ls.len() > 0 {
        let rest = ls.drop_last();
        lemma_indented(rest);
        rest.map_values(f).lemma_flatten_push(f(ls.last()));
        assert(ls.map_values(f) =~= rest.map_values(f).push(f(ls.last())));
    }
}

/// A rule is shown with all there is of it: its head, its description, its condition line by
/// line, its examples, and the version of the rules.
pub proof fn law_rules_are_shown_whole(r: crate::api::RuleDetail)
    ensures
        rule_report(r) == r.code@ + " — "@ + r.name@ + "\n  severity: "@ + styled(
            crate::laws::commands::look_of(r.severity@),
            r.severity@,
        ) + "    action: "@ + r.resolved_action@ + "    type: "@ + r.rule_type@ + "    dialect: "@
            + r.dialect@ + "    "@ + (if r.is_active {
            "active"@
        } else {
            "inactive"@
        }) + "\n"@ + where_there(
            r.description,
            |d: Seq<char>|
                if d.len() > 0 {
                    "\n  "@ + d + "\n"@
                } else {
                    Seq::<char>::empty()
                },
        ) + where_there(
            r.ast_condition_yaml,
            |y: Seq<char>|
                "\n  condition:\n"@ + lines(y).map_values(
                    |l: Seq<char>| "    "@ + l + "\n"@,
                ).flatten(),
        ) + (if r.example_bad is None && r.example_good is None {
            Seq::<char>::empty()
        } else {
            "\n  examples:\n"@ + where_there(
                r.example_bad,
                |sql: Seq<char>|
                    "    "@ + styled(
                        TextStyle { color: Some(Color::Red), bold: false, dimmed: false },
                        "✗ triggers:"@,
                    ) + " "@ + sql + "\n"@,
            ) + where_there(
                r.example_good,
                |sql: Seq<char>|
                    "    "@ + styled(
                        TextStyle { color: Some(Color::Green), bold: false, dimmed: false },
                        "✓ safe:"@,
                    ) + "     "@ + sql + "\n"@,
            )
        }) + ("\n"@ + styled(
            TextStyle { color: None, bold: false, dimmed: true },
            "ruleset "@ + r.ruleset_version@,
        ) + "\n"@),
{
    if r.ast_condition_yaml is Some {
        lemma_indented(lines(r.ast_condition_yaml->Some_0@));
    }
    crate::laws::commands::lemma_look(r.severity@);
}

} // verus!
