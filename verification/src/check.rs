//! The decisions of a check: which files, which queries, what is sent, what a failure
//! means, and what the verdict is. Files, processes and requests are the caller's; each
//! function takes what came of them and says what follows.
use vstd::prelude::*;
use crate::api::{error_text, outcome_view, provenance_view, ApiError, ApiErrorView, CheckResponse, Provenance, ProvenanceView, QueryInput, QueryResult, WorkspaceConfig};
use crate::auth::{exit_code_of, failure_code};
use crate::baseline::{drifted, entry_fingerprints, finding_fingerprints, fingerprint_in, inline_suppression, is_baselined, stale, suppression, Baseline, FingerprintSet};
use crate::ci_env::{changed_files, changed_sql_files, CommandOutput};
use crate::config::{Config, ProjectConfig};
use crate::exit::{dealt_with, error_stop, line_views, stop_view, stop_with, Line, LineView, Stop, StopView, AUTH, BACKEND, FINDING, OK, USAGE};
use crate::json::{field, field_views, json_compact, json_compact_text, json_null, json_number, json_object, json_opt, json_text, json_texts, json_view, number, object, signed_decimal, signed_text, text_or_null, JsonView};
use crate::output::{file_for, finding, findings, fingerprint, is_finding, source_of};
use crate::sanitize::{law_sanitized_hides_literals, masked, sanitize, sanitized, tokens};
use crate::text::{decimal, decimal_text, first_text, from_chars, lines, lower_chars, lowered, nonblank, nonblank_lines, opt_is, opt_view, same_text, str_or, text_or, text_views, to_chars, trim, trimmed};

verus! {

// ── Settings ──────────────────────────────────────────────────────────────────

/// Which findings fail a run.
#[derive(Clone, Copy, Debug, PartialEq, Eq, Structural)]
pub enum FailOn {
    /// Blocked ones.
    Block,
    /// Blocked and flagged ones.
    Flag,
    /// Blocked, flagged and monitored ones.
    Any,
}

/// The threshold of a run: the flag, else what the project file names, else blocked
/// findings. A name that is not known is passed over.
pub open spec fn threshold(flag: Option<FailOn>, project: Option<Seq<char>>) -> FailOn {
    match flag {
        Some(f) => f,
        None => match project {
            Some(s) => {
                let name = lowered(trim(s));
                if name == "block"@ {
                    FailOn::Block
                } else if name == "flag"@ {
                    FailOn::Flag
                } else if name == "any"@ {
                    FailOn::Any
                } else {
                    FailOn::Block
                }
            },
            None => FailOn::Block,
        },
    }
}

pub fn resolve_fail_on(flag: Option<FailOn>, project: Option<&str>) -> (r: FailOn)
    ensures
        r == threshold(flag, crate::api::opt_str_view(project)),
{
    if let Some(f) = flag {
        return f;
    }
    match project {
        Some(s) => {
            let cs = to_chars(trimmed(s).as_str());
            let name = from_chars(lower_chars(cs.as_slice()).as_slice());
            if same_text(name.as_str(), "block") {
                FailOn::Block
            } else if same_text(name.as_str(), "flag") {
                FailOn::Flag
            } else if same_text(name.as_str(), "any") {
                FailOn::Any
            } else {
                FailOn::Block
            }
        },
        None => FailOn::Block,
    }
}

/// The dialect of a run: flag, project file, user's config, `postgres`.
pub open spec fn dialect_of(flag: Option<String>, project: ProjectConfig, file: Config) -> Seq<char> {
    text_or(
        flag,
        text_or(project.default_dialect, text_or(file.default_dialect, "postgres"@)),
    )
}

pub fn resolve_dialect(flag: &Option<String>, project: &ProjectConfig, file: &Config) -> (r: String)
    ensures
        r@ == dialect_of(*flag, *project, *file),
{
    str_or(
        flag,
        str_or(&project.default_dialect, str_or(&file.default_dialect, "postgres")),
    ).to_owned()
}

/// The baseline that follows from flag and project file.
pub open spec fn baseline_of(flag: Option<String>, project: ProjectConfig) -> Option<Seq<char>> {
    first_text(opt_view(flag), opt_view(project.baseline))
}

/// The baseline of a run: flag, project file.
pub fn resolve_baseline(flag: &Option<String>, project: &ProjectConfig) -> (r: Option<String>)
    ensures
        opt_view(r) == baseline_of(*flag, *project),
{
    if flag.is_some() {
        crate::text::copy_text(flag)
    } else {
        crate::text::copy_text(&project.baseline)
    }
}

/// The number of requests in flight that follows from a flag.
pub open spec fn concurrency_of(flag: Option<usize>) -> int {
    match flag {
        None => 4,
        Some(n) => if n < 1 {
            1
        } else if n > 8 {
            8
        } else {
            n as int
        },
    }
}

/// The number of requests in flight: four by default, at least one, at most eight.
pub fn resolve_concurrency(flag: Option<usize>) -> (r: usize)
    ensures
        1 <= r <= 8,
        r == concurrency_of(flag),
{
    match flag {
        None => 4,
        Some(n) => if n < 1 {
            1
        } else if n > 8 {
            8
        } else {
            n
        },
    }
}

/// Whether `r` is how requests are sent.
pub open spec fn is_transport(
    r: crate::api::Transport,
    timeout_secs: Option<u64>,
    ca_bundle: Option<String>,
    ssl_cert_file: Option<String>,
) -> bool {
    &&& r.timeout_secs == (match timeout_secs {
        Some(n) => n,
        None => crate::api::DEFAULT_TIMEOUT_SECS,
    })
    &&& r.ca_bundle == (if ca_bundle is Some {
        ca_bundle
    } else {
        ssl_cert_file
    })
}

/// How requests are sent: the given timeout, else the default; the given CA bundle, else
/// the one that `SSL_CERT_FILE` names.
pub fn resolve_transport(
    timeout_secs: Option<u64>,
    ca_bundle: Option<String>,
    ssl_cert_file: Option<String>,
) -> (r: crate::api::Transport)
    ensures
        is_transport(r, timeout_secs, ca_bundle, ssl_cert_file),
{
    crate::api::Transport {
        timeout_secs: match timeout_secs {
            Some(n) => n,
            None => crate::api::DEFAULT_TIMEOUT_SECS,
        },
        ca_bundle: if ca_bundle.is_some() {
            ca_bundle
        } else {
            ssl_cert_file
        },
    }
}

// ── Files ─────────────────────────────────────────────────────────────────────

/// Where the list of files comes from.
#[derive(Debug)]
pub enum FilePlan {
    /// From the command line.
    Given,
    /// From standard input, one per line.
    ReadList,
    /// From the diff against a ref.
    Diff(String),
    /// The selection makes no sense.
    Usage(String),
}

pub enum FilePlanView {
    Given,
    ReadList,
    Diff(Seq<char>),
    Usage(Seq<char>),
}

impl View for FilePlan {
    type V = FilePlanView;

    open spec fn view(&self) -> FilePlanView {
        match self {
            FilePlan::Given => FilePlanView::Given,
            FilePlan::ReadList => FilePlanView::ReadList,
            FilePlan::Diff(b) => FilePlanView::Diff(b@),
            FilePlan::Usage(m) => FilePlanView::Usage(m@),
        }
    }
}

/// Where the list of files comes from: the three ways to name files exclude each other,
/// and a diff needs a ref to compare with.
pub open spec fn file_plan(
    given: nat,
    changed: bool,
    since: Option<Seq<char>>,
    stdin_file_list: bool,
    detected_base: Option<Seq<char>>,
) -> FilePlanView {
    if stdin_file_list {
        if given > 0 || changed || since is Some {
            FilePlanView::Usage(
                "--stdin-file-list can't be combined with files or --changed/--since."@,
            )
        } else {
            FilePlanView::ReadList
        }
    } else if changed || since is Some {
        if given > 0 {
            FilePlanView::Usage("pass files OR --changed/--since, not both."@)
        } else {
            match first_text(since, detected_base) {
                Some(base) => FilePlanView::Diff(base),
                None => FilePlanView::Usage(
                    "could not determine a base ref for --changed. Pass --since <ref> (e.g. --since origin/main)."@,
                ),
            }
        }
    } else if given == 0 {
        FilePlanView::Usage("no files given. Pass SQL files, '-' for stdin, or --changed."@)
    } else {
        FilePlanView::Given
    }
}

/// Decides where the list of files comes from.
pub fn resolve_files(
    files: &[String],
    changed: bool,
    since: &Option<String>,
    stdin_file_list: bool,
    detected_base: Option<String>,
) -> (r: FilePlan)
    ensures
        r@ == file_plan(
            files@.len(),
            changed,
            opt_view(*since),
            stdin_file_list,
            opt_view(detected_base),
        ),
{
    if stdin_file_list {
        if files.len() > 0 || changed || since.is_some() {
            return FilePlan::Usage(
                "--stdin-file-list can't be combined with files or --changed/--since.".to_owned(),
            );
        }
        return FilePlan::ReadList;
    }
    if changed || since.is_some() {
        if files.len() > 0 {
            return FilePlan::Usage("pass files OR --changed/--since, not both.".to_owned());
        }
        if let Some(base) = since {
            return FilePlan::Diff(base.clone());
        }
        return match detected_base {
            Some(base) => FilePlan::Diff(base),
            None => FilePlan::Usage(
                "could not determine a base ref for --changed. Pass --since <ref> (e.g. --since origin/main).".to_owned(),
            ),
        };
    }
    if files.len() == 0 {
        FilePlan::Usage(
            "no files given. Pass SQL files, '-' for stdin, or --changed.".to_owned(),
        )
    } else {
        FilePlan::Given
    }
}

/// What came of finding the files of a run.
#[derive(Debug)]
pub enum FileResolution {
    Files(Vec<String>),
    /// There is nothing to check, which is a success.
    EmptyDiff(String),
    Usage(String),
}

pub enum FileResolutionView {
    Files(Seq<Seq<char>>),
    EmptyDiff(Seq<char>),
    Usage(Seq<char>),
}

impl View for FileResolution {
    type V = FileResolutionView;

    open spec fn view(&self) -> FileResolutionView {
        match self {
            FileResolution::Files(f) => FileResolutionView::Files(text_views(f@)),
            FileResolution::EmptyDiff(m) => FileResolutionView::EmptyDiff(m@),
            FileResolution::Usage(m) => FileResolutionView::Usage(m@),
        }
    }
}

pub open spec fn text_result(r: Result<String, String>) -> Result<Seq<char>, Seq<char>> {
    match r {
        Ok(s) => Ok(s@),
        Err(e) => Err(e@),
    }
}

/// The files that a list on standard input names.
pub open spec fn listed(read: Result<Seq<char>, Seq<char>>) -> FileResolutionView {
    match read {
        Err(e) => FileResolutionView::Usage("could not read file list from stdin: "@ + e),
        Ok(text) => if nonblank(lines(text)).len() == 0 {
            FileResolutionView::EmptyDiff("No files on stdin — nothing to check."@)
        } else {
            FileResolutionView::Files(nonblank(lines(text)))
        },
    }
}

/// Reads the list of files from standard input.
pub fn on_file_list(read: Result<String, String>) -> (r: FileResolution)
    ensures
        r@ == listed(text_result(read)),
{
    match read {
        Err(e) => FileResolution::Usage(
            "could not read file list from stdin: ".to_owned().concat(e.as_str()),
        ),
        Ok(text) => {
            let files = nonblank_lines(text.as_str());
            assert(text_views(files@).len() == files@.len());
            if files.len() == 0 {
                FileResolution::EmptyDiff("No files on stdin — nothing to check.".to_owned())
            } else {
                FileResolution::Files(files)
            }
        },
    }
}

/// The files that a diff names.
pub open spec fn diffed(base: Seq<char>, names: Result<Seq<Seq<char>>, Seq<char>>) -> FileResolutionView {
    match names {
        Err(e) => FileResolutionView::Usage(e),
        Ok(files) => if files.len() == 0 {
            FileResolutionView::EmptyDiff(
                "No changed .sql files vs "@ + base + " — nothing to check."@,
            )
        } else {
            FileResolutionView::Files(files)
        },
    }
}

/// Reads the list of files from a diff.
pub fn on_diff(base: &str, run: &Result<CommandOutput, String>) -> (r: FileResolution)
    ensures
        r@ == diffed(base@, changed_files(base@, *run)),
{
    match changed_sql_files(base, run) {
        Err(e) => FileResolution::Usage(e),
        Ok(files) => {
            assert(text_views(files@).len() == files@.len());
            if files.len() == 0 {
                let mut message = "No changed .sql files vs ".to_owned();
                message.append(base);
                message.append(" — nothing to check.");
                FileResolution::EmptyDiff(message)
            } else {
                FileResolution::Files(files)
            }
        },
    }
}

/// The files of a run, or its end: an empty diff is a success, a selection that makes no
/// sense is an error of usage.
pub open spec fn files_or_stop(r: FileResolutionView) -> Result<Seq<Seq<char>>, StopView> {
    match r {
        FileResolutionView::Files(f) => Ok(f),
        FileResolutionView::EmptyDiff(m) => Err(StopView { code: OK, line: LineView::Stdout(m) }),
        FileResolutionView::Usage(m) => Err(error_stop(USAGE, m)),
    }
}

pub open spec fn files_view(r: Result<Vec<String>, Stop>) -> Result<Seq<Seq<char>>, StopView> {
    match r {
        Ok(f) => Ok(text_views(f@)),
        Err(s) => Err(s@),
    }
}

pub fn files_of(r: FileResolution) -> (out: Result<Vec<String>, Stop>)
    ensures
        files_view(out) == files_or_stop(r@),
{
    match r {
        FileResolution::Files(f) => Ok(f),
        FileResolution::EmptyDiff(m) => Err(Stop { code: OK, line: Line::Stdout(m) }),
        FileResolution::Usage(m) => Err(stop_with(USAGE, m.as_str())),
    }
}

/// Why SQL on the command line cannot be combined with files, if it cannot.
pub fn inline_conflict(
    sql: &[String],
    files: &[String],
    changed: bool,
    since: &Option<String>,
    stdin_file_list: bool,
) -> (r: Option<Stop>)
    ensures
        match r {
            Some(s) => sql@.len() > 0 && (files@.len() > 0 || changed || since is Some
                || stdin_file_list) && s@ == error_stop(
                USAGE,
                "--sql can't be combined with files, --changed/--since or --stdin-file-list."@,
            ),
            None => sql@.len() == 0 || (files@.len() == 0 && !changed && since is None
                && !stdin_file_list),
        },
{
    if sql.len() > 0 && (files.len() > 0 || changed || since.is_some() || stdin_file_list) {
        Some(
            stop_with(
                USAGE,
                "--sql can't be combined with files, --changed/--since or --stdin-file-list.",
            ),
        )
    } else {
        None
    }
}

// ── Queries ───────────────────────────────────────────────────────────────────

/// What a query holds.
pub struct QueryView {
    pub line: u32,
    pub sql: Seq<char>,
}

impl View for QueryInput {
    type V = QueryView;

    open spec fn view(&self) -> QueryView {
        QueryView { line: self.line, sql: self.sql@ }
    }
}

pub open spec fn query_views(qs: Seq<QueryInput>) -> Seq<QueryView> {
    qs.map_values(|q: QueryInput| q@)
}

/// The queries of the first `n` sources: each source whole, at its 1-based position,
/// blank ones left out. The first source that could not be read ends the run.
pub open spec fn gathered(
    files: Seq<String>,
    sources: Seq<Result<String, String>>,
    n: nat,
) -> Result<Seq<QueryView>, Seq<char>>
    decreases n,
{
    if n == 0 {
        Ok(seq![])
    } else {
        match gathered(files, sources, (n - 1) as nat) {
            Err(e) => Err(e),
            Ok(qs) => match sources[n - 1] {
                Err(e) => Err("cannot read '"@ + files[n - 1]@ + "': "@ + e@),
                Ok(sql) => if trim(sql@).len() == 0 {
                    Ok(qs)
                } else {
                    Ok(qs.push(QueryView { line: n as u32, sql: sql@ }))
                },
            },
        }
    }
}

pub open spec fn queries_result(r: Result<Vec<QueryInput>, Stop>) -> Result<
    Seq<QueryView>,
    StopView,
> {
    match r {
        Ok(qs) => Ok(query_views(qs@)),
        Err(s) => Err(s@),
    }
}

/// The queries of a run, or its end where a source could not be read.
pub open spec fn queries_or_stop(r: Result<Seq<QueryView>, Seq<char>>) -> Result<
    Seq<QueryView>,
    StopView,
> {
    match r {
        Ok(qs) => Ok(qs),
        Err(e) => Err(error_stop(USAGE, e)),
    }
}

proof fn lemma_gathered_stays_failed(
    files: Seq<String>,
    sources: Seq<Result<String, String>>,
    n: nat,
    m: nat,
)
    requires
        n <= m,
        gathered(files, sources, n) is Err,
    ensures
        gathered(files, sources, m) == gathered(files, sources, n),
    decreases m,
{
    if n < m {
        lemma_gathered_stays_failed(files, sources, n, (m - 1) as nat);
    }
}

/// No file is left out in silence: where the sources of a run could be gathered there is
/// one for each file, and each that is not blank is a query under its place in the list.
pub proof fn law_every_source_is_checked(
    files: Seq<String>,
    sources: Seq<Result<String, String>>,
    k: int,
)
    requires
        dealt_with(sources, files.len()),
        gathered(files, sources, sources.len()) is Ok,
        0 <= k < files.len(),
    ensures
        sources.len() == files.len(),
        sources[k] matches Ok(sql) && (trim(sql@).len() > 0 ==> gathered(
            files,
            sources,
            sources.len(),
        )->Ok_0.contains(QueryView { line: (k + 1) as u32, sql: sql@ })),
{
    if sources.len() < files.len() {
        assert(sources[sources.len() - 1] is Err);
    }
    lemma_gathered_holds(files, sources, sources.len(), k);
}

proof fn lemma_gathered_holds(
    files: Seq<String>,
    sources: Seq<Result<String, String>>,
    n: nat,
    k: int,
)
    requires
        0 <= k < n <= sources.len(),
        gathered(files, sources, n) is Ok,
    ensures
        sources[k] matches Ok(sql) && (trim(sql@).len() > 0 ==> gathered(
            files,
            sources,
            n,
        )->Ok_0.contains(QueryView { line: (k + 1) as u32, sql: sql@ })),
    decreases n,
{
    let before = gathered(files, sources, (n - 1) as nat)->Ok_0;
    let all = gathered(files, sources, n)->Ok_0;
    if k < n - 1 {
        lemma_gathered_holds(files, sources, (n - 1) as nat, k);
        let q = QueryView { line: (k + 1) as u32, sql: sources[k]->Ok_0@ };
        if before.contains(q) {
            let i = choose|i: int| 0 <= i < before.len() && before[i] == q;
            assert(all[i] == q);
        }
    } else if trim(sources[k]->Ok_0@).len() > 0 {
        assert(all.last() == (QueryView { line: n as u32, sql: sources[k]->Ok_0@ }));
        assert(all[all.len() - 1] == all.last());
    }
}

/// Makes one query of each source, given what came of reading the files in order, up to
/// the first that could not be read.
pub fn collect_queries(files: &[String], sources: Vec<Result<String, String>>) -> (r: Result<
    Vec<QueryInput>,
    Stop,
>)
    requires
        dealt_with(sources@, files@.len()),
    ensures
        queries_result(r) == queries_or_stop(gathered(files@, sources@, sources@.len())),
{
    let ghost all = sources@;
    let n: usize = files.len();
    let mut out: Vec<QueryInput> = Vec::new();
    let mut i: usize = 0;
    assert(query_views(out@) =~= seq![]);
    for source in it: sources.into_iter()
        invariant
            it.seq() == all,
            i == it.index(),
            all.len() <= n == files@.len(),
            gathered(files@, all, i as nat) == Ok::<Seq<QueryView>, Seq<char>>(query_views(out@)),
    {
        assert(all[i as int] == source);
        match source {
            Ok(sql) => {
                let ghost so_far = out@;
                if trimmed(sql.as_str()).as_str().unicode_len() > 0 {
                    out.push(QueryInput { line: (i + 1) as u32, sql });
                    assert(query_views(out@) =~= query_views(so_far).push(
                        QueryView { line: (i + 1) as u32, sql: sql@ },
                    ));
                }
            },
            Err(e) => {
                let mut message = "cannot read '".to_owned();
                message.append(files[i].as_str());
                message.append("': ");
                message.append(e.as_str());
                proof {
                    lemma_gathered_stays_failed(files@, all, (i + 1) as nat, all.len());
                }
                return Err(stop_with(USAGE, message.as_str()));
            },
        }
        i = i + 1;
    }
    Ok(out)
}

/// The name that a request carries: that of the only file, unless it is standard input.
pub fn single_file_name(files: &[String]) -> (r: Option<String>)
    ensures
        opt_view(r) == (if files@.len() == 1 && files@[0]@ != "-"@ {
            Some(files@[0]@)
        } else {
            None
        }),
{
    if files.len() == 1 && !same_text(files[0].as_str(), "-") {
        Some(files[0].clone())
    } else {
        None
    }
}

// ── Before sending ────────────────────────────────────────────────────────────

/// The queries with their literals replaced.
pub open spec fn sanitized_queries(qs: Seq<QueryView>, dialect: Seq<char>) -> Seq<QueryView> {
    qs.map_values(|q: QueryView| QueryView { line: q.line, sql: sanitized(q.sql, dialect) })
}

/// What is sent, and what is said before, given the workspace's settings. In sanitized
/// mode every literal is replaced first. A key that is refused ends the run; settings
/// that cannot be read do not, but are noted.
pub open spec fn preflight(
    qs: Seq<QueryView>,
    dialect: Seq<char>,
    reply: Result<WorkspaceConfig, ApiErrorView>,
) -> Result<(Seq<QueryView>, Option<Seq<char>>), StopView> {
    match reply {
        Ok(cfg) => if opt_view(cfg.telemetry_query_mode) == Some("sanitized"@) {
            Ok(
                (
                    sanitized_queries(qs, dialect),
                    Some(
                        "note: workspace is in sanitized mode — literals normalized before sending."@,
                    ),
                ),
            )
        } else {
            Ok((qs, None))
        },
        Err(e) => if e is Auth {
            Err(error_stop(AUTH, error_text(e)))
        } else {
            Ok(
                (
                    qs,
                    Some(
                        "note: could not read workspace config; proceeding without client-side sanitization."@,
                    ),
                ),
            )
        },
    }
}

pub open spec fn preflight_result(r: Result<(Vec<QueryInput>, Option<String>), Stop>) -> Result<
    (Seq<QueryView>, Option<Seq<char>>),
    StopView,
> {
    match r {
        Ok((qs, note)) => Ok((query_views(qs@), opt_view(note))),
        Err(s) => Err(s@),
    }
}

fn sanitize_queries(queries: Vec<QueryInput>, dialect: &str) -> (r: Vec<QueryInput>)
    ensures
        query_views(r@) == sanitized_queries(query_views(queries@), dialect@),
{
    let ghost all = queries@;
    let mut out: Vec<QueryInput> = Vec::new();
    for q in it: queries.into_iter()
        invariant
            it.seq() == all,
            out@.len() == it.index(),
            forall|k: int|
                0 <= k < out@.len() ==> (#[trigger] out@[k])@ == (QueryView {
                    line: all[k].line,
                    sql: sanitized(all[k].sql@, dialect@),
                }),
    {
        out.push(QueryInput { line: q.line, sql: sanitize(q.sql.as_str(), dialect) });
    }
    assert(query_views(out@) =~= sanitized_queries(query_views(all), dialect@));
    out
}

/// Prepares the queries for sending, given the workspace's settings.
pub fn on_workspace(
    queries: Vec<QueryInput>,
    dialect: &str,
    reply: Result<WorkspaceConfig, ApiError>,
) -> (r: Result<(Vec<QueryInput>, Option<String>), Stop>)
    ensures
        preflight_result(r) == preflight(query_views(queries@), dialect@, outcome_view(reply)),
{
    match reply {
        Ok(cfg) => if opt_is(&cfg.telemetry_query_mode, "sanitized") {
            Ok(
                (
                    sanitize_queries(queries, dialect),
                    Some(
                        "note: workspace is in sanitized mode — literals normalized before sending.".to_owned(),
                    ),
                ),
            )
        } else {
            Ok((queries, None))
        },
        Err(e) => match &e {
            ApiError::Auth(_) => Err(stop_with(AUTH, e.message().as_str())),
            _ => Ok(
                (
                    queries,
                    Some(
                        "note: could not read workspace config; proceeding without client-side sanitization.".to_owned(),
                    ),
                ),
            ),
        },
    }
}

/// In a workspace in sanitized mode no literal leaves the machine: what is sent for each
/// query is its sanitized form, and two runs whose queries differ only in the contents of
/// their literals send the same.
pub proof fn law_sanitized_mode_sends_no_literals(
    a: Seq<QueryView>,
    b: Seq<QueryView>,
    dialect: Seq<char>,
    cfg: WorkspaceConfig,
)
    requires
        opt_view(cfg.telemetry_query_mode) == Some("sanitized"@),
        a.len() == b.len(),
        forall|k: int|
            0 <= k < a.len() ==> (#[trigger] a[k]).line == b[k].line && masked(
                tokens(a[k].sql),
            ) == masked(tokens(b[k].sql)),
    ensures
        preflight(a, dialect, Ok(cfg)) matches Ok((sent, _)) && sent == sanitized_queries(
            a,
            dialect,
        ),
        preflight(a, dialect, Ok(cfg)) == preflight(b, dialect, Ok(cfg)),
{
    assert forall|k: int| 0 <= k < a.len() implies sanitized_queries(a, dialect)[k]
        == sanitized_queries(b, dialect)[k] by {
        assert(a[k].line == b[k].line);
        law_sanitized_hides_literals(a[k].sql, b[k].sql, dialect);
    }
    assert(sanitized_queries(a, dialect) =~= sanitized_queries(b, dialect));
}

// ── When the call fails ───────────────────────────────────────────────────────

/// What follows a check that failed.
#[derive(Debug)]
pub enum FailureStep {
    /// The run is waved through: say that the backend was not reached, record the run,
    /// and end with success.
    Degrade { line: Line, reason: String },
    Stop(Stop),
}

pub enum FailureStepView {
    Degrade { line: LineView, reason: Seq<char> },
    Stop(StopView),
}

impl View for FailureStep {
    type V = FailureStepView;

    open spec fn view(&self) -> FailureStepView {
        match self {
            FailureStep::Degrade { line, reason } => FailureStepView::Degrade {
                line: line@,
                reason: reason@,
            },
            FailureStep::Stop(s) => FailureStepView::Stop(s@),
        }
    }
}

/// What follows a check that failed. Only where the backend was never reached, and only
/// with a reason, may a run be waved through; everything else fails closed.
pub open spec fn after_failure(e: ApiErrorView, allow_degraded: Option<Seq<char>>) -> FailureStepView {
    if e is Transport && allow_degraded is Some {
        let reason = trim(allow_degraded->Some_0);
        if reason.len() == 0 {
            FailureStepView::Stop(error_stop(USAGE, "--allow-degraded requires a reason."@))
        } else {
            FailureStepView::Degrade {
                line: LineView::Stderr("error: "@ + error_text(e)),
                reason,
            }
        }
    } else {
        FailureStepView::Stop(error_stop(failure_code(e), error_text(e)))
    }
}

/// Decides what follows a check that failed.
pub fn on_failure(e: &ApiError, allow_degraded: &Option<String>) -> (r: FailureStep)
    ensures
        r@ == after_failure(e@, opt_view(*allow_degraded)),
{
    if let ApiError::Transport(_) = e {
        if let Some(given) = allow_degraded {
            let reason = trimmed(given.as_str());
            if reason.as_str().unicode_len() == 0 {
                return FailureStep::Stop(stop_with(USAGE, "--allow-degraded requires a reason."));
            }
            return FailureStep::Degrade {
                line: Line::Stderr("error: ".to_owned().concat(e.message().as_str())),
                reason,
            };
        }
    }
    FailureStep::Stop(stop_with(exit_code_of(e), e.message().as_str()))
}

/// The bypass covers one thing alone: a backend that could not be reached, with a reason
/// given. A refusal, a backend error and a run that was checked in part never end in
/// success.
pub proof fn law_degraded_runs_only_without_a_backend(
    e: ApiErrorView,
    allow_degraded: Option<Seq<char>>,
)
    ensures
        after_failure(e, allow_degraded) is Degrade <==> e is Transport && allow_degraded is Some
            && trim(allow_degraded->Some_0).len() > 0,
        after_failure(e, allow_degraded) matches FailureStepView::Stop(s) ==> s.code != OK
            && s.code != FINDING,
        e is PartialFailure || e is Backend ==> after_failure(e, allow_degraded)
            == FailureStepView::Stop(error_stop(BACKEND, error_text(e))),
        e is Auth ==> after_failure(e, allow_degraded) == FailureStepView::Stop(
            error_stop(AUTH, error_text(e)),
        ),
{
}

pub open spec fn provenance_doc(p: Option<ProvenanceView>) -> JsonView {
    match p {
        Some(v) => object(
            seq![
                ("git_sha"@, text_or_null(v.git_sha)),
                ("git_ref"@, text_or_null(v.git_ref)),
                ("ci_provider"@, JsonView::Text(v.ci_provider)),
                ("ci_run_url"@, text_or_null(v.ci_run_url)),
                ("actor"@, text_or_null(v.actor)),
            ],
        ),
        None => JsonView::Null,
    }
}

/// The record of a run that was waved through: when, why, what was not checked, and
/// where it came from.
pub open spec fn degraded_doc(
    unix_time: int,
    reason: Seq<char>,
    files: Seq<String>,
    provenance: Option<ProvenanceView>,
) -> JsonView {
    object(
        seq![
            ("kind"@, JsonView::Text("vericto-degraded-run"@)),
            ("version"@, number(1)),
            ("unix_time"@, number(unix_time)),
            ("reason"@, JsonView::Text(reason)),
            ("files"@, JsonView::Array(files.map_values(|s: String| JsonView::Text(s@)))),
            ("provenance"@, provenance_doc(provenance)),
        ],
    )
}

fn provenance_value(p: &Option<Provenance>) -> (r: serde_json::Value)
    ensures
        json_view(r) == provenance_doc(provenance_view(*p)),
{
    match p {
        Some(v) => {
            let fields = vec![
                field("git_sha", json_opt(&v.git_sha)),
                field("git_ref", json_opt(&v.git_ref)),
                field("ci_provider", json_text(v.ci_provider.as_str())),
                field("ci_run_url", json_opt(&v.ci_run_url)),
                field("actor", json_opt(&v.actor)),
            ];
            assert(field_views(fields@) =~= seq![
                ("git_sha"@, text_or_null(opt_view(v.git_sha))),
                ("git_ref"@, text_or_null(opt_view(v.git_ref))),
                ("ci_provider"@, JsonView::Text(v.ci_provider@)),
                ("ci_run_url"@, text_or_null(opt_view(v.ci_run_url))),
                ("actor"@, text_or_null(opt_view(v.actor))),
            ]);
            json_object(fields)
        },
        None => json_null(),
    }
}

/// The line that records a run that was waved through.
pub fn degraded_record(
    unix_time: i64,
    reason: &str,
    files: &[String],
    provenance: &Option<Provenance>,
) -> (r: String)
    ensures
        r@ == json_compact_text(
            degraded_doc(unix_time as int, reason@, files@, provenance_view(*provenance)),
        ) + "\n"@,
{
    let fields = vec![
        field("kind", json_text("vericto-degraded-run")),
        field("version", json_number(1)),
        field("unix_time", json_number(unix_time)),
        field("reason", json_text(reason)),
        field("files", json_texts(files)),
        field("provenance", provenance_value(provenance)),
    ];
    assert(field_views(fields@) =~= seq![
        ("kind"@, JsonView::Text("vericto-degraded-run"@)),
        ("version"@, number(1)),
        ("unix_time"@, number(unix_time as int)),
        ("reason"@, JsonView::Text(reason@)),
        ("files"@, JsonView::Array(files@.map_values(|s: String| JsonView::Text(s@)))),
        ("provenance"@, provenance_doc(provenance_view(*provenance))),
    ]);
    let mut line = json_compact(&json_object(fields));
    line.append("\n");
    line
}

/// What is said about a run that was waved through.
pub open spec fn degraded_notice_of(reason: Seq<char>, recorded_at: Option<Seq<char>>) -> Seq<char> {
    "⚠ DEGRADED: backend unreachable; proceeding due to --allow-degraded (reason: "@ + reason
        + "). The SQL was NOT checked."@ + (match recorded_at {
        Some(p) => " Recorded locally at "@ + p + "."@,
        None => seq![],
    })
        + " Archive this record as a CI artifact — server-side reconciliation is not yet available (see DESIGN §6.5)."@
}

/// What is said about a run that was waved through; `recorded_at` is where it was
/// recorded, if it could be.
pub fn degraded_notice(reason: &str, recorded_at: Option<&str>) -> (r: String)
    ensures
        r@ == degraded_notice_of(reason@, crate::api::opt_str_view(recorded_at)),
{
    let place = match recorded_at {
        Some(p) => {
            let mut text = " Recorded locally at ".to_owned();
            text.append(p);
            text.append(".");
            text
        },
        None => String::new(),
    };
    let mut out =
        "⚠ DEGRADED: backend unreachable; proceeding due to --allow-degraded (reason: ".to_owned();
    out.append(reason);
    out.append("). The SQL was NOT checked.");
    out.append(place.as_str());
    out.append(
        " Archive this record as a CI artifact — server-side reconciliation is not yet available (see DESIGN §6.5).",
    );
    out
}

// ── After the response ────────────────────────────────────────────────────────

/// What is said about the receipts that a run asked for: that there are none, or how
/// many were written.
pub open spec fn receipts_note(n: nat, path: Seq<char>) -> Seq<char> {
    if n == 0 {
        "warning: --receipt requested but the backend returned no receipt (signing may not be configured on this deployment). No file written."@
    } else {
        "note: wrote "@ + decimal(n) + " signed receipt"@ + (if n == 1 {
            ""@
        } else {
            "s"@
        }) + " to "@ + path + ". Verify with `vericto verify-receipt "@ + path + "`."@
    }
}

/// Says what became of the receipts of a run. `written` is what came of writing them,
/// which is only tried where there are any.
pub fn on_receipts(n: usize, path: &str, written: Result<(), String>) -> (r: Result<String, Stop>)
    ensures
        match r {
            Ok(note) => (n == 0 || written is Ok) && note@ == receipts_note(n as nat, path@),
            Err(s) => written matches Err(e) && n > 0 && s@ == error_stop(
                USAGE,
                "could not write receipt to "@ + path@ + ": "@ + e@,
            ),
        },
{
    if n == 0 {
        return Ok(
            "warning: --receipt requested but the backend returned no receipt (signing may not be configured on this deployment). No file written.".to_owned(),
        );
    }
    match written {
        Ok(_) => {
            let mut note = "note: wrote ".to_owned();
            note.append(decimal_text(n as u128).as_str());
            note.append(" signed receipt");
            note.append(
                if n == 1 {
                    ""
                } else {
                    "s"
                },
            );
            note.append(" to ");
            note.append(path);
            note.append(". Verify with `vericto verify-receipt ");
            note.append(path);
            note.append("`.");
            Ok(note)
        },
        Err(e) => {
            let mut message = "could not write receipt to ".to_owned();
            message.append(path);
            message.append(": ");
            message.append(e.as_str());
            Err(stop_with(USAGE, message.as_str()))
        },
    }
}

/// Says what became of the report: nothing, unless it could not be written.
pub fn on_report(written: Result<(), String>) -> (r: Result<(), Stop>)
    ensures
        stop_view(r) == (match written {
            Ok(_) => Ok::<(), StopView>(()),
            Err(e) => Err(error_stop(USAGE, "could not write output: "@ + e@)),
        }),
{
    match written {
        Ok(_) => Ok(()),
        Err(e) => Err(
            stop_with(
                USAGE,
                "could not write output: ".to_owned().concat(e.as_str()).as_str(),
            ),
        ),
    }
}

/// The number of checks left at which a run says so.
pub const LOW_QUOTA: i64 = 50;

/// The note for a plan whose checks run low.
pub open spec fn quota_note_of(remaining: Option<i64>) -> Option<Seq<char>> {
    match remaining {
        Some(n) => if n <= LOW_QUOTA {
            Some(
                "note: "@ + signed_decimal(n as int)
                    + " CLI checks left this month on your plan. Upgrade at https://vericto.com/pricing for more."@,
            )
        } else {
            None
        },
        None => None,
    }
}

pub fn quota_note(remaining: Option<i64>) -> (r: Option<String>)
    ensures
        opt_view(r) == quota_note_of(remaining),
{
    match remaining {
        Some(n) => if n <= LOW_QUOTA {
            let mut note = "note: ".to_owned();
            note.append(signed_text(n).as_str());
            note.append(
                " CLI checks left this month on your plan. Upgrade at https://vericto.com/pricing for more.",
            );
            Some(note)
        } else {
            None
        },
        None => None,
    }
}

// ── Suppression ───────────────────────────────────────────────────────────────

/// A source file as it was read again; no text where it could not be.
#[derive(Debug)]
pub struct SourceText {
    pub path: String,
    pub text: Option<String>,
}

/// The text of a source file.
pub open spec fn source_text(sources: Seq<SourceText>, path: Seq<char>) -> Option<Seq<char>>
    decreases sources.len(),
{
    if sources.len() == 0 {
        None
    } else if sources[0].path@ == path {
        opt_view(sources[0].text)
    } else {
        source_text(sources.drop_first(), path)
    }
}

fn find_source<'a>(sources: &'a [SourceText], path: &str) -> (r: Option<&'a str>)
    ensures
        crate::api::opt_str_view(r) == source_text(sources@, path@),
{
    let mut i: usize = 0;
    assert(sources@.skip(0) =~= sources@);
    while i < sources.len()
        invariant
            i <= sources@.len(),
            source_text(sources@, path@) == source_text(sources@.skip(i as int), path@),
        decreases sources@.len() - i,
    {
        if same_text(sources[i].path.as_str(), path) {
            return crate::text::opt_str(&sources[i].text);
        }
        assert(sources@.skip(i as int).drop_first() =~= sources@.skip(i + 1));
        i = i + 1;
    }
    None
}

/// The sources to read again for inline suppressions: those of the findings that name a
/// rule. Standard input cannot be read again.
pub open spec fn reread_paths(fs: Seq<QueryResult>, files: Seq<String>) -> Seq<Seq<char>>
    decreases fs.len(),
{
    if fs.len() == 0 {
        seq![]
    } else {
        let rest = reread_paths(fs.drop_last(), files);
        let path = source_of(files, fs.last().line);
        if fs.last().rule_code is Some && path != "<stdin>"@ {
            rest.push(path)
        } else {
            rest
        }
    }
}

pub fn paths_to_reread(resp: &CheckResponse, files: &[String]) -> (r: Vec<String>)
    ensures
        text_views(r@) == reread_paths(findings(resp.queries@), files@),
{
    let ghost qs = resp.queries@;
    let mut out: Vec<String> = Vec::new();
    let mut i: usize = 0;
    assert(text_views(out@) =~= seq![]);
    while i < resp.queries.len()
        invariant
            qs == resp.queries@,
            i <= qs.len(),
            text_views(out@) == reread_paths(findings(qs.take(i as int)), files@),
        decreases qs.len() - i,
    {
        let q = &resp.queries[i];
        let ghost fs = findings(qs.take(i as int));
        assert(qs.take(i + 1).drop_last() =~= qs.take(i as int));
        if is_finding(q) {
            assert(fs.push(*q).drop_last() =~= fs);
            let path = file_for(files, q.line);
            let ghost so_far = out@;
            if q.rule_code.is_some() && !same_text(path.as_str(), "<stdin>") {
                out.push(path);
                assert(text_views(out@) =~= text_views(so_far).push(path@));
            }
        }
        i = i + 1;
    }
    assert(qs.take(i as int) =~= qs);
    out
}

/// The reason for which a finding's source ignores its rule.
pub open spec fn inline_reason(
    q: QueryResult,
    files: Seq<String>,
    sources: Seq<SourceText>,
) -> Option<Seq<char>> {
    match q.rule_code {
        Some(rule) => {
            let path = source_of(files, q.line);
            if path == "<stdin>"@ {
                None
            } else {
                match source_text(sources, path) {
                    Some(sql) => suppression(sql, rule@),
                    None => None,
                }
            }
        },
        None => None,
    }
}

/// The fingerprints that a baseline covers; none without a baseline.
pub open spec fn covered(baseline: Option<Baseline>) -> Set<Seq<char>> {
    match baseline {
        Some(b) => entry_fingerprints(b.entries@),
        None => Set::empty(),
    }
}

/// The fingerprints that do not fail a run: those of findings that the baseline covers
/// or that their source ignores.
pub open spec fn suppressed(
    fs: Seq<QueryResult>,
    files: Seq<String>,
    baselined: Set<Seq<char>>,
    sources: Seq<SourceText>,
) -> Set<Seq<char>>
    decreases fs.len(),
{
    if fs.len() == 0 {
        Set::empty()
    } else {
        let rest = suppressed(fs.drop_last(), files, baselined, sources);
        let fp = fingerprint_in(fs.last(), files);
        if baselined.contains(fp) || inline_reason(fs.last(), files, sources) is Some {
            rest.insert(fp)
        } else {
            rest
        }
    }
}

/// How many findings a baseline covers.
pub open spec fn covered_count(
    fs: Seq<QueryResult>,
    files: Seq<String>,
    baselined: Set<Seq<char>>,
) -> nat
    decreases fs.len(),
{
    if fs.len() == 0 {
        0
    } else {
        covered_count(fs.drop_last(), files, baselined) + (if baselined.contains(
            fingerprint_in(fs.last(), files),
        ) {
            1nat
        } else {
            0nat
        })
    }
}

/// What is said about the findings that their source ignores.
pub open spec fn inline_notes(
    fs: Seq<QueryResult>,
    files: Seq<String>,
    sources: Seq<SourceText>,
) -> Seq<LineView>
    decreases fs.len(),
{
    if fs.len() == 0 {
        seq![]
    } else {
        let rest = inline_notes(fs.drop_last(), files, sources);
        let q = fs.last();
        match inline_reason(q, files, sources) {
            Some(reason) => rest.push(
                LineView::Stderr(
                    "note: "@ + source_of(files, q.line) + ": "@ + text_or(q.rule_code, ""@)
                        + " suppressed inline — "@ + reason,
                ),
            ),
            None => rest,
        }
    }
}

/// What is said about a baseline: how many findings it covers, and how many of its
/// entries are stale.
pub open spec fn baseline_notes(covers: nat, stale_entries: nat, path: Seq<char>) -> Seq<LineView> {
    (if covers > 0 {
        seq![
            LineView::Stderr(
                "note: "@ + decimal(covers) + " finding(s) suppressed by baseline "@ + path + "."@,
            ),
        ]
    } else {
        seq![]
    }) + (if stale_entries > 0 {
        seq![
            LineView::Stderr(
                "note: "@ + decimal(stale_entries)
                    + " baseline entr(y/ies) no longer match — consider re-running `vericto baseline`."@,
            ),
        ]
    } else {
        seq![]
    })
}

pub open spec fn suppression_notes(
    fs: Seq<QueryResult>,
    files: Seq<String>,
    baseline: Option<Baseline>,
    path: Seq<char>,
    sources: Seq<SourceText>,
) -> Seq<LineView> {
    (match baseline {
        Some(b) => baseline_notes(
            covered_count(fs, files, entry_fingerprints(b.entries@)),
            stale(b.entries@, finding_fingerprints(fs, files)).len(),
            path,
        ),
        None => seq![],
    }) + inline_notes(fs, files, sources)
}

/// The findings that do not fail a run, and what is said about them.
#[derive(Debug)]
pub struct Suppressions {
    pub fingerprints: FingerprintSet,
    pub notes: Vec<Line>,
}

fn baseline_note_lines(covers: usize, stale_entries: usize, path: &str) -> (r: Vec<Line>)
    ensures
        line_views(r@) == baseline_notes(covers as nat, stale_entries as nat, path@),
{
    let mut out: Vec<Line> = Vec::new();
    if covers > 0 {
        let mut note = "note: ".to_owned();
        note.append(decimal_text(covers as u128).as_str());
        note.append(" finding(s) suppressed by baseline ");
        note.append(path);
        note.append(".");
        out.push(Line::Stderr(note));
    }
    if stale_entries > 0 {
        let mut note = "note: ".to_owned();
        note.append(decimal_text(stale_entries as u128).as_str());
        note.append(
            " baseline entr(y/ies) no longer match — consider re-running `vericto baseline`.",
        );
        out.push(Line::Stderr(note));
    }
    assert(line_views(out@) =~= baseline_notes(covers as nat, stale_entries as nat, path@));
    out
}

fn find_inline_reason<'a>(q: &QueryResult, path: &str, sources: &'a [SourceText]) -> (r: Option<
    &'a str,
>)
    ensures
        forall|files: Seq<String>|
            source_of(files, q.line) == path@ ==> crate::api::opt_str_view(r)
                == #[trigger] inline_reason(*q, files, sources@),
{
    match &q.rule_code {
        Some(rule) => {
            if same_text(path, "<stdin>") {
                return None;
            }
            match find_source(sources, path) {
                Some(sql) => inline_suppression(sql, rule.as_str()),
                None => None,
            }
        },
        None => None,
    }
}

/// Collects the fingerprints that do not fail a run: those of findings that the baseline
/// covers, and of findings whose source, as it was read again, ignores their rule.
pub fn suppressed_fingerprints(
    resp: &CheckResponse,
    files: &[String],
    baseline: &Option<Baseline>,
    baseline_path: &str,
    sources: &[SourceText],
) -> (r: Suppressions)
    ensures
        r.fingerprints@ == suppressed(
            findings(resp.queries@),
            files@,
            covered(*baseline),
            sources@,
        ),
        line_views(r.notes@) == suppression_notes(
            findings(resp.queries@),
            files@,
            *baseline,
            baseline_path@,
            sources@,
        ),
{
    let ghost qs = resp.queries@;
    let baselined = match baseline {
        Some(b) => b.set(),
        None => FingerprintSet::new(),
    };
    let mut fingerprints = FingerprintSet::new();
    let mut inline: Vec<Line> = Vec::new();
    let mut covers: usize = 0;
    let mut i: usize = 0;
    assert(line_views(inline@) =~= seq![]);
    while i < resp.queries.len()
        invariant
            qs == resp.queries@,
            i <= qs.len(),
            covers <= i,
            baselined@ == covered(*baseline),
            fingerprints@ == suppressed(
                findings(qs.take(i as int)),
                files@,
                covered(*baseline),
                sources@,
            ),
            covers == covered_count(findings(qs.take(i as int)), files@, covered(*baseline)),
            line_views(inline@) == inline_notes(findings(qs.take(i as int)), files@, sources@),
        decreases qs.len() - i,
    {
        let q = &resp.queries[i];
        let ghost fs = findings(qs.take(i as int));
        assert(qs.take(i + 1).drop_last() =~= qs.take(i as int));
        if is_finding(q) {
            assert(fs.push(*q).drop_last() =~= fs);
            let path = file_for(files, q.line);
            let fp = fingerprint(q, path.as_str());
            let known = is_baselined(q, files, &baselined);
            if known {
                covers = covers + 1;
            }
            let reason = find_inline_reason(q, path.as_str(), sources);
            let ghost so_far = inline@;
            if let Some(why) = reason {
                let mut note = "note: ".to_owned();
                note.append(path.as_str());
                note.append(": ");
                note.append(str_or(&q.rule_code, ""));
                note.append(" suppressed inline — ");
                note.append(why);
                inline.push(Line::Stderr(note));
                assert(line_views(inline@) =~= line_views(so_far).push(LineView::Stderr(note@)));
            }
            if known || reason.is_some() {
                fingerprints.insert(fp);
            }
        }
        i = i + 1;
    }
    assert(qs.take(i as int) =~= qs);
    let mut notes: Vec<Line> = Vec::new();
    if let Some(b) = baseline {
        let drift = drifted(b, resp, files);
        assert(crate::baseline::referred(drift@).len() == drift@.len());
        notes = baseline_note_lines(covers, drift.len(), baseline_path);
    } else {
        assert(line_views(notes@) =~= seq![]);
    }
    let ghost head = notes@;
    let ghost tail = inline@;
    notes.append(&mut inline);
    assert(line_views(notes@) =~= line_views(head) + line_views(tail));
    Suppressions { fingerprints, notes }
}

/// What a baseline file is to a run: the baseline, or the end of the run.
pub fn on_baseline(read: Result<Baseline, String>) -> (r: Result<Baseline, Stop>)
    ensures
        stop_view(r) == (match read {
            Ok(b) => Ok::<Baseline, StopView>(b),
            Err(e) => Err(error_stop(USAGE, e@)),
        }),
{
    match read {
        Ok(b) => Ok(b),
        Err(e) => Err(stop_with(USAGE, e.as_str())),
    }
}

// ── Verdict ───────────────────────────────────────────────────────────────────

/// Whether a status is at or above the threshold.
pub open spec fn status_fails(status: Seq<char>, fail_on: FailOn) -> bool {
    match fail_on {
        FailOn::Block => status == "BLOCKED"@,
        FailOn::Flag => status == "BLOCKED"@ || status == "FLAGGED"@,
        FailOn::Any => status == "BLOCKED"@ || status == "FLAGGED"@ || status == "MONITORED"@,
    }
}

pub fn finding_fails(q: &QueryResult, fail_on: FailOn) -> (r: bool)
    ensures
        r == status_fails(q.status@, fail_on),
{
    let s = q.status.as_str();
    match fail_on {
        FailOn::Block => same_text(s, "BLOCKED"),
        FailOn::Flag => same_text(s, "BLOCKED") || same_text(s, "FLAGGED"),
        FailOn::Any => same_text(s, "BLOCKED") || same_text(s, "FLAGGED") || same_text(
            s,
            "MONITORED",
        ),
    }
}

/// Whether some of the results are at or above the threshold.
pub open spec fn any_fails(qs: Seq<QueryResult>, fail_on: FailOn) -> bool {
    exists|k: int| 0 <= k < qs.len() && status_fails((#[trigger] qs[k]).status@, fail_on)
}

/// Whether a response holds any result at or above the threshold, suppressed or not.
pub fn has_failure(resp: &CheckResponse, fail_on: FailOn) -> (r: bool)
    ensures
        r == any_fails(resp.queries@, fail_on),
{
    let mut i: usize = 0;
    while i < resp.queries.len()
        invariant
            i <= resp.queries@.len(),
            forall|k: int|
                0 <= k < i ==> !status_fails((#[trigger] resp.queries@[k]).status@, fail_on),
        decreases resp.queries@.len() - i,
    {
        if finding_fails(&resp.queries[i], fail_on) {
            return true;
        }
        i = i + 1;
    }
    false
}

/// The results that fail a run, in order.
pub open spec fn failing_of(
    qs: Seq<QueryResult>,
    files: Seq<String>,
    suppressed: Set<Seq<char>>,
    fail_on: FailOn,
) -> Seq<QueryResult>
    decreases qs.len(),
{
    if qs.len() == 0 {
        seq![]
    } else {
        let rest = failing_of(qs.drop_last(), files, suppressed, fail_on);
        if !suppressed.contains(fingerprint_in(qs.last(), files)) && status_fails(
            qs.last().status@,
            fail_on,
        ) {
            rest.push(qs.last())
        } else {
            rest
        }
    }
}

pub open spec fn results_at(rs: Seq<&QueryResult>) -> Seq<QueryResult> {
    rs.map_values(|q: &QueryResult| *q)
}

/// The results that fail a run.
pub fn failing<'a>(
    resp: &'a CheckResponse,
    files: &[String],
    suppressed: &FingerprintSet,
    fail_on: FailOn,
) -> (r: Vec<&'a QueryResult>)
    ensures
        results_at(r@) == failing_of(resp.queries@, files@, suppressed@, fail_on),
{
    let ghost qs = resp.queries@;
    let mut out: Vec<&'a QueryResult> = Vec::new();
    let mut i: usize = 0;
    assert(results_at(out@) =~= seq![]);
    while i < resp.queries.len()
        invariant
            qs == resp.queries@,
            i <= qs.len(),
            results_at(out@) == failing_of(qs.take(i as int), files@, suppressed@, fail_on),
        decreases qs.len() - i,
    {
        let q = &resp.queries[i];
        assert(qs.take(i + 1).drop_last() =~= qs.take(i as int));
        let fp = fingerprint(q, file_for(files, q.line).as_str());
        let ghost so_far = out@;
        if !suppressed.contains(fp.as_str()) && finding_fails(q, fail_on) {
            out.push(q);
            assert(results_at(out@) =~= results_at(so_far).push(*q));
        }
        i = i + 1;
    }
    assert(qs.take(i as int) =~= qs);
    out
}

/// The exit code of a run that has been checked. A monitoring run never fails on
/// findings.
pub open spec fn verdict_code(monitor: bool, failing: nat) -> u8 {
    if !monitor && failing > 0 {
        FINDING
    } else {
        OK
    }
}

pub fn verdict(monitor: bool, failing: usize) -> (r: u8)
    ensures
        r == verdict_code(monitor, failing as nat),
{
    if !monitor && failing > 0 {
        FINDING
    } else {
        OK
    }
}

/// A lower threshold fails whatever a higher one fails, and no threshold fails a result
/// that is allowed.
pub proof fn law_thresholds_widen(status: Seq<char>)
    ensures
        status_fails(status, FailOn::Block) ==> status_fails(status, FailOn::Flag),
        status_fails(status, FailOn::Flag) ==> status_fails(status, FailOn::Any),
        status_fails(status, FailOn::Any) ==> status != "ALLOWED"@,
{
    reveal_strlit("ALLOWED");
    reveal_strlit("BLOCKED");
    reveal_strlit("FLAGGED");
    reveal_strlit("MONITORED");
    assert("ALLOWED"@[0] != "BLOCKED"@[0]);
    assert("ALLOWED"@[0] != "FLAGGED"@[0]);
    assert("ALLOWED"@[0] != "MONITORED"@[0]);
}

/// The results that fail a run are those at or above the threshold whose fingerprint is
/// not suppressed, and no others.
pub proof fn law_failing_results(
    qs: Seq<QueryResult>,
    files: Seq<String>,
    suppressed: Set<Seq<char>>,
    fail_on: FailOn,
    q: QueryResult,
)
    ensures
        failing_of(qs, files, suppressed, fail_on).contains(q) <==> qs.contains(q)
            && !suppressed.contains(fingerprint_in(q, files)) && status_fails(q.status@, fail_on),
    decreases qs.len(),
{
    if qs.len() > 0 {
        let rest = failing_of(qs.drop_last(), files, suppressed, fail_on);
        law_failing_results(qs.drop_last(), files, suppressed, fail_on, q);
        assert(qs =~= qs.drop_last().push(qs.last()));
        assert(qs.contains(q) <==> qs.drop_last().contains(q) || q == qs.last()) by {
            if qs.drop_last().contains(q) {
                let i = choose|i: int| 0 <= i < qs.drop_last().len() && qs.drop_last()[i] == q;
                assert(qs[i] == q);
            }
            if q == qs.last() {
                assert(qs[qs.len() - 1] == q);
            }
            if qs.contains(q) && q != qs.last() {
                let i = choose|i: int| 0 <= i < qs.len() && qs[i] == q;
                assert(qs.drop_last()[i] == q);
            }
        }
        let more = rest.push(qs.last());
        assert(more.contains(q) <==> rest.contains(q) || q == qs.last()) by {
            if rest.contains(q) {
                let i = choose|i: int| 0 <= i < rest.len() && rest[i] == q;
                assert(more[i] == q);
            }
            if q == qs.last() {
                assert(more[rest.len() as int] == q);
            }
            if more.contains(q) && q != qs.last() {
                let i = choose|i: int| 0 <= i < more.len() && more[i] == q;
                assert(rest[i] == q);
            }
        }
    }
}

/// A fingerprint is suppressed exactly where some finding has it that the baseline covers
/// or that its source ignores.
pub proof fn law_suppressed_fingerprints(
    fs: Seq<QueryResult>,
    files: Seq<String>,
    baselined: Set<Seq<char>>,
    sources: Seq<SourceText>,
    fp: Seq<char>,
)
    ensures
        suppressed(fs, files, baselined, sources).contains(fp) <==> exists|i: int|
            0 <= i < fs.len() && fingerprint_in(#[trigger] fs[i], files) == fp && (
            baselined.contains(fp) || inline_reason(fs[i], files, sources) is Some),
    decreases fs.len(),
{
    if fs.len() > 0 {
        let rest = fs.drop_last();
        law_suppressed_fingerprints(rest, files, baselined, sources, fp);
        if suppressed(rest, files, baselined, sources).contains(fp) {
            let i = choose|i: int|
                0 <= i < rest.len() && fingerprint_in(#[trigger] rest[i], files) == fp && (
                baselined.contains(fp) || inline_reason(rest[i], files, sources) is Some);
            assert(fs[i] == rest[i]);
        }
        if suppressed(fs, files, baselined, sources).contains(fp) && !suppressed(
            rest,
            files,
            baselined,
            sources,
        ).contains(fp) {
            assert(fingerprint_in(fs[fs.len() - 1], files) == fp);
        }
        if exists|i: int|
            0 <= i < fs.len() && fingerprint_in(#[trigger] fs[i], files) == fp && (
            baselined.contains(fp) || inline_reason(fs[i], files, sources) is Some) {
            let i = choose|i: int|
                0 <= i < fs.len() && fingerprint_in(#[trigger] fs[i], files) == fp && (
                baselined.contains(fp) || inline_reason(fs[i], files, sources) is Some);
            if i < rest.len() {
                assert(rest[i] == fs[i]);
            }
        }
    }
}

} // verus!
