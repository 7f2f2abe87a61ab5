//! The check API: request and response data, the errors a call can end in, and the
//! rules for retrying, chunking and merging calls. Sending is left to the caller:
//! each function here takes what came back and says what it means.
use vstd::prelude::*;
use vstd::arithmetic::power2::pow2;
use crate::json::{as_text, json_as_str, json_copy, json_get, json_parse, json_parsed, json_view, member, JsonView};
use crate::text::{copy_text, decimal, decimal_text, opt_view, parse_number, parsed_number, slice_text, to_chars, trim, trim_span, trimmed};

verus! {

// ── Data ──────────────────────────────────────────────────────────────────────

/// One SQL unit to evaluate. A file is sent whole as one item; `line` is its 1-based
/// position among the inputs.
#[derive(Debug)]
pub struct QueryInput {
    pub line: u32,
    pub sql: String,
}

/// CI run provenance, attached to every request.
#[derive(Debug)]
pub struct Provenance {
    pub git_sha: Option<String>,
    pub git_ref: Option<String>,
    pub ci_provider: String,
    pub ci_run_url: Option<String>,
    pub actor: Option<String>,
}

/// Request body of a check.
#[derive(Debug)]
pub struct CheckRequest {
    pub queries: Vec<QueryInput>,
    pub dialect: String,
    pub file_name: Option<String>,
    /// Reports are formatted on the client, so this is always `json`.
    pub output_format: String,
    pub provenance: Option<Provenance>,
    /// Ask for a signed run receipt.
    pub receipt: bool,
}

/// A signed run receipt: self-contained, offline-verifiable evidence of a check.
#[derive(Debug)]
pub struct Receipt {
    /// The exact object that was signed.
    pub payload: serde_json::Value,
    /// Signature scheme identifier.
    pub scheme: String,
    /// Base64 signature over the digest of the canonical payload.
    pub signature: String,
    /// Which published key signed this.
    pub public_key_id: String,
    /// Hex digest of the canonical payload.
    pub sha256: String,
}

/// Per-query verdict in the response. `status` is one of `BLOCKED`, `ALLOWED`,
/// `FLAGGED`, `MONITORED` and `PARSE_ERROR`.
#[derive(Debug)]
pub struct QueryResult {
    pub line: u32,
    pub sql_preview: String,
    pub status: String,
    pub action: Option<String>,
    pub rule_code: Option<String>,
    pub ast_node_path: Option<String>,
    pub severity: Option<String>,
    pub suggested_fix: Option<String>,
}

/// Aggregate counts of a run.
#[derive(Debug)]
pub struct Summary {
    pub total: u32,
    pub blocked: u32,
    pub allowed: u32,
    pub flagged: u32,
    pub monitored: u32,
    pub parse_errors: u32,
    pub ruleset_version: String,
}

/// Response body of a check.
#[derive(Debug)]
pub struct CheckResponse {
    pub summary: Summary,
    pub queries: Vec<QueryResult>,
    /// 1 if at least one query was blocked.
    pub exit_code: i32,
    /// Checks left this month; absent for an unmetered plan.
    pub ci_checks_remaining: Option<i64>,
    /// Workspace telemetry query mode, `raw` or `sanitized`.
    pub telemetry_query_mode: Option<String>,
    /// Oldest client version that the backend still speaks to.
    pub min_cli_version: Option<String>,
    pub receipt: Option<Receipt>,
    /// The receipts of a chunked run, one per chunk that returned one.
    pub merged_receipts: Vec<Receipt>,
    /// The API version that the response header named.
    pub api_version_header: Option<String>,
}

/// Response body of the version endpoint.
#[derive(Debug)]
pub struct VersionInfo {
    pub api_version: Option<String>,
    pub min_cli_version: Option<String>,
}

/// Response body of the identity-token exchange. The key lives in memory only.
#[derive(Debug)]
pub struct OidcExchangeResult {
    pub api_key: String,
    pub expires_at: Option<String>,
    pub scope: Option<String>,
    pub policy_id: Option<String>,
}

/// The workspace settings that are read before any SQL is sent.
#[derive(Debug)]
pub struct WorkspaceConfig {
    pub telemetry_query_mode: Option<String>,
    pub plan: Option<String>,
    pub ci_checks_remaining: Option<i64>,
    pub ruleset_version: Option<String>,
}

/// One rule of the workspace's effective catalogue.
#[derive(Debug)]
pub struct RuleSummary {
    pub code: String,
    pub name: String,
    pub description: Option<String>,
    pub severity: String,
    pub dialect: String,
    pub rule_type: String,
    pub is_active: bool,
    /// What this severity resolves to under the workspace's policy.
    pub resolved_action: String,
}

#[derive(Debug)]
pub struct RulesListResponse {
    pub rules: Vec<RuleSummary>,
    pub ruleset_version: String,
}

/// One rule in full, with the condition that the engine evaluates and samples.
#[derive(Debug)]
pub struct RuleDetail {
    pub code: String,
    pub name: String,
    pub description: Option<String>,
    pub severity: String,
    pub dialect: String,
    pub rule_type: String,
    pub is_active: bool,
    pub resolved_action: String,
    pub ast_condition_yaml: Option<String>,
    pub example_bad: Option<String>,
    pub example_good: Option<String>,
    pub ruleset_version: String,
}

/// One API key of the workspace, without its secret.
#[derive(Debug)]
pub struct ApiKeyInfo {
    pub name: String,
    pub scopes: Vec<String>,
    pub is_active: bool,
    pub is_current: bool,
    pub last_used_at: Option<String>,
}

/// What a receipt holds.
pub struct ReceiptView {
    pub payload: JsonView,
    pub scheme: Seq<char>,
    pub signature: Seq<char>,
    pub public_key_id: Seq<char>,
    pub sha256: Seq<char>,
}

impl View for Receipt {
    type V = ReceiptView;

    open spec fn view(&self) -> ReceiptView {
        ReceiptView {
            payload: json_view(self.payload),
            scheme: self.scheme@,
            signature: self.signature@,
            public_key_id: self.public_key_id@,
            sha256: self.sha256@,
        }
    }
}

impl Clone for Receipt {
    fn clone(&self) -> (r: Receipt)
        ensures
            r@ == self@,
    {
        Receipt {
            payload: json_copy(&self.payload),
            scheme: self.scheme.clone(),
            signature: self.signature.clone(),
            public_key_id: self.public_key_id.clone(),
            sha256: self.sha256.clone(),
        }
    }
}

/// What a provenance record holds.
pub struct ProvenanceView {
    pub git_sha: Option<Seq<char>>,
    pub git_ref: Option<Seq<char>>,
    pub ci_provider: Seq<char>,
    pub ci_run_url: Option<Seq<char>>,
    pub actor: Option<Seq<char>>,
}

impl View for Provenance {
    type V = ProvenanceView;

    open spec fn view(&self) -> ProvenanceView {
        ProvenanceView {
            git_sha: opt_view(self.git_sha),
            git_ref: opt_view(self.git_ref),
            ci_provider: self.ci_provider@,
            ci_run_url: opt_view(self.ci_run_url),
            actor: opt_view(self.actor),
        }
    }
}

impl Clone for Provenance {
    fn clone(&self) -> (r: Provenance)
        ensures
            r@ == self@,
    {
        Provenance {
            git_sha: copy_text(&self.git_sha),
            git_ref: copy_text(&self.git_ref),
            ci_provider: self.ci_provider.clone(),
            ci_run_url: copy_text(&self.ci_run_url),
            actor: copy_text(&self.actor),
        }
    }
}

pub open spec fn provenance_view(p: Option<Provenance>) -> Option<ProvenanceView> {
    match p {
        Some(v) => Some(v@),
        None => None,
    }
}

pub open spec fn receipt_views(rs: Seq<Receipt>) -> Seq<ReceiptView> {
    rs.map_values(|r: Receipt| r@)
}

impl CheckResponse {
    /// The receipts of the run: those of the chunks where there are any, else the one
    /// of a single call.
    pub open spec fn receipts(self) -> Seq<Receipt> {
        if self.merged_receipts@.len() > 0 {
            self.merged_receipts@
        } else {
            match self.receipt {
                Some(r) => seq![r],
                None => seq![],
            }
        }
    }

    /// All receipts of the run; empty when none were issued.
    pub fn all_receipts(&self) -> (r: Vec<Receipt>)
        ensures
            receipt_views(r@) == receipt_views(self.receipts()),
    {
        let mut out: Vec<Receipt> = Vec::new();
        if self.merged_receipts.len() > 0 {
            let mut i: usize = 0;
            while i < self.merged_receipts.len()
                invariant
                    i <= self.merged_receipts@.len(),
                    out@.len() == i,
                    forall|k: int| 0 <= k < i ==> (#[trigger] out@[k])@ == self.merged_receipts@[k]@,
                decreases self.merged_receipts@.len() - i,
            {
                out.push(self.merged_receipts[i].clone());
                i = i + 1;
            }
        } else if let Some(r) = &self.receipt {
            out.push(r.clone());
        }
        assert(receipt_views(out@) =~= receipt_views(self.receipts()));
        out
    }
}

// ── Errors ────────────────────────────────────────────────────────────────────

/// What a call can end in, other than success.
#[derive(Debug)]
pub enum ApiError {
    /// Authentication or entitlement problem.
    Auth(String),
    /// Any other answer that is no success.
    Backend { status: u16, message: String },
    /// No answer at all: the only error that a degraded run may wave through.
    Transport(String),
    /// A chunked run of which a part was evaluated and a part was not. It fails the
    /// run: part of the batch was checked, so the backend was reachable.
    PartialFailure(String),
}

pub enum ApiErrorView {
    Auth(Seq<char>),
    Backend { status: u16, message: Seq<char> },
    Transport(Seq<char>),
    PartialFailure(Seq<char>),
}

impl View for ApiError {
    type V = ApiErrorView;

    open spec fn view(&self) -> ApiErrorView {
        match self {
            ApiError::Auth(m) => ApiErrorView::Auth(m@),
            ApiError::Backend { status, message } => ApiErrorView::Backend {
                status: *status,
                message: message@,
            },
            ApiError::Transport(m) => ApiErrorView::Transport(m@),
            ApiError::PartialFailure(m) => ApiErrorView::PartialFailure(m@),
        }
    }
}

/// The one-line description of an error.
pub open spec fn error_text(e: ApiErrorView) -> Seq<char> {
    match e {
        ApiErrorView::Auth(m) => "authentication/authorization failed: "@ + m,
        ApiErrorView::Backend { status, message } => "backend error ("@ + decimal(status as nat)
            + "): "@ + message,
        ApiErrorView::Transport(m) => "could not reach the Vericto API: "@ + m,
        ApiErrorView::PartialFailure(m) => m,
    }
}

impl ApiError {
    /// The one-line description of the error.
    pub fn message(&self) -> (r: String)
        ensures
            r@ == error_text(self@),
    {
        match self {
            ApiError::Auth(m) => "authentication/authorization failed: ".to_owned().concat(
                m.as_str(),
            ),
            ApiError::Backend { status, message } => {
                let mut out = "backend error (".to_owned();
                out.append(decimal_text(*status as u128).as_str());
                out.append("): ");
                out.append(message.as_str());
                out
            },
            ApiError::Transport(m) => "could not reach the Vericto API: ".to_owned().concat(
                m.as_str(),
            ),
            ApiError::PartialFailure(m) => m.clone(),
        }
    }
}

pub open spec fn is_success(status: u16) -> bool {
    200 <= status <= 299
}

pub open spec fn nested_message(doc: Option<JsonView>) -> Option<Seq<char>> {
    match doc {
        Some(v) => match member(v, "error"@) {
            Some(e) => match member(e, "message"@) {
                Some(m) => as_text(m),
                None => None,
            },
            None => None,
        },
        None => None,
    }
}

pub open spec fn flat_message(doc: Option<JsonView>) -> Option<Seq<char>> {
    match doc {
        Some(v) => match member(v, "error"@) {
            Some(e) => as_text(e),
            None => None,
        },
        None => None,
    }
}

pub open spec fn top_message(doc: Option<JsonView>) -> Option<Seq<char>> {
    match doc {
        Some(v) => match member(v, "message"@) {
            Some(m) => as_text(m),
            None => None,
        },
        None => None,
    }
}

/// The message of an error answer: the nested one, else the flat one, else that at
/// the top level, else the body itself without white space at its ends.
pub open spec fn chosen_message(
    nested: Option<Seq<char>>,
    flat: Option<Seq<char>>,
    top: Option<Seq<char>>,
    body: Seq<char>,
) -> Seq<char> {
    match nested {
        Some(m) => m,
        None => match flat {
            Some(m) => m,
            None => match top {
                Some(m) => m,
                None => trim(body),
            },
        },
    }
}

/// The message of an error answer, given the document that its body reads as.
pub open spec fn message_in(doc: Option<JsonView>, body: Seq<char>) -> Seq<char> {
    chosen_message(nested_message(doc), flat_message(doc), top_message(doc), body)
}

pub open spec fn opt_str_view(o: Option<&str>) -> Option<Seq<char>> {
    match o {
        Some(s) => Some(s@),
        None => None,
    }
}

/// Picks the message of an error answer from the places where it can stand.
pub fn choose_message(
    nested: Option<&str>,
    flat: Option<&str>,
    top: Option<&str>,
    body: &str,
) -> (r: String)
    ensures
        r@ == chosen_message(
            opt_str_view(nested),
            opt_str_view(flat),
            opt_str_view(top),
            body@,
        ),
{
    if let Some(m) = nested {
        m.to_owned()
    } else if let Some(m) = flat {
        m.to_owned()
    } else if let Some(m) = top {
        m.to_owned()
    } else {
        trimmed(body)
    }
}

/// Pulls a human message out of an error body: `{"error": {"message": ..}}`,
/// `{"error": ".."}` or `{"message": ".."}`, else the body as it stands.
pub fn extract_message(body: &str) -> (r: String)
    ensures
        r@ == message_in(json_parsed(body@), body@),
{
    let doc = json_parse(body);
    match &doc {
        Some(v) => {
            let error = json_get(v, "error");
            let nested = match error {
                Some(e) => match json_get(e, "message") {
                    Some(m) => json_as_str(m),
                    None => None,
                },
                None => None,
            };
            let flat = match error {
                Some(e) => json_as_str(e),
                None => None,
            };
            let top = match json_get(v, "message") {
                Some(m) => json_as_str(m),
                None => None,
            };
            choose_message(nested, flat, top, body)
        },
        None => choose_message(None, None, None, body),
    }
}

/// The error that an answer without success means.
pub open spec fn refusal(status: u16, message: Seq<char>) -> ApiErrorView {
    if status == 401 || status == 403 {
        ApiErrorView::Auth(message)
    } else {
        ApiErrorView::Backend { status, message }
    }
}

/// The error that an answer without success means: 401 and 403 are a matter of
/// authentication, everything else is the backend's.
pub fn refuse(status: u16, message: String) -> (r: ApiError)
    ensures
        r@ == refusal(status, message@),
{
    if status == 401 || status == 403 {
        ApiError::Auth(message)
    } else {
        ApiError::Backend { status, message }
    }
}

pub fn success_status(status: u16) -> (r: bool)
    ensures
        r == is_success(status),
{
    200 <= status && status <= 299
}

// ── Answers ───────────────────────────────────────────────────────────────────

/// What came of sending a request: no answer, or a status with its body. `decoded` is
/// the body read as the data that the endpoint returns.
#[derive(Debug)]
pub enum Sent<T> {
    Unreachable(String),
    Answered { status: u16, body: String, decoded: Result<T, String> },
}

pub open spec fn outcome_view<T>(r: Result<T, ApiError>) -> Result<T, ApiErrorView> {
    match r {
        Ok(v) => Ok(v),
        Err(e) => Err(e@),
    }
}

/// The error for an answer whose body does not hold what it should.
pub open spec fn invalid_body(status: u16, what: Seq<char>, reason: Seq<char>) -> ApiErrorView {
    ApiErrorView::Backend { status, message: "invalid "@ + what + ": "@ + reason }
}

/// What an answer means for an endpoint that returns `what`.
pub open spec fn answered<T>(sent: Sent<T>, what: Seq<char>) -> Result<T, ApiErrorView> {
    match sent {
        Sent::Unreachable(e) => Err(ApiErrorView::Transport(e@)),
        Sent::Answered { status, body, decoded } => if is_success(status) {
            match decoded {
                Ok(v) => Ok(v),
                Err(e) => Err(invalid_body(status, what, e@)),
            }
        } else {
            Err(refusal(status, message_in(json_parsed(body@), body@)))
        },
    }
}

fn invalid(status: u16, what: &str, reason: &str) -> (r: ApiError)
    ensures
        r@ == invalid_body(status, what@, reason@),
{
    let mut message = "invalid ".to_owned();
    message.append(what);
    message.append(": ");
    message.append(reason);
    ApiError::Backend { status, message }
}

/// What an answer means for an endpoint that returns `what`.
pub fn answer<T>(sent: Sent<T>, what: &str) -> (r: Result<T, ApiError>)
    ensures
        outcome_view(r) == answered(sent, what@),
{
    match sent {
        Sent::Unreachable(e) => Err(ApiError::Transport(e)),
        Sent::Answered { status, body, decoded } => {
            if success_status(status) {
                match decoded {
                    Ok(v) => Ok(v),
                    Err(e) => Err(invalid(status, what, e.as_str())),
                }
            } else {
                Err(refuse(status, extract_message(body.as_str())))
            }
        },
    }
}

/// What the answer of the version endpoint means.
pub open spec fn version_answered(sent: Sent<VersionInfo>) -> Result<VersionInfo, ApiErrorView> {
    match sent {
        Sent::Answered { status, .. } => if is_success(status) {
            answered(sent, "version body"@)
        } else {
            Err(ApiErrorView::Backend { status, message: "version endpoint unavailable"@ })
        },
        Sent::Unreachable(e) => Err(ApiErrorView::Transport(e@)),
    }
}

/// The answer of the version endpoint. A backend that lacks it answers with its
/// status, which the caller can take as "unknown".
pub fn version(sent: Sent<VersionInfo>) -> (r: Result<VersionInfo, ApiError>)
    ensures
        outcome_view(r) == version_answered(sent),
{
    if let Sent::Answered { status, .. } = &sent {
        if !success_status(*status) {
            return Err(
                ApiError::Backend {
                    status: *status,
                    message: "version endpoint unavailable".to_owned(),
                },
            );
        }
    }
    answer(sent, "version body")
}

/// The answer of the rule catalogue.
pub fn rules_list(sent: Sent<RulesListResponse>) -> (r: Result<RulesListResponse, ApiError>)
    ensures
        outcome_view(r) == answered(sent, "rules list body"@),
{
    answer(sent, "rules list body")
}

/// The answer of one rule's detail. An unknown code is a backend error with its status.
pub fn rules_show(sent: Sent<RuleDetail>) -> (r: Result<RuleDetail, ApiError>)
    ensures
        outcome_view(r) == answered(sent, "rule detail body"@),
{
    answer(sent, "rule detail body")
}

/// What the answer to redeeming a one-time login code means. Only `401` speaks of the
/// code, which is unknown, expired or used; any other refusal is the backend's.
pub open spec fn login_answered(sent: Sent<String>) -> Result<String, ApiErrorView> {
    match sent {
        Sent::Answered { status, body, .. } => if is_success(status) || status == 401 {
            answered(sent, "exchange response"@)
        } else {
            Err(
                ApiErrorView::Backend { status, message: message_in(json_parsed(body@), body@) },
            )
        },
        Sent::Unreachable(_) => answered(sent, "exchange response"@),
    }
}

/// The answer of redeeming a one-time login code: the key that was minted.
pub fn cli_login_exchange(sent: Sent<String>) -> (r: Result<String, ApiError>)
    ensures
        outcome_view(r) == login_answered(sent),
{
    if let Sent::Answered { status, body, .. } = &sent {
        if !success_status(*status) && *status != 401 {
            return Err(
                ApiError::Backend { status: *status, message: extract_message(body.as_str()) },
            );
        }
    }
    answer(sent, "exchange response")
}

/// The answer of exchanging a CI identity token for a short-lived key.
pub fn oidc_exchange(sent: Sent<OidcExchangeResult>) -> (r: Result<OidcExchangeResult, ApiError>)
    ensures
        outcome_view(r) == answered(sent, "oidc-exchange body"@),
{
    answer(sent, "oidc-exchange body")
}

// ── Retrying ──────────────────────────────────────────────────────────────────

/// The default per-request timeout.
pub const DEFAULT_TIMEOUT_SECS: u64 = 30;

/// Retries after the first try of a request that failed for the moment.
pub const MAX_RETRIES: u32 = 3;

/// Milliseconds before the first retry; doubled on each later one.
pub const BACKOFF_BASE: u64 = 500;

/// Upper bound of the milliseconds that are added to a backoff.
pub const BACKOFF_JITTER: u64 = 250;

/// `std::time::SystemTime`, a reading of the wall clock.
#[verifier::external_type_specification]
#[verifier::external_body]
pub struct ExSystemTime(std::time::SystemTime);

/// `SystemTime::now` reads the wall clock; nothing is known of the reading.
pub assume_specification[ std::time::SystemTime::now ]() -> std::time::SystemTime;

/// `Duration::subsec_millis` is the fractional part in whole milliseconds, which is
/// less than one thousand.
pub assume_specification[ std::time::Duration::subsec_millis ](d: &std::time::Duration) -> (r: u32)
    ensures
        r < 1000,
;

/// `SystemTime::duration_since` the Unix epoch; there is none where the clock stands before
/// it. Nothing is known of the duration.
#[verifier::external_body]
fn since_epoch(t: &std::time::SystemTime) -> Option<std::time::Duration> {
    t.duration_since(std::time::UNIX_EPOCH).ok()
}

/// The backoff before retry `attempt`, for a clock that shows `subsec_millis`.
pub open spec fn backoff(attempt: nat, subsec_millis: nat) -> nat {
    BACKOFF_BASE as nat * pow2(attempt) + subsec_millis % (BACKOFF_JITTER as nat)
}

proof fn lemma_pow2_bound(n: nat)
    requires
        n < 32,
    ensures
        0 < pow2(n) <= 0x8000_0000,
{
    vstd::arithmetic::power2::lemma_pow2_pos(n);
    vstd::arithmetic::power2::lemma2_to64();
    if n < 31 {
        vstd::arithmetic::power2::lemma_pow2_strictly_increases(n, 31);
    }
}

/// The backoff in milliseconds before retry `attempt` (counted from zero), for a
/// clock that shows `subsec_millis`.
pub fn backoff_at(attempt: u32, subsec_millis: u32) -> (r: u64)
    requires
        attempt < 32,
    ensures
        r == backoff(attempt as nat, subsec_millis as nat),
{
    let mut factor: u64 = 1;
    let mut i: u32 = 0;
    proof {
        vstd::arithmetic::power2::lemma2_to64();
    }
    while i < attempt
        invariant
            i <= attempt < 32,
            factor == pow2(i as nat),
        decreases attempt - i,
    {
        proof {
            vstd::arithmetic::power2::lemma_pow2_unfold((i + 1) as nat);
            lemma_pow2_bound(i as nat);
        }
        factor = factor * 2;
        i = i + 1;
    }
    proof {
        lemma_pow2_bound(attempt as nat);
    }
    BACKOFF_BASE * factor + (subsec_millis as u64) % BACKOFF_JITTER
}

/// The backoff in milliseconds before retry `attempt` (counted from zero): the base
/// doubled `attempt` times, plus a jitter that the wall clock decides.
pub fn backoff_delay(attempt: u32) -> (r: u64)
    requires
        attempt < 32,
    ensures
        BACKOFF_BASE * pow2(attempt as nat) <= r < BACKOFF_BASE * pow2(attempt as nat)
            + BACKOFF_JITTER,
{
    let now = std::time::SystemTime::now();
    match since_epoch(&now) {
        Some(d) => backoff_at(attempt, d.subsec_millis()),
        None => backoff_at(attempt, 0),
    }
}

/// Whether an answer is worth another try: too many requests, or a server error.
pub open spec fn is_transient(status: u16) -> bool {
    status == 429 || 500 <= status <= 599
}

/// The seconds that an answer asks to wait; only `429` is listened to.
pub open spec fn wait_hint(status: u16, retry_after: Option<Seq<char>>) -> Option<nat> {
    if status == 429 {
        match retry_after {
            Some(s) => parsed_number(trim(s), u64::MAX as nat),
            None => None,
        }
    } else {
        None
    }
}

fn read_wait_hint(status: u16, retry_after: &Option<String>) -> (r: Option<u64>)
    ensures
        match r {
            Some(n) => wait_hint(status, opt_view(*retry_after)) == Some(n as nat),
            None => wait_hint(status, opt_view(*retry_after)) is None,
        },
{
    if status == 429 {
        if let Some(s) = retry_after {
            let cs = to_chars(s.as_str());
            let (a, b) = trim_span(cs.as_slice(), 0, cs.len());
            assert(cs@.subrange(0, cs@.len() as int) =~= s@);
            return parse_number(cs.as_slice(), a, b, u64::MAX);
        }
    }
    None
}

/// One try that failed, and whether another is worth it.
#[derive(Debug)]
pub struct Attempt {
    pub err: ApiError,
    pub retryable: bool,
    /// Seconds that the backend asked to wait.
    pub retry_after_hint: Option<u64>,
}

/// A response with the API version that its header named.
pub open spec fn with_api_version(r: CheckResponse, header: Option<String>) -> CheckResponse {
    CheckResponse { api_version_header: header, ..r }
}

/// Whether a try of a check failed for the moment: no answer, `429` or a server error.
pub open spec fn failed_for_now(sent: Sent<CheckResponse>) -> bool {
    match sent {
        Sent::Unreachable(_) => true,
        Sent::Answered { status, .. } => is_transient(status),
    }
}

/// The seconds that the answer to a try asks to wait.
pub open spec fn try_hint(sent: Sent<CheckResponse>, retry_after: Option<Seq<char>>) -> Option<nat> {
    match sent {
        Sent::Unreachable(_) => None,
        Sent::Answered { status, .. } => wait_hint(status, retry_after),
    }
}

/// Whether `r` is what one try of a check means.
pub open spec fn is_try(
    r: Result<CheckResponse, Attempt>,
    sent: Sent<CheckResponse>,
    retry_after: Option<Seq<char>>,
    api_version: Option<String>,
) -> bool {
    match answered(sent, "response body"@) {
        Ok(resp) => r == Ok::<CheckResponse, Attempt>(with_api_version(resp, api_version)),
        Err(e) => r matches Err(a) && a.err@ == e && a.retryable == failed_for_now(sent) && (
        match a.retry_after_hint {
            Some(n) => Some(n as nat),
            None => None,
        }) == try_hint(sent, retry_after),
    }
}

/// What one try of a check means: the response, or why it failed and whether another
/// try is worth it. No answer, `429` and server errors are transient; a success with
/// an unreadable body and every other refusal are final.
pub fn try_once(
    sent: Sent<CheckResponse>,
    retry_after: &Option<String>,
    api_version: Option<String>,
) -> (r: Result<CheckResponse, Attempt>)
    ensures
        is_try(r, sent, opt_view(*retry_after), api_version),
{
    let (retryable, retry_after_hint) = match &sent {
        Sent::Unreachable(_) => (true, None),
        Sent::Answered { status, .. } => (
            *status == 429 || (500 <= *status && *status <= 599),
            read_wait_hint(*status, retry_after),
        ),
    };
    match answer(sent, "response body") {
        Ok(resp) => {
            let mut resp = resp;
            resp.api_version_header = api_version;
            Ok(resp)
        },
        Err(err) => Err(Attempt { err, retryable, retry_after_hint }),
    }
}

/// What to do after a try that failed.
#[derive(Debug)]
pub enum RetryStep {
    /// Say so, wait, and try again.
    Retry { delay_ms: u128, note: String },
    GiveUp(ApiError),
}

/// The milliseconds to wait before another try: what the backend asked for, else the
/// backoff.
pub open spec fn retry_delay(hint: Option<u64>, backoff_ms: u64) -> int {
    match hint {
        Some(secs) => secs * 1000,
        None => backoff_ms as int,
    }
}

pub open spec fn retry_note(e: ApiErrorView, attempt: nat, delay_ms: nat) -> Seq<char> {
    "note: transient failure ("@ + error_text(e) + "); retry "@ + decimal(attempt + 1) + "/"@
        + decimal(MAX_RETRIES as nat) + " in "@ + decimal(delay_ms) + "ms"@
}

/// Whether `r` is what to do after the failure of try `attempt`.
pub open spec fn is_retry_step(
    r: RetryStep,
    attempt: u32,
    outcome: Attempt,
    backoff_ms: u64,
) -> bool {
    match r {
        RetryStep::Retry { delay_ms, note } => (outcome.retryable
            || outcome.retry_after_hint is Some) && attempt < MAX_RETRIES && delay_ms
            == retry_delay(outcome.retry_after_hint, backoff_ms) && note@ == retry_note(
            outcome.err@,
            attempt as nat,
            delay_ms as nat,
        ),
        RetryStep::GiveUp(e) => !((outcome.retryable || outcome.retry_after_hint is Some)
            && attempt < MAX_RETRIES) && e == outcome.err,
    }
}

/// Decides after the failure of try `attempt` (counted from zero) whether there is
/// another, and how long to wait before it. There are no more than `MAX_RETRIES`.
pub fn retry_step(attempt: u32, outcome: Attempt, backoff_ms: u64) -> (r: RetryStep)
    ensures
        is_retry_step(r, attempt, outcome, backoff_ms),
{
    if (outcome.retryable || outcome.retry_after_hint.is_some()) && attempt < MAX_RETRIES {
        let delay_ms: u128 = match outcome.retry_after_hint {
            Some(secs) => secs as u128 * 1000,
            None => backoff_ms as u128,
        };
        let mut note = "note: transient failure (".to_owned();
        note.append(outcome.err.message().as_str());
        note.append("); retry ");
        note.append(decimal_text(attempt as u128 + 1).as_str());
        note.append("/");
        note.append(decimal_text(MAX_RETRIES as u128).as_str());
        note.append(" in ");
        note.append(decimal_text(delay_ms).as_str());
        note.append("ms");
        RetryStep::Retry { delay_ms, note }
    } else {
        RetryStep::GiveUp(outcome.err)
    }
}

/// Only passing failures are tried again, and only so often: no answer, `429` and server
/// errors up to `MAX_RETRIES` times. A refusal of the key, any other refusal and an
/// unreadable body end the check at once, with the error that the answer means.
pub proof fn law_only_passing_failures_are_retried(
    sent: Sent<CheckResponse>,
    retry_after: Option<Seq<char>>,
    api_version: Option<String>,
    outcome: Attempt,
    attempt: u32,
    backoff_ms: u64,
    step: RetryStep,
)
    requires
        is_try(Err(outcome), sent, retry_after, api_version),
        is_retry_step(step, attempt, outcome, backoff_ms),
    ensures
        step is Retry <==> failed_for_now(sent) && attempt < MAX_RETRIES,
        step matches RetryStep::GiveUp(e) ==> answered(sent, "response body"@) == Err::<
            CheckResponse,
            ApiErrorView,
        >(e@),
        step matches RetryStep::Retry { delay_ms, .. } ==> delay_ms == (match try_hint(
            sent,
            retry_after,
        ) {
            Some(secs) => secs * 1000,
            None => backoff_ms as nat,
        }),
{
}

/// What to do after a try of reading the workspace settings.
#[derive(Debug)]
pub enum ConfigStep {
    Wait { delay_ms: u128 },
    Done(Result<WorkspaceConfig, ApiError>),
}

/// Whether a try of reading the workspace settings is worth repeating.
pub open spec fn config_is_transient(sent: Sent<WorkspaceConfig>) -> bool {
    match sent {
        Sent::Unreachable(_) => true,
        Sent::Answered { status, .. } => is_transient(status),
    }
}

/// Whether `r` is what to do after try `attempt` of reading the workspace settings.
pub open spec fn is_config_step(
    r: ConfigStep,
    sent: Sent<WorkspaceConfig>,
    retry_after: Option<Seq<char>>,
    attempt: u32,
    backoff_ms: u64,
) -> bool {
    match r {
        ConfigStep::Wait { delay_ms } => config_is_transient(sent) && attempt < MAX_RETRIES
            && delay_ms == (match sent {
            Sent::Answered { status, .. } => match wait_hint(status, retry_after) {
                Some(n) => n * 1000,
                None => backoff_ms as nat,
            },
            Sent::Unreachable(_) => backoff_ms as nat,
        }),
        ConfigStep::Done(out) => !(config_is_transient(sent) && attempt < MAX_RETRIES)
            && outcome_view(out) == answered(sent, "config body"@),
    }
}

/// Decides after try `attempt` (counted from zero) of reading the workspace settings:
/// a passing failure is waited out up to `MAX_RETRIES` times, so that a throttle does
/// not end in SQL being sent unsanitized; anything else is the outcome.
pub fn config(
    sent: Sent<WorkspaceConfig>,
    retry_after: &Option<String>,
    attempt: u32,
    backoff_ms: u64,
) -> (r: ConfigStep)
    ensures
        is_config_step(r, sent, opt_view(*retry_after), attempt, backoff_ms),
{
    if attempt < MAX_RETRIES {
        match &sent {
            Sent::Unreachable(_) => {
                return ConfigStep::Wait { delay_ms: backoff_ms as u128 };
            },
            Sent::Answered { status, .. } => {
                if *status == 429 || (500 <= *status && *status <= 599) {
                    return match read_wait_hint(*status, retry_after) {
                        Some(n) => ConfigStep::Wait { delay_ms: n as u128 * 1000 },
                        None => ConfigStep::Wait { delay_ms: backoff_ms as u128 },
                    };
                }
            },
        }
    }
    ConfigStep::Done(answer(sent, "config body"))
}

// ── Addresses ─────────────────────────────────────────────────────────────────

/// A base address without the slashes at its end.
pub open spec fn without_end_slashes(s: Seq<char>) -> Seq<char>
    decreases s.len(),
{
    if s.len() > 0 && s.last() == '/' {
        without_end_slashes(s.drop_last())
    } else {
        s
    }
}

/// The address of a path under a base address.
pub open spec fn address_of(api_url: Seq<char>, path: Seq<char>) -> Seq<char> {
    without_end_slashes(api_url) + path
}

/// The address of an endpoint under a base address.
pub fn endpoint(api_url: &str, path: &str) -> (r: String)
    ensures
        r@ == address_of(api_url@, path@),
{
    let cs = to_chars(api_url);
    let mut n: usize = cs.len();
    assert(cs@.subrange(0, n as int) =~= api_url@);
    while n > 0 && cs[n - 1] == '/'
        invariant
            n <= cs@.len(),
            without_end_slashes(api_url@) == without_end_slashes(cs@.subrange(0, n as int)),
        decreases n,
    {
        assert(cs@.subrange(0, n as int).drop_last() =~= cs@.subrange(0, n - 1));
        n = n - 1;
    }
    let mut out = slice_text(cs.as_slice(), 0, n);
    out.append(path);
    out
}

/// The bytes that stand for themselves in a path segment.
pub open spec fn is_unreserved(b: u8) -> bool {
    65 <= b <= 90 || 97 <= b <= 122 || 48 <= b <= 57 || b == 45 || b == 95
}

/// An upper-case hexadecimal digit.
pub open spec fn upper_hex_digit(d: u8) -> char {
    if d < 10 {
        (48 + d) as u8 as char
    } else {
        (55 + d) as u8 as char
    }
}

/// A byte in a path segment: itself, or `%` and two hexadecimal digits.
pub open spec fn encoded_byte(b: u8) -> Seq<char> {
    if is_unreserved(b) {
        seq![b as char]
    } else {
        seq!['%', upper_hex_digit(b / 16), upper_hex_digit(b % 16)]
    }
}

pub open spec fn encoded_segment(bytes: Seq<u8>) -> Seq<char>
    decreases bytes.len(),
{
    if bytes.len() == 0 {
        seq![]
    } else {
        encoded_segment(bytes.drop_last()) + encoded_byte(bytes.last())
    }
}

fn hex_upper(d: u8) -> (r: char)
    requires
        d < 16,
    ensures
        r == upper_hex_digit(d),
{
    if d < 10 {
        (48 + d) as char
    } else {
        (55 + d) as char
    }
}

/// Percent-encodes a path segment: letters, digits, `-` and `_` stand for themselves,
/// every other byte is escaped.
pub fn urlencode_path_segment(s: &str) -> (r: String)
    ensures
        r@ == encoded_segment(vstd::utf8::encode_utf8(s@)),
{
    let bytes = s.as_bytes();
    let mut out: String = String::new();
    let mut i: usize = 0;
    while i < bytes.len()
        invariant
            i <= bytes@.len(),
            out@ == encoded_segment(bytes@.subrange(0, i as int)),
        decreases bytes@.len() - i,
    {
        let b: u8 = bytes[i];
        let ghost before = out@;
        if (65 <= b && b <= 90) || (97 <= b && b <= 122) || (48 <= b && b <= 57) || b == 45 || b == 95 {
            out.push(b as char);
        } else {
            out.push('%');
            out.push(hex_upper(b / 16));
            out.push(hex_upper(b % 16));
        }
        assert(out@ =~= before + encoded_byte(b));
        assert(bytes@.subrange(0, i + 1).drop_last() =~= bytes@.subrange(0, i as int));
        i = i + 1;
    }
    assert(bytes@.subrange(0, i as int) =~= bytes@);
    out
}

/// An encoded segment is made of letters, digits, `-`, `_` and `%` alone: a rule code
/// adds no path segment, query or fragment to an address, and is never read as the
/// segment `.` or `..`.
pub proof fn law_encoded_segment_is_one_segment(bytes: Seq<u8>, k: int)
    requires
        0 <= k < encoded_segment(bytes).len(),
    ensures
        encoded_segment(bytes)[k] == '%' || (exists|b: u8|
            is_unreserved(b) && encoded_segment(bytes)[k] == b as char),
        encoded_segment(bytes)[k] != '/',
        encoded_segment(bytes)[k] != '?',
        encoded_segment(bytes)[k] != '#',
        encoded_segment(bytes)[k] != '.',
        encoded_segment(bytes) != seq!['.'],
        encoded_segment(bytes) != seq!['.', '.'],
    decreases bytes.len(),
{
    let head = encoded_segment(bytes.drop_last());
    if k < head.len() {
        law_encoded_segment_is_one_segment(bytes.drop_last(), k);
    } else {
        let b = bytes.last();
        let c = encoded_byte(b)[k - head.len()];
        assert(encoded_segment(bytes)[k] == c);
        if is_unreserved(b) {
            assert(c == b as char);
        } else if k - head.len() > 0 {
            let d: u8 = if k - head.len() == 1 {
                b / 16
            } else {
                b % 16
            };
            let code: u8 = if d < 10 {
                (48 + d) as u8
            } else {
                (55 + d) as u8
            };
            assert(d < 16);
            assert(is_unreserved(code) && c == code as char);
        }
    }
}

// ── Chunking ──────────────────────────────────────────────────────────────────

/// The number of queries that one request may carry.
pub const MAX_QUERIES_PER_CALL: usize = 500;

/// How requests are sent: the timeout, and a further CA bundle to trust.
#[derive(Debug)]
pub struct Transport {
    pub timeout_secs: u64,
    pub ca_bundle: Option<String>,
}

/// Where and how a check is run, shared by all its requests.
#[derive(Debug)]
pub struct CheckParams {
    pub api_url: String,
    pub api_key: String,
    pub dialect: String,
    pub file_name: Option<String>,
    pub provenance: Option<Provenance>,
    pub transport: Transport,
    pub concurrency: usize,
    pub receipt: bool,
}

/// A list in pieces of `n` items, the last one shorter where it does not divide.
pub open spec fn chunked<T>(s: Seq<T>, n: nat) -> Seq<Seq<T>>
    decreases s.len(),
    when n > 0
{
    if s.len() <= n {
        seq![s]
    } else {
        seq![s.take(n as int)] + chunked(s.skip(n as int), n)
    }
}

/// The contents of a list of queries' chunks.
pub open spec fn chunk_views(chunks: Seq<Vec<QueryInput>>) -> Seq<Seq<QueryInput>> {
    chunks.map_values(|c: Vec<QueryInput>| c@)
}

/// Splits the queries of a run into chunks of at most `MAX_QUERIES_PER_CALL`.
pub fn split_queries(queries: Vec<QueryInput>) -> (r: Vec<Vec<QueryInput>>)
    ensures
        chunk_views(r@) == chunked(queries@, MAX_QUERIES_PER_CALL as nat),
{
    let mut rest = queries;
    let mut out: Vec<Vec<QueryInput>> = Vec::new();
    while rest.len() > MAX_QUERIES_PER_CALL
        invariant
            chunk_views(out@) + chunked(rest@, MAX_QUERIES_PER_CALL as nat) == chunked(
                queries@,
                MAX_QUERIES_PER_CALL as nat,
            ),
        decreases rest@.len(),
    {
        let ghost before = out@;
        let ghost whole = rest@;
        let tail = rest.split_off(MAX_QUERIES_PER_CALL);
        out.push(rest);
        proof {
            assert(rest@ =~= whole.take(MAX_QUERIES_PER_CALL as int));
            assert(tail@ =~= whole.skip(MAX_QUERIES_PER_CALL as int));
            assert(chunk_views(out@) =~= chunk_views(before).push(rest@));
            assert(chunk_views(out@) + chunked(tail@, MAX_QUERIES_PER_CALL as nat) =~= chunk_views(
                before,
            ) + chunked(whole, MAX_QUERIES_PER_CALL as nat));
        }
        rest = tail;
    }
    let ghost before = out@;
    out.push(rest);
    assert(chunk_views(out@) =~= chunk_views(before) + seq![rest@]);
    out
}

/// The number of queries in all chunks.
pub open spec fn total_len(chunks: Seq<Seq<QueryInput>>) -> nat
    decreases chunks.len(),
{
    if chunks.len() == 0 {
        0
    } else {
        total_len(chunks.drop_last()) + chunks.last().len()
    }
}

/// The number of queries in all chunks.
pub fn chunk_total(chunks: &[Vec<QueryInput>]) -> (r: usize)
    requires
        total_len(chunk_views(chunks@)) <= usize::MAX,
    ensures
        r == total_len(chunk_views(chunks@)),
{
    let mut sum: usize = 0;
    let mut i: usize = 0;
    while i < chunks.len()
        invariant
            i <= chunks@.len(),
            sum == total_len(chunk_views(chunks@).take(i as int)),
            total_len(chunk_views(chunks@)) <= usize::MAX,
        decreases chunks@.len() - i,
    {
        let ghost all = chunk_views(chunks@);
        proof {
            assert(all.take(i + 1).drop_last() =~= all.take(i as int));
            assert(all.take(i + 1).last() == chunks@[i as int]@);
            lemma_total_len_grows(all, i + 1);
        }
        sum = sum + chunks[i].len();
        i = i + 1;
    }
    assert(chunk_views(chunks@).take(i as int) =~= chunk_views(chunks@));
    sum
}

proof fn lemma_total_len_grows(chunks: Seq<Seq<QueryInput>>, i: int)
    requires
        0 <= i <= chunks.len(),
    ensures
        total_len(chunks.take(i)) <= total_len(chunks),
    decreases chunks.len() - i,
{
    if i < chunks.len() {
        lemma_total_len_grows(chunks, i + 1);
        assert(chunks.take(i + 1).drop_last() =~= chunks.take(i));
    } else {
        assert(chunks.take(i) =~= chunks);
    }
}

/// Chunking loses and reorders nothing: put one behind the other the chunks are the
/// list, and none is larger than the limit.
pub proof fn law_chunks_are_the_list<T>(s: Seq<T>, n: nat)
    requires
        n > 0,
    ensures
        chunked(s, n).flatten() == s,
        chunked(s, n).len() >= 1,
        forall|k: int| 0 <= k < chunked(s, n).len() ==> (#[trigger] chunked(s, n)[k]).len() <= n,
        s.len() > 0 ==> forall|k: int|
            0 <= k < chunked(s, n).len() ==> (#[trigger] chunked(s, n)[k]).len() > 0,
    decreases s.len(),
{
    if s.len() <= n {
        assert(chunked(s, n) =~= seq![s]);
        assert(seq![s].drop_first().flatten() =~= seq![]);
        assert(seq![s].flatten() =~= s);
    } else {
        let tail = chunked(s.skip(n as int), n);
        law_chunks_are_the_list(s.skip(n as int), n);
        assert(chunked(s, n).drop_first() =~= tail);
        assert(chunked(s, n).flatten() =~= s.take(n as int) + tail.flatten());
        assert(s.take(n as int) + s.skip(n as int) =~= s);
        assert forall|k: int| 0 <= k < chunked(s, n).len() implies (#[trigger] chunked(s, n)[k]).len()
            <= n && chunked(s, n)[k].len() > 0 by {
            if k > 0 {
                assert(chunked(s, n)[k] == tail[k - 1]);
            }
        }
    }
}

/// Whether `req` is the request of chunk `chunk` in a run with `p`.
pub open spec fn is_request(req: CheckRequest, p: CheckParams, chunk: Seq<QueryInput>) -> bool {
    &&& req.queries@ == chunk
    &&& req.dialect@ == p.dialect@
    &&& opt_view(req.file_name) == opt_view(p.file_name)
    &&& req.output_format@ == "json"@
    &&& provenance_view(req.provenance) == provenance_view(p.provenance)
    &&& req.receipt == p.receipt
}

/// The requests of a run: one for each chunk of its queries, in order. Each carries the
/// same dialect, file name and provenance, and each asks for a receipt of its own
/// where the run wants one, so that every query is covered by a signature.
pub fn check_requests(p: &CheckParams, queries: Vec<QueryInput>) -> (r: Vec<CheckRequest>)
    ensures
        r@.len() == chunked(queries@, MAX_QUERIES_PER_CALL as nat).len(),
        forall|k: int|
            0 <= k < r@.len() ==> is_request(
                #[trigger] r@[k],
                *p,
                chunked(queries@, MAX_QUERIES_PER_CALL as nat)[k],
            ),
{
    let ghost all = chunked(queries@, MAX_QUERIES_PER_CALL as nat);
    let chunks = split_queries(queries);
    let mut out: Vec<CheckRequest> = Vec::new();
    assert(chunk_views(chunks@).len() == chunks@.len());
    for chunk in it: chunks.into_iter()
        invariant
            it.seq() == chunks@,
            chunk_views(chunks@) == all,
            out@.len() == it.index(),
            forall|k: int| 0 <= k < out@.len() ==> is_request(#[trigger] out@[k], *p, all[k]),
    {
        assert(chunk@ == chunk_views(chunks@)[it.index() as int]);
        let provenance = match &p.provenance {
            Some(v) => Some(v.clone()),
            None => None,
        };
        out.push(
            CheckRequest {
                queries: chunk,
                dialect: p.dialect.clone(),
                file_name: copy_text(&p.file_name),
                output_format: "json".to_owned(),
                provenance,
                receipt: p.receipt,
            },
        );
    }
    out
}

pub open spec fn split_note(queries: nat, chunks: nat, concurrency: nat) -> Seq<char> {
    "note: "@ + decimal(queries) + " queries exceed the "@ + decimal(MAX_QUERIES_PER_CALL as nat)
        + "-per-call limit; splitting into "@ + decimal(chunks) + " chunks (concurrency "@ + decimal(
        concurrency,
    ) + ")"@
}

/// What is said before a run that takes more than one request.
pub fn split_notice(queries: usize, chunks: usize, concurrency: usize) -> (r: String)
    ensures
        r@ == split_note(queries as nat, chunks as nat, concurrency as nat),
{
    let mut out = "note: ".to_owned();
    out.append(decimal_text(queries as u128).as_str());
    out.append(" queries exceed the ");
    out.append(decimal_text(MAX_QUERIES_PER_CALL as u128).as_str());
    out.append("-per-call limit; splitting into ");
    out.append(decimal_text(chunks as u128).as_str());
    out.append(" chunks (concurrency ");
    out.append(decimal_text(concurrency as u128).as_str());
    out.append(")");
    out
}

// ── Merging ───────────────────────────────────────────────────────────────────

/// The counts of a summary.
pub enum Count {
    Total,
    Blocked,
    Allowed,
    Flagged,
    Monitored,
    ParseErrors,
}

pub open spec fn count_in(s: Summary, c: Count) -> nat {
    match c {
        Count::Total => s.total as nat,
        Count::Blocked => s.blocked as nat,
        Count::Allowed => s.allowed as nat,
        Count::Flagged => s.flagged as nat,
        Count::Monitored => s.monitored as nat,
        Count::ParseErrors => s.parse_errors as nat,
    }
}

/// A count added up over the parts of a run.
pub open spec fn sum_of(parts: Seq<CheckResponse>, c: Count) -> nat
    decreases parts.len(),
{
    if parts.len() == 0 {
        0
    } else {
        sum_of(parts.drop_last(), c) + count_in(parts.last().summary, c)
    }
}

/// The queries of the parts, in order.
pub open spec fn queries_of(parts: Seq<CheckResponse>) -> Seq<QueryResult>
    decreases parts.len(),
{
    if parts.len() == 0 {
        seq![]
    } else {
        queries_of(parts.drop_last()) + parts.last().queries@
    }
}

/// The receipts that the parts returned, in order.
pub open spec fn receipts_of(parts: Seq<CheckResponse>) -> Seq<Receipt>
    decreases parts.len(),
{
    if parts.len() == 0 {
        seq![]
    } else {
        match parts.last().receipt {
            Some(r) => receipts_of(parts.drop_last()).push(r),
            None => receipts_of(parts.drop_last()),
        }
    }
}

/// The largest exit code of the parts, at least zero.
pub open spec fn max_exit_code(parts: Seq<CheckResponse>) -> int
    decreases parts.len(),
{
    if parts.len() == 0 {
        0
    } else if max_exit_code(parts.drop_last()) < parts.last().exit_code {
        parts.last().exit_code as int
    } else {
        max_exit_code(parts.drop_last())
    }
}

/// The smallest number of checks left that a part reported.
pub open spec fn min_remaining(parts: Seq<CheckResponse>) -> Option<i64>
    decreases parts.len(),
{
    if parts.len() == 0 {
        None
    } else {
        match (min_remaining(parts.drop_last()), parts.last().ci_checks_remaining) {
            (Some(a), Some(b)) => Some(
                if b < a {
                    b
                } else {
                    a
                },
            ),
            (None, b) => b,
            (a, None) => a,
        }
    }
}

/// The facts of a response that hold for the whole workspace or deployment.
#[derive(Clone, Copy, Debug, PartialEq, Eq, Structural)]
pub enum Fact {
    QueryMode,
    ApiVersion,
    MinCliVersion,
}

pub open spec fn fact_in(r: CheckResponse, f: Fact) -> Option<Seq<char>> {
    match f {
        Fact::QueryMode => opt_view(r.telemetry_query_mode),
        Fact::ApiVersion => opt_view(r.api_version_header),
        Fact::MinCliVersion => opt_view(r.min_cli_version),
    }
}

/// A fact as the first part that names it gives it.
pub open spec fn first_fact(parts: Seq<CheckResponse>, f: Fact) -> Option<Seq<char>>
    decreases parts.len(),
{
    if parts.len() == 0 {
        None
    } else {
        match first_fact(parts.drop_last(), f) {
            Some(v) => Some(v),
            None => fact_in(parts.last(), f),
        }
    }
}

fn find_fact(parts: &[CheckResponse], f: Fact) -> (r: Option<String>)
    ensures
        opt_view(r) == first_fact(parts@, f),
{
    let mut found: Option<String> = None;
    let mut i: usize = 0;
    while i < parts.len()
        invariant
            i <= parts@.len(),
            opt_view(found) == first_fact(parts@.take(i as int), f),
        decreases parts@.len() - i,
    {
        assert(parts@.take(i + 1).drop_last() =~= parts@.take(i as int));
        if found.is_none() {
            found = match f {
                Fact::QueryMode => copy_text(&parts[i].telemetry_query_mode),
                Fact::ApiVersion => copy_text(&parts[i].api_version_header),
                Fact::MinCliVersion => copy_text(&parts[i].min_cli_version),
            };
        }
        i = i + 1;
    }
    assert(parts@.take(i as int) =~= parts@);
    found
}

/// The counts of the parts add up within what a summary can hold.
pub open spec fn sums_fit(parts: Seq<CheckResponse>) -> bool {
    forall|c: Count| #[trigger] sum_of(parts, c) <= u32::MAX
}

proof fn lemma_sum_grows(parts: Seq<CheckResponse>, i: int, c: Count)
    requires
        0 <= i <= parts.len(),
    ensures
        sum_of(parts.take(i), c) <= sum_of(parts, c),
    decreases parts.len() - i,
{
    if i < parts.len() {
        lemma_sum_grows(parts, i + 1, c);
        assert(parts.take(i + 1).drop_last() =~= parts.take(i));
    } else {
        assert(parts.take(i) =~= parts);
    }
}

fn count_of(s: &Summary, c: &Count) -> (r: u32)
    ensures
        r == count_in(*s, *c),
{
    match c {
        Count::Total => s.total,
        Count::Blocked => s.blocked,
        Count::Allowed => s.allowed,
        Count::Flagged => s.flagged,
        Count::Monitored => s.monitored,
        Count::ParseErrors => s.parse_errors,
    }
}

fn sum_fits(parts: &[CheckResponse], c: &Count) -> (r: bool)
    ensures
        r == (sum_of(parts@, *c) <= u32::MAX),
{
    let mut sum: u64 = 0;
    let mut i: usize = 0;
    while i < parts.len()
        invariant
            i <= parts@.len(),
            sum == sum_of(parts@.take(i as int), *c),
            sum <= u32::MAX,
        decreases parts@.len() - i,
    {
        proof {
            assert(parts@.take(i + 1).drop_last() =~= parts@.take(i as int));
            lemma_sum_grows(parts@, i + 1, *c);
        }
        sum = sum + count_of(&parts[i].summary, c) as u64;
        if sum > u32::MAX as u64 {
            return false;
        }
        i = i + 1;
    }
    assert(parts@.take(i as int) =~= parts@);
    true
}

/// Whether the counts of the parts add up within what a summary can hold.
pub fn counts_fit(parts: &[CheckResponse]) -> (r: bool)
    ensures
        r == sums_fit(parts@),
{
    let r = sum_fits(parts, &Count::Total) && sum_fits(parts, &Count::Blocked) && sum_fits(
        parts,
        &Count::Allowed,
    ) && sum_fits(parts, &Count::Flagged) && sum_fits(parts, &Count::Monitored) && sum_fits(
        parts,
        &Count::ParseErrors,
    );
    assert(r ==> sums_fit(parts@)) by {
        if r {
            assert forall|c: Count| #[trigger] sum_of(parts@, c) <= u32::MAX by {
                match c {
                    Count::Total => {},
                    Count::Blocked => {},
                    Count::Allowed => {},
                    Count::Flagged => {},
                    Count::Monitored => {},
                    Count::ParseErrors => {},
                }
            }
        }
    }
    r
}

/// Whether `r` is the response of a whole run with the given parts: a single part is
/// the response itself; of several the counts add up, the results and receipts stand
/// in order, the exit code is the largest and the allowance the smallest.
pub open spec fn is_merge(r: CheckResponse, parts: Seq<CheckResponse>) -> bool {
    if parts.len() == 1 {
        r == parts[0]
    } else {
        &&& r.summary.total == sum_of(parts, Count::Total)
        &&& r.summary.blocked == sum_of(parts, Count::Blocked)
        &&& r.summary.allowed == sum_of(parts, Count::Allowed)
        &&& r.summary.flagged == sum_of(parts, Count::Flagged)
        &&& r.summary.monitored == sum_of(parts, Count::Monitored)
        &&& r.summary.parse_errors == sum_of(parts, Count::ParseErrors)
        &&& r.summary.ruleset_version@ == (if parts.len() == 0 {
            seq![]
        } else {
            parts[0].summary.ruleset_version@
        })
        &&& r.queries@ == queries_of(parts)
        &&& r.exit_code == max_exit_code(parts)
        &&& r.ci_checks_remaining == min_remaining(parts)
        &&& opt_view(r.telemetry_query_mode) == first_fact(parts, Fact::QueryMode)
        &&& opt_view(r.min_cli_version) == first_fact(parts, Fact::MinCliVersion)
        &&& opt_view(r.api_version_header) == first_fact(parts, Fact::ApiVersion)
        &&& r.receipt is None
        &&& r.merged_receipts@ == receipts_of(parts)
    }
}

/// Merges the responses of a chunked run, given in order, into one.
pub fn merge_responses(parts: Vec<CheckResponse>) -> (r: CheckResponse)
    requires
        parts@.len() == 1 || sums_fit(parts@),
    ensures
        is_merge(r, parts@),
{
    let mut parts = parts;
    if parts.len() == 1 {
        return parts.pop().unwrap();
    }
    let ghost all = parts@;
    let telemetry_query_mode = find_fact(parts.as_slice(), Fact::QueryMode);
    let api_version_header = find_fact(parts.as_slice(), Fact::ApiVersion);
    let min_cli_version = find_fact(parts.as_slice(), Fact::MinCliVersion);
    let ruleset_version = if parts.len() > 0 {
        parts[0].summary.ruleset_version.clone()
    } else {
        String::new()
    };
    let mut summary = Summary {
        total: 0,
        blocked: 0,
        allowed: 0,
        flagged: 0,
        monitored: 0,
        parse_errors: 0,
        ruleset_version,
    };
    let ghost version = summary.ruleset_version@;
    let mut queries: Vec<QueryResult> = Vec::new();
    let mut exit_code: i32 = 0;
    let mut remaining: Option<i64> = None;
    let mut merged_receipts: Vec<Receipt> = Vec::new();
    for part in it: parts.into_iter()
        invariant
            it.seq() == all,
            sums_fit(all),
            summary.total == sum_of(all.take(it.index()), Count::Total),
            summary.blocked == sum_of(all.take(it.index()), Count::Blocked),
            summary.allowed == sum_of(all.take(it.index()), Count::Allowed),
            summary.flagged == sum_of(all.take(it.index()), Count::Flagged),
            summary.monitored == sum_of(all.take(it.index()), Count::Monitored),
            summary.parse_errors == sum_of(all.take(it.index()), Count::ParseErrors),
            summary.ruleset_version@ == version,
            queries@ == queries_of(all.take(it.index())),
            exit_code == max_exit_code(all.take(it.index())),
            remaining == min_remaining(all.take(it.index())),
            merged_receipts@ == receipts_of(all.take(it.index())),
    {
        proof {
            let i = it.index();
            assert(all.take(i + 1).drop_last() =~= all.take(i));
            assert(all.take(i + 1).last() == part);
            lemma_sum_grows(all, i + 1, Count::Total);
            lemma_sum_grows(all, i + 1, Count::Blocked);
            lemma_sum_grows(all, i + 1, Count::Allowed);
            lemma_sum_grows(all, i + 1, Count::Flagged);
            lemma_sum_grows(all, i + 1, Count::Monitored);
            lemma_sum_grows(all, i + 1, Count::ParseErrors);
            assert(sum_of(all, Count::Total) <= u32::MAX && sum_of(all, Count::Blocked) <= u32::MAX
                && sum_of(all, Count::Allowed) <= u32::MAX && sum_of(all, Count::Flagged)
                <= u32::MAX && sum_of(all, Count::Monitored) <= u32::MAX && sum_of(
                all,
                Count::ParseErrors,
            ) <= u32::MAX);
        }
        summary.total = summary.total + part.summary.total;
        summary.blocked = summary.blocked + part.summary.blocked;
        summary.allowed = summary.allowed + part.summary.allowed;
        summary.flagged = summary.flagged + part.summary.flagged;
        summary.monitored = summary.monitored + part.summary.monitored;
        summary.parse_errors = summary.parse_errors + part.summary.parse_errors;
        if exit_code < part.exit_code {
            exit_code = part.exit_code;
        }
        if let Some(n) = part.ci_checks_remaining {
            remaining = match remaining {
                Some(cur) => Some(
                    if n < cur {
                        n
                    } else {
                        cur
                    },
                ),
                None => Some(n),
            };
        }
        if let Some(receipt) = part.receipt {
            merged_receipts.push(receipt);
        }
        let mut results = part.queries;
        queries.append(&mut results);
    }
    assert(all.take(all.len() as int) =~= all);
    CheckResponse {
        summary,
        queries,
        exit_code,
        ci_checks_remaining: remaining,
        telemetry_query_mode,
        min_cli_version,
        receipt: None,
        merged_receipts,
        api_version_header,
    }
}

/// What came of one chunk of a run, in the order in which the chunks finished.
#[derive(Debug)]
pub enum ChunkOutcome {
    Done { index: usize, response: CheckResponse },
    Failed { index: usize, error: ApiError },
    /// The task of a chunk ended without an outcome.
    Lost(String),
}

/// Puts a response behind all those with an index no greater than its own.
pub open spec fn placed(
    sorted: Seq<(usize, CheckResponse)>,
    item: (usize, CheckResponse),
) -> Seq<(usize, CheckResponse)>
    decreases sorted.len(),
{
    if sorted.len() == 0 || sorted.last().0 <= item.0 {
        sorted.push(item)
    } else {
        placed(sorted.drop_last(), item).push(sorted.last())
    }
}

/// The responses of the chunks that are done, by index.
pub open spec fn in_order(outcomes: Seq<ChunkOutcome>) -> Seq<(usize, CheckResponse)>
    decreases outcomes.len(),
{
    if outcomes.len() == 0 {
        seq![]
    } else {
        match outcomes.last() {
            ChunkOutcome::Done { index, response } => placed(
                in_order(outcomes.drop_last()),
                (index, response),
            ),
            _ => in_order(outcomes.drop_last()),
        }
    }
}

/// The failure that a run ends in: that of the chunk with the smallest index, else
/// that of a chunk that was lost, which counts as the last of all.
pub open spec fn fault(outcomes: Seq<ChunkOutcome>) -> Option<(usize, ApiErrorView)>
    decreases outcomes.len(),
{
    if outcomes.len() == 0 {
        None
    } else {
        let before = fault(outcomes.drop_last());
        match outcomes.last() {
            ChunkOutcome::Done { .. } => before,
            ChunkOutcome::Failed { index, error } => match before {
                Some((i, _)) => if index < i {
                    Some((index, error@))
                } else {
                    before
                },
                None => Some((index, error@)),
            },
            ChunkOutcome::Lost(e) => match before {
                Some(_) => before,
                None => Some((usize::MAX, ApiErrorView::Transport(e@))),
            },
        }
    }
}

pub open spec fn fault_text(index: usize, total: nat, e: ApiErrorView) -> Seq<char> {
    (if index == usize::MAX {
        "a"@
    } else {
        "chunk "@ + decimal((index + 1) as nat) + "/"@ + decimal(total)
    }) + " failed, failing the run closed: "@ + error_text(e)
}

/// Whether the backend was never reached: every chunk failed for want of an answer.
pub open spec fn never_reached(outcomes: Seq<ChunkOutcome>) -> bool {
    forall|k: int|
        0 <= k < outcomes.len() ==> ((#[trigger] outcomes[k]) matches ChunkOutcome::Failed {
            error,
            ..
        } && error@ is Transport)
}

/// The error of a run, given its failure. Where the backend was never reached, nothing was
/// checked, and the run is as unreachable as its chunks; any other run was checked in part
/// or might have been, and fails closed.
pub open spec fn run_error(
    outcomes: Seq<ChunkOutcome>,
    total: nat,
    index: usize,
    cause: ApiErrorView,
) -> ApiErrorView {
    match cause {
        ApiErrorView::Transport(m) => if never_reached(outcomes) && outcomes.len() == total {
            ApiErrorView::Transport(
                "chunk "@ + decimal((index + 1) as nat) + "/"@ + decimal(total) + ": "@ + m,
            )
        } else {
            ApiErrorView::PartialFailure(fault_text(index, total, cause))
        },
        _ => ApiErrorView::PartialFailure(fault_text(index, total, cause)),
    }
}

fn nothing_reached(outcomes: &[ChunkOutcome]) -> (r: bool)
    ensures
        r == never_reached(outcomes@),
{
    let mut i: usize = 0;
    while i < outcomes.len()
        invariant
            i <= outcomes@.len(),
            forall|k: int|
                0 <= k < i ==> ((#[trigger] outcomes@[k]) matches ChunkOutcome::Failed {
                    error,
                    ..
                } && error@ is Transport),
        decreases outcomes@.len() - i,
    {
        match &outcomes[i] {
            ChunkOutcome::Failed { error: ApiError::Transport(_), .. } => {},
            _ => {
                assert(!(outcomes@[i as int] matches ChunkOutcome::Failed { error, .. } && error@
                    is Transport));
                return false;
            },
        }
        i = i + 1;
    }
    true
}

fn place(sorted: &mut Vec<(usize, CheckResponse)>, item: (usize, CheckResponse))
    ensures
        final(sorted)@ == placed(old(sorted)@, item),
{
    let mut k: usize = sorted.len();
    let ghost all = sorted@;
    proof {
        assert(all.take(k as int) =~= all);
        assert(placed(all, item) =~= placed(all, item) + all.skip(k as int));
    }
    while k > 0 && sorted[k - 1].0 > item.0
        invariant
            k <= sorted@.len(),
            sorted@ == all,
            placed(all, item) == placed(all.take(k as int), item) + all.skip(k as int),
        decreases k,
    {
        proof {
            assert(all.take(k as int).drop_last() =~= all.take(k - 1));
            assert(all.take(k as int).last() == all[k - 1]);
            assert(placed(all.take(k as int), item) =~= placed(all.take(k - 1), item).push(
                all[k - 1],
            ));
            assert(placed(all.take(k - 1), item) + all.skip(k - 1) =~= placed(
                all.take(k as int),
                item,
            ) + all.skip(k as int));
        }
        k = k - 1;
    }
    sorted.insert(k, item);
    proof {
        assert(placed(all.take(k as int), item) =~= all.take(k as int).push(item));
        assert(sorted@ =~= all.take(k as int).push(item) + all.skip(k as int));
    }
}

pub open spec fn responses(sorted: Seq<(usize, CheckResponse)>) -> Seq<CheckResponse> {
    sorted.map_values(|p: (usize, CheckResponse)| p.1)
}

/// Collects the chunks of a run. The run fails closed: unless every chunk is done, it
/// ends in an error that names the first one that is not: a partial failure, but for a
/// backend that was never reached. Else the responses
/// come in the order of the chunks, whatever the order in which they finished.
pub fn collect_chunks(outcomes: Vec<ChunkOutcome>, total: usize) -> (r: Result<
    Vec<CheckResponse>,
    ApiError,
>)
    ensures
        match r {
            Ok(parts) => fault(outcomes@) is None && parts@ == responses(in_order(outcomes@)),
            Err(e) => fault(outcomes@) matches Some((index, cause)) && e@ == run_error(
                outcomes@,
                total as nat,
                index,
                cause,
            ),
        },
{
    let ghost all = outcomes@;
    let unreached = outcomes.len() == total && nothing_reached(outcomes.as_slice());
    let mut done: Vec<(usize, CheckResponse)> = Vec::new();
    let mut first: Option<(usize, ApiError)> = None;
    for outcome in it: outcomes.into_iter()
        invariant
            it.seq() == all,
            done@ == in_order(all.take(it.index())),
            match first {
                Some((i, e)) => fault(all.take(it.index())) == Some((i, e@)),
                None => fault(all.take(it.index())) is None,
            },
    {
        proof {
            let i = it.index();
            assert(all.take(i + 1).drop_last() =~= all.take(i));
            assert(all.take(i + 1).last() == outcome);
        }
        match outcome {
            ChunkOutcome::Done { index, response } => place(&mut done, (index, response)),
            ChunkOutcome::Failed { index, error } => {
                let replace = match &first {
                    Some((i, _)) => index < *i,
                    None => true,
                };
                if replace {
                    first = Some((index, error));
                }
            },
            ChunkOutcome::Lost(e) => {
                if first.is_none() {
                    first = Some((usize::MAX, ApiError::Transport(e)));
                }
            },
        }
    }
    assert(all.take(all.len() as int) =~= all);
    if let Some((index, e)) = first {
        if unreached {
            if let ApiError::Transport(m) = &e {
                let mut message = "chunk ".to_owned();
                message.append(decimal_text(index as u128 + 1).as_str());
                message.append("/");
                message.append(decimal_text(total as u128).as_str());
                message.append(": ");
                message.append(m.as_str());
                return Err(ApiError::Transport(message));
            }
        }
        let mut message = if index == usize::MAX {
            "a".to_owned()
        } else {
            let mut which = "chunk ".to_owned();
            which.append(decimal_text(index as u128 + 1).as_str());
            which.append("/");
            which.append(decimal_text(total as u128).as_str());
            which
        };
        message.append(" failed, failing the run closed: ");
        message.append(e.message().as_str());
        return Err(ApiError::PartialFailure(message));
    }
    let mut parts: Vec<CheckResponse> = Vec::new();
    let ghost sorted = done@;
    for p in it: done.into_iter()
        invariant
            it.seq() == sorted,
            parts@ == responses(sorted.take(it.index())),
    {
        parts.push(p.1);
        assert(parts@ =~= responses(sorted.take(it.index() + 1)));
    }
    assert(sorted.take(sorted.len() as int) =~= sorted);
    Ok(parts)
}

proof fn lemma_fault_iff_not_done(outcomes: Seq<ChunkOutcome>)
    ensures
        fault(outcomes) is None <==> (forall|k: int|
            0 <= k < outcomes.len() ==> (#[trigger] outcomes[k]) is Done),
    decreases outcomes.len(),
{
    if outcomes.len() > 0 {
        lemma_fault_iff_not_done(outcomes.drop_last());
        let rest = outcomes.drop_last();
        if fault(outcomes) is None {
            assert forall|k: int| 0 <= k < outcomes.len() implies (#[trigger] outcomes[k]) is Done by {
                if k < rest.len() {
                    assert(rest[k] is Done);
                }
            }
        } else if forall|k: int| 0 <= k < outcomes.len() ==> (#[trigger] outcomes[k]) is Done {
            assert(outcomes[outcomes.len() - 1] is Done);
            assert forall|k: int| 0 <= k < rest.len() implies (#[trigger] rest[k]) is Done by {
                assert(outcomes[k] is Done);
            }
        }
    }
}

/// The message of a run for which not as many outcomes came back as requests were sent.
pub open spec fn count_text(outcomes: nat, total: nat) -> Seq<char> {
    decimal(outcomes) + " outcomes for "@ + decimal(total) + " chunks, failing the run closed"@
}

/// Whether `r` is what a run comes to. A run with one request ends as that request does;
/// any other ends in an error unless there is one outcome per request and every chunk is
/// done, and else in the response that the chunks make together in order. The error is a
/// partial failure, but for a backend that was never reached. A run without a request has
/// checked nothing, and is a partial failure too. There is no outcome where
/// the chunks' counts add up to more than a summary can hold.
pub open spec fn is_outcome(
    r: Option<Result<CheckResponse, ApiError>>,
    outcomes: Seq<ChunkOutcome>,
    total: nat,
) -> bool {
    let parts = responses(in_order(outcomes));
    if total == 1 && outcomes.len() == 1 {
        match outcomes[0] {
            ChunkOutcome::Done { response, .. } => r == Some(
                Ok::<CheckResponse, ApiError>(response),
            ),
            ChunkOutcome::Failed { error, .. } => r == Some(
                Err::<CheckResponse, ApiError>(error),
            ),
            ChunkOutcome::Lost(e) => r matches Some(Err(x)) && x@ == ApiErrorView::Transport(e@),
        }
    } else {
        match fault(outcomes) {
            Some((index, cause)) => r matches Some(Err(e)) && e@ == run_error(
                outcomes,
                total,
                index,
                cause,
            ),
            None => if outcomes.len() != total || total == 0 {
                r matches Some(Err(e)) && e@ == ApiErrorView::PartialFailure(
                    count_text(outcomes.len(), total),
                )
            } else if sums_fit(parts) {
                r matches Some(Ok(resp)) && is_merge(resp, parts)
            } else {
                r is None
            },
        }
    }
}

/// Ends a run, given what came of each of its `total` requests, in the order in which
/// they finished.
pub fn check_all(outcomes: Vec<ChunkOutcome>, total: usize) -> (r: Option<
    Result<CheckResponse, ApiError>,
>)
    ensures
        is_outcome(r, outcomes@, total as nat),
{
    let mut outcomes = outcomes;
    let n: usize = outcomes.len();
    if total == 1 && n == 1 {
        return match outcomes.pop().unwrap() {
            ChunkOutcome::Done { response, .. } => Some(Ok(response)),
            ChunkOutcome::Failed { error, .. } => Some(Err(error)),
            ChunkOutcome::Lost(e) => Some(Err(ApiError::Transport(e))),
        };
    }
    match collect_chunks(outcomes, total) {
        Err(e) => Some(Err(e)),
        Ok(parts) => {
            if n != total || total == 0 {
                let mut message = decimal_text(n as u128);
                message.append(" outcomes for ");
                message.append(decimal_text(total as u128).as_str());
                message.append(" chunks, failing the run closed");
                return Some(Err(ApiError::PartialFailure(message)));
            }
            if counts_fit(parts.as_slice()) {
                Some(Ok(merge_responses(parts)))
            } else {
                None
            }
        },
    }
}

/// A chunked run fails closed: there is a failure exactly where some chunk is not done.
pub proof fn law_runs_fail_closed(outcomes: Seq<ChunkOutcome>)
    ensures
        fault(outcomes) is None <==> (forall|k: int|
            0 <= k < outcomes.len() ==> (#[trigger] outcomes[k]) is Done),
{
    lemma_fault_iff_not_done(outcomes);
}

/// No part of a run passes for the whole: a response takes one outcome per request, each
/// of them done; wherever one is missing or not done, the run ends in an error.
pub proof fn law_partial_runs_give_no_response(
    r: Option<Result<CheckResponse, ApiError>>,
    outcomes: Seq<ChunkOutcome>,
    total: nat,
)
    requires
        is_outcome(r, outcomes, total),
    ensures
        r matches Some(Ok(_)) ==> outcomes.len() == total && total > 0 && forall|k: int|
            0 <= k < outcomes.len() ==> (#[trigger] outcomes[k]) is Done,
        outcomes.len() != total || (exists|k: int|
            0 <= k < outcomes.len() && !((#[trigger] outcomes[k]) is Done)) ==> r matches Some(
            Err(_),
        ),
{
    lemma_fault_iff_not_done(outcomes);
}

/// A run of which a part was checked is never taken for one that did not reach the
/// backend, so that it cannot be waved through.
pub proof fn law_checked_parts_were_reached(
    r: Option<Result<CheckResponse, ApiError>>,
    outcomes: Seq<ChunkOutcome>,
    total: nat,
    k: int,
)
    requires
        is_outcome(r, outcomes, total),
        0 <= k < outcomes.len(),
        outcomes[k] is Done,
    ensures
        !(r matches Some(Err(e)) && e@ is Transport),
{
    assert(!never_reached(outcomes));
}

/// A run that did not reach the backend in any of its requests ends as unreachable.
pub proof fn law_unreached_runs_are_unreachable(
    r: Option<Result<CheckResponse, ApiError>>,
    outcomes: Seq<ChunkOutcome>,
    total: nat,
)
    requires
        is_outcome(r, outcomes, total),
        never_reached(outcomes),
        outcomes.len() == total,
        total > 0,
    ensures
        r matches Some(Err(e)) && e@ is Transport,
{
    if !(total == 1 && outcomes.len() == 1) {
        lemma_unreached_fault(outcomes);
    }
}

proof fn lemma_unreached_fault(outcomes: Seq<ChunkOutcome>)
    requires
        never_reached(outcomes),
    ensures
        outcomes.len() > 0 ==> (fault(outcomes) matches Some((_, cause)) && cause is Transport),
    decreases outcomes.len(),
{
    if outcomes.len() > 0 {
        let rest = outcomes.drop_last();
        assert forall|k: int| 0 <= k < rest.len() implies ((#[trigger] rest[k])
            matches ChunkOutcome::Failed { error, .. } && error@ is Transport) by {
            assert(rest[k] == outcomes[k]);
        }
        lemma_unreached_fault(rest);
        assert(outcomes[outcomes.len() - 1] is Failed);
    }
}

pub open spec fn rising(s: Seq<(usize, CheckResponse)>) -> bool {
    forall|i: int, j: int| 0 <= i < j < s.len() ==> (#[trigger] s[i]).0 < (#[trigger] s[j]).0
}

/// Putting a response with a new index in place keeps the list rising, and adds
/// nothing but that response.
proof fn lemma_placed(sorted: Seq<(usize, CheckResponse)>, item: (usize, CheckResponse))
    requires
        rising(sorted),
        forall|k: int| 0 <= k < sorted.len() ==> (#[trigger] sorted[k]).0 != item.0,
    ensures
        rising(placed(sorted, item)),
        placed(sorted, item).len() == sorted.len() + 1,
        forall|k: int|
            0 <= k < placed(sorted, item).len() ==> (#[trigger] placed(sorted, item)[k]) == item
                || sorted.contains(placed(sorted, item)[k]),
    decreases sorted.len(),
{
    let out = placed(sorted, item);
    if sorted.len() == 0 || sorted.last().0 <= item.0 {
        assert forall|k: int| 0 <= k < out.len() implies (#[trigger] out[k]) == item
            || sorted.contains(out[k]) by {
            if k < sorted.len() {
                assert(out[k] == sorted[k]);
            }
        }
        assert forall|i: int, j: int| 0 <= i < j < out.len() implies (#[trigger] out[i]).0 < (
        #[trigger] out[j]).0 by {
            if j == sorted.len() {
                assert(out[i] == sorted[i]);
                if i < sorted.len() - 1 {
                    assert(sorted[i].0 < sorted[sorted.len() - 1].0);
                }
                assert(sorted[sorted.len() - 1].0 != item.0);
            } else {
                assert(out[i] == sorted[i] && out[j] == sorted[j]);
            }
        }
    } else {
        let rest = sorted.drop_last();
        let head = placed(rest, item);
        assert(forall|k: int| 0 <= k < rest.len() ==> rest[k] == sorted[k]);
        lemma_placed(rest, item);
        assert(out =~= head.push(sorted.last()));
        assert forall|k: int| 0 <= k < out.len() implies (#[trigger] out[k]) == item
            || sorted.contains(out[k]) by {
            if k < head.len() {
                assert(out[k] == head[k]);
                if head[k] != item {
                    let m = choose|m: int| 0 <= m < rest.len() && rest[m] == head[k];
                    assert(sorted[m] == out[k]);
                }
            } else {
                assert(out[k] == sorted[sorted.len() - 1]);
            }
        }
        assert forall|i: int, j: int| 0 <= i < j < out.len() implies (#[trigger] out[i]).0 < (
        #[trigger] out[j]).0 by {
            if j == head.len() {
                assert(out[i] == head[i]);
                if head[i] != item {
                    let m = choose|m: int| 0 <= m < rest.len() && rest[m] == head[i];
                    assert(sorted[m].0 < sorted[sorted.len() - 1].0);
                }
            } else {
                assert(out[i] == head[i] && out[j] == head[j]);
            }
        }
    }
}

/// Whether every chunk is done, no two with one index.
pub open spec fn all_done(outcomes: Seq<ChunkOutcome>) -> bool {
    &&& forall|k: int| 0 <= k < outcomes.len() ==> (#[trigger] outcomes[k]) is Done
    &&& forall|i: int, j: int|
        0 <= i < j < outcomes.len() ==> (#[trigger] outcomes[i])->Done_index != (
        #[trigger] outcomes[j])->Done_index
}

proof fn lemma_in_order(outcomes: Seq<ChunkOutcome>)
    requires
        all_done(outcomes),
    ensures
        rising(in_order(outcomes)),
        in_order(outcomes).len() == outcomes.len(),
        forall|k: int|
            0 <= k < in_order(outcomes).len() ==> exists|j: int|
                0 <= j < outcomes.len() && #[trigger] outcomes[j] == (ChunkOutcome::Done {
                    index: (#[trigger] in_order(outcomes)[k]).0,
                    response: in_order(outcomes)[k].1,
                }),
    decreases outcomes.len(),
{
    if outcomes.len() > 0 {
        let rest = outcomes.drop_last();
        let last = outcomes.last();
        assert(forall|k: int| 0 <= k < rest.len() ==> rest[k] == outcomes[k]);
        assert(outcomes[outcomes.len() - 1] is Done);
        lemma_in_order(rest);
        let sorted = in_order(rest);
        let item = (last->Done_index, last->Done_response);
        assert forall|k: int| 0 <= k < sorted.len() implies (#[trigger] sorted[k]).0 != item.0 by {
            let j = choose|j: int|
                0 <= j < rest.len() && #[trigger] rest[j] == (ChunkOutcome::Done {
                    index: sorted[k].0,
                    response: sorted[k].1,
                });
            assert(outcomes[j]->Done_index != outcomes[outcomes.len() - 1]->Done_index);
        }
        lemma_placed(sorted, item);
        let out = in_order(outcomes);
        assert(out == placed(sorted, item));
        assert forall|k: int| 0 <= k < out.len() implies exists|j: int|
            0 <= j < outcomes.len() && #[trigger] outcomes[j] == (ChunkOutcome::Done {
                index: (#[trigger] out[k]).0,
                response: out[k].1,
            }) by {
            if out[k] == item {
                assert(outcomes[outcomes.len() - 1] == (ChunkOutcome::Done {
                    index: out[k].0,
                    response: out[k].1,
                }));
            } else {
                let m = choose|m: int| 0 <= m < sorted.len() && sorted[m] == out[k];
                let j = choose|j: int|
                    0 <= j < rest.len() && #[trigger] rest[j] == (ChunkOutcome::Done {
                        index: sorted[m].0,
                        response: sorted[m].1,
                    });
                assert(outcomes[j] == rest[j]);
            }
        }
    }
}

proof fn lemma_rising_lower(s: Seq<(usize, CheckResponse)>, k: int)
    requires
        rising(s),
        0 <= k < s.len(),
    ensures
        s[k].0 >= k,
    decreases k,
{
    if k > 0 {
        lemma_rising_lower(s, k - 1);
        assert(s[k - 1].0 < s[k].0);
    }
}

proof fn lemma_rising_upper(s: Seq<(usize, CheckResponse)>, k: int)
    requires
        rising(s),
        0 <= k < s.len(),
        forall|i: int| 0 <= i < s.len() ==> (#[trigger] s[i]).0 < s.len(),
    ensures
        s[k].0 <= k,
    decreases s.len() - k,
{
    if k + 1 < s.len() {
        lemma_rising_upper(s, k + 1);
        assert(s[k].0 < s[k + 1].0);
    } else {
        assert(s[k].0 < s.len());
    }
}

/// Chunks finish in any order; the results of a run stand in the order of its input.
/// Where all `n` chunks are done, the response in place `k` is that of chunk `k`.
pub proof fn law_chunk_order_is_restored(outcomes: Seq<ChunkOutcome>, k: int)
    requires
        all_done(outcomes),
        forall|j: int|
            0 <= j < outcomes.len() ==> (#[trigger] outcomes[j])->Done_index < outcomes.len(),
        0 <= k < outcomes.len(),
    ensures
        in_order(outcomes).len() == outcomes.len(),
        k <= usize::MAX,
        outcomes.contains(
            ChunkOutcome::Done { index: k as usize, response: responses(in_order(outcomes))[k] },
        ),
{
    lemma_in_order(outcomes);
    let out = in_order(outcomes);
    assert forall|i: int| 0 <= i < out.len() implies (#[trigger] out[i]).0 < out.len() by {
        let j = choose|j: int|
            0 <= j < outcomes.len() && #[trigger] outcomes[j] == (ChunkOutcome::Done {
                index: out[i].0,
                response: out[i].1,
            });
        assert(outcomes[j]->Done_index < outcomes.len());
    }
    lemma_rising_lower(out, k);
    lemma_rising_upper(out, k);
    let j = choose|j: int|
        0 <= j < outcomes.len() && #[trigger] outcomes[j] == (ChunkOutcome::Done {
            index: out[k].0,
            response: out[k].1,
        });
    assert(responses(out)[k] == out[k].1);
    assert(outcomes[j] == (ChunkOutcome::Done { index: k as usize, response: responses(out)[k] }));
}

/// A merged run reports a failure exactly where one of its parts did: its exit code is
/// above zero if and only if that of some part is.
pub proof fn law_merged_exit_code(parts: Seq<CheckResponse>)
    ensures
        max_exit_code(parts) > 0 <==> exists|k: int|
            0 <= k < parts.len() && (#[trigger] parts[k]).exit_code > 0,
    decreases parts.len(),
{
    if parts.len() > 0 {
        let rest = parts.drop_last();
        law_merged_exit_code(rest);
        if exists|k: int| 0 <= k < rest.len() && (#[trigger] rest[k]).exit_code > 0 {
            let k = choose|k: int| 0 <= k < rest.len() && (#[trigger] rest[k]).exit_code > 0;
            assert(parts[k].exit_code > 0);
        }
        if parts.last().exit_code > 0 {
            assert(parts[parts.len() - 1].exit_code > 0);
        }
        if exists|k: int| 0 <= k < parts.len() && (#[trigger] parts[k]).exit_code > 0 {
            let k = choose|k: int| 0 <= k < parts.len() && (#[trigger] parts[k]).exit_code > 0;
            if k < rest.len() {
                assert(rest[k].exit_code > 0);
            }
        }
    }
}

} // verus!
