//! What the answers of the backend mean, when a request is sent again, and what addresses
//! and versions are made of.
use vstd::prelude::*;
use vstd::arithmetic::power2::pow2;
use crate::api::{answered, backoff, encoded_byte, encoded_segment, error_text, is_config_step, is_retry_step, is_try, login_answered, message_in, without_end_slashes, ApiErrorView, Attempt, CheckResponse, ConfigStep, RetryStep, Sent, WorkspaceConfig};
use crate::json::{json_parsed, JsonView};
use crate::laws::reports::at;
use crate::laws::texts::{law_decimal, law_parsed_number, law_split};
use crate::output::CLI_VERSION;
use crate::text::{decimal, parsed_number, split, trim};
use crate::version::{compat_of, from_first_digit, leading_digits, older, parsed_version, update_note_of, version_gate_of, MIN_BACKEND_API_VERSION};

verus! {

// ── Answers ───────────────────────────────────────────────────────────────────

/// The text that is there.
pub open spec fn text_at(v: Option<JsonView>) -> Option<Seq<char>> {
    match v {
        Some(JsonView::Text(s)) => Some(s),
        _ => None,
    }
}

/// The message of an error answer is `error.message`, else `error`, else `message`, each
/// where it is a text, else the body without white space at its ends.
pub proof fn law_error_answers_say_their_message(doc: Option<JsonView>, body: Seq<char>)
    ensures
        ({
            let nested = text_at(at(at(doc, "error"@), "message"@));
            let flat = text_at(at(doc, "error"@));
            let top = text_at(at(doc, "message"@));
            &&& nested matches Some(m) ==> message_in(doc, body) == m
            &&& nested is None ==> (flat matches Some(m) ==> message_in(doc, body) == m)
            &&& nested is None && flat is None ==> (top matches Some(m) ==> message_in(doc, body)
                == m)
            &&& nested is None && flat is None && top is None ==> message_in(doc, body) == trim(
                body,
            )
        }),
{
}

/// An answer counts as a success from 200 to 299, and then it is what its body holds; 401
/// and 403 refuse the key, and every other answer is an error of the backend with its own
/// status. No answer is an error of its own.
pub proof fn law_answers_mean_what_their_status_says<T>(
    status: u16,
    body: String,
    decoded: Result<T, String>,
    e: String,
    what: Seq<char>,
)
    ensures
        ({
            let sent = Sent::Answered { status, body, decoded };
            let message = message_in(json_parsed(body@), body@);
            let ok = 200 <= status && status < 300;
            &&& ok ==> (decoded matches Ok(v) ==> answered(sent, what) == Ok::<T, ApiErrorView>(v))
            &&& ok ==> (decoded matches Err(x) ==> answered(sent, what) == Err::<T, ApiErrorView>(
                ApiErrorView::Backend { status, message: "invalid "@ + what + ": "@ + x@ },
            ))
            &&& status == 401 || status == 403 ==> answered(sent, what) == Err::<T, ApiErrorView>(
                ApiErrorView::Auth(message),
            )
            &&& !ok && status != 401 && status != 403 ==> answered(sent, what) == Err::<
                T,
                ApiErrorView,
            >(ApiErrorView::Backend { status, message })
        }),
        answered(Sent::<T>::Unreachable(e), what) == Err::<T, ApiErrorView>(
            ApiErrorView::Transport(e@),
        ),
{
}

/// A login is refused with 401 alone; 403 is an error of the backend.
pub proof fn law_logins_are_refused_with_one_status(
    status: u16,
    body: String,
    decoded: Result<String, String>,
)
    ensures
        ({
            let r = login_answered(Sent::Answered { status, body, decoded });
            let ok = 200 <= status && status < 300;
            &&& r is Ok <==> ok && decoded is Ok
            &&& r matches Ok(v) ==> decoded == Ok::<String, String>(v)
            &&& r matches Err(e) ==> (e is Auth <==> status == 401) && !(e is Transport)
        }),
{
}

/// Each kind of error is told by its own words, with all that is known of it.
pub proof fn law_errors_are_told_apart(m: Seq<char>, status: u16)
    ensures
        error_text(ApiErrorView::Auth(m)) == "authentication/authorization failed: "@ + m,
        error_text(ApiErrorView::Backend { status, message: m }) == "backend error ("@ + decimal(
            status as nat,
        ) + "): "@ + m,
        error_text(ApiErrorView::Transport(m)) == "could not reach the Vericto API: "@ + m,
        error_text(ApiErrorView::PartialFailure(m)) == m,
{
}

// ── Sending again ─────────────────────────────────────────────────────────────

/// The wait before another try doubles from one try to the next; it starts at half a second,
/// and a quarter of a second at most comes on top.
pub proof fn law_waits_double(attempt: nat, ms: nat)
    ensures
        500 <= backoff(0, ms) < 750,
        backoff(attempt + 1, ms) == 2 * backoff(attempt, ms) - ms % 250,
        backoff(attempt, ms) % 250 == ms % 250,
{
    vstd::arithmetic::power2::lemma_pow2_unfold(attempt + 1);
    vstd::arithmetic::power2::lemma2_to64();
    let p = pow2(attempt);
    assert(500 * (2 * p) == 2 * (500 * p)) by (nonlinear_arith);
    assert((500 * p + ms % 250) % 250 == (ms % 250) % 250) by {
        vstd::arithmetic::div_mod::lemma_mod_multiples_vanish(2 * p as int, (ms % 250) as int, 250);
        assert(250 * (2 * p) == 500 * p) by (nonlinear_arith);
    }
}

/// Whether a failure may pass: no answer, too many requests, or an error of the server.
pub open spec fn may_pass<T>(sent: Sent<T>) -> bool {
    match sent {
        Sent::Unreachable(_) => true,
        Sent::Answered { status, .. } => status == 429 || status / 100 == 5,
    }
}

/// The milliseconds that an answer asks to wait: whole seconds, and only with 429.
pub open spec fn asked_to_wait<T>(sent: Sent<T>, retry_after: Option<Seq<char>>) -> Option<nat> {
    match (sent, retry_after) {
        (Sent::Answered { status, .. }, Some(s)) => if status == 429 {
            match parsed_number(trim(s), u64::MAX as nat) {
                Some(secs) => Some(1000 * secs),
                None => None,
            }
        } else {
            None
        },
        _ => None,
    }
}

/// A check is sent again after a failure that may pass, three times at most, and after the
/// wait that the backend asked for, else the backoff. Any other failure ends it, with the
/// error that the answer means.
pub proof fn law_checks_are_sent_again(
    sent: Sent<CheckResponse>,
    retry_after: Option<Seq<char>>,
    api_version: Option<String>,
    outcome: Attempt,
    attempt: u32,
    backoff_ms: u64,
    step: RetryStep,
)
    requires
        is_try(Err(outcome), sent, retry_after, api_version),
        is_retry_step(step, attempt, outcome, backoff_ms),
    ensures
        step is Retry <==> may_pass(sent) && attempt < 3,
        step matches RetryStep::Retry { delay_ms, .. } ==> delay_ms == (match asked_to_wait(
            sent,
            retry_after,
        ) {
            Some(ms) => ms,
            None => backoff_ms as nat,
        }),
        step matches RetryStep::GiveUp(e) ==> answered(sent, "response body"@) == Err::<
            CheckResponse,
            ApiErrorView,
        >(e@),
{
}

/// A check that was answered gives its response, field by field, with the version that the
/// header named.
pub proof fn law_answered_checks_keep_their_response(
    r: CheckResponse,
    status: u16,
    body: String,
    decoded: CheckResponse,
    retry_after: Option<Seq<char>>,
    api_version: Option<String>,
)
    requires
        200 <= status < 300,
        is_try(
            Ok(r),
            Sent::Answered { status, body, decoded: Ok(decoded) },
            retry_after,
            api_version,
        ),
    ensures
        r.queries == decoded.queries,
        r.summary == decoded.summary,
        r.exit_code == decoded.exit_code,
        r.ci_checks_remaining == decoded.ci_checks_remaining,
        r.telemetry_query_mode == decoded.telemetry_query_mode,
        r.min_cli_version == decoded.min_cli_version,
        r.receipt == decoded.receipt,
        r.merged_receipts == decoded.merged_receipts,
        r.api_version_header == api_version,
{
}

/// The settings of a workspace are asked for again in the same way, so that a throttle does
/// not end in SQL that is sent as it stands.
pub proof fn law_settings_are_asked_for_again(
    r: ConfigStep,
    sent: Sent<WorkspaceConfig>,
    retry_after: Option<Seq<char>>,
    attempt: u32,
    backoff_ms: u64,
)
    requires
        is_config_step(r, sent, retry_after, attempt, backoff_ms),
    ensures
        r is Wait <==> may_pass(sent) && attempt < 3,
        r matches ConfigStep::Wait { delay_ms } ==> delay_ms == (match asked_to_wait(
            sent,
            retry_after,
        ) {
            Some(ms) => ms,
            None => backoff_ms as nat,
        }),
        r matches ConfigStep::Done(Ok(cfg)) ==> answered(sent, "config body"@) == Ok::<
            WorkspaceConfig,
            ApiErrorView,
        >(cfg),
        r matches ConfigStep::Done(Err(e)) ==> answered(sent, "config body"@) == Err::<
            WorkspaceConfig,
            ApiErrorView,
        >(e@),
{
}

// ── Addresses ─────────────────────────────────────────────────────────────────

/// A base address loses the slashes at its end and nothing else.
pub proof fn law_base_addresses_end_without_slash(s: Seq<char>) -> (n: int)
    ensures
        0 <= n <= s.len(),
        without_end_slashes(s) == s.subrange(0, n),
        forall|i: int| n <= i < s.len() ==> #[trigger] s[i] == '/',
        n > 0 ==> s[n - 1] != '/',
    decreases s.len(),
{
    if s.len() > 0 && s.last() == '/' {
        let rest = s.drop_last();
        let n = law_base_addresses_end_without_slash(rest);
        assert(rest.subrange(0, n) =~= s.subrange(0, n));
        assert forall|i: int| n <= i < s.len() implies #[trigger] s[i] == '/' by {
            if i < rest.len() {
                assert(rest[i] == s[i]);
            }
        }
        n
    } else {
        assert(s.subrange(0, s.len() as int) =~= s);
        s.len() as int
    }
}

/// What a capital hexadecimal digit is worth.
pub open spec fn hex_worth(c: char) -> int {
    if '0' <= c <= '9' {
        c as int - '0' as int
    } else {
        10 + (c as int - 'A' as int)
    }
}

pub open spec fn is_capital_hex(c: char) -> bool {
    '0' <= c <= '9' || 'A' <= c <= 'F'
}

/// Letters, digits, `-` and `_` stand for themselves in a path segment; any other byte is a
/// percent sign and its value in two hexadecimal digits.
pub proof fn law_bytes_are_encoded(b: u8)
    ensures
        ({
            let c = b as char;
            let e = encoded_byte(b);
            if 'a' <= c <= 'z' || 'A' <= c <= 'Z' || '0' <= c <= '9' || c == '-' || c == '_' {
                e == seq![c]
            } else {
                &&& e.len() == 3
                &&& e[0] == '%'
                &&& is_capital_hex(e[1])
                &&& is_capital_hex(e[2])
                &&& 16 * hex_worth(e[1]) + hex_worth(e[2]) == b
            }
        }),
{
}

/// A path segment holds every byte of its text, in order.
pub proof fn law_segments_hold_every_byte(bytes: Seq<u8>)
    ensures
        encoded_segment(bytes) == bytes.map_values(|b: u8| encoded_byte(b)).flatten(),
    decreases bytes.len(),
{
    if bytes.len() > 0 {
        let rest = bytes.drop_last();
        law_segments_hold_every_byte(rest);
        let parts = rest.map_values(|b: u8| encoded_byte(b));
        parts.lemma_flatten_push(encoded_byte(bytes.last()));
        assert(bytes.map_values(|b: u8| encoded_byte(b)) =~= parts.push(
            encoded_byte(bytes.last()),
        ));
    }
}

// ── Versions ──────────────────────────────────────────────────────────────────

pub open spec fn digit(c: char) -> bool {
    '0' <= c <= '9'
}

proof fn lemma_leading(d: Seq<char>, tail: Seq<char>)
    requires
        forall|i: int| 0 <= i < d.len() ==> digit(#[trigger] d[i]),
        tail.len() > 0 ==> !digit(tail[0]),
    ensures
        leading_digits(d + tail) == d,
    decreases d.len(),
{
    let s = d + tail;
    if d.len() > 0 {
        assert(digit(d[0]));
        assert(s[0] == d[0]);
        assert(s.drop_first() =~= d.drop_first() + tail);
        assert forall|i: int| 0 <= i < d.drop_first().len() implies digit(
            #[trigger] d.drop_first()[i],
        ) by {
            assert(d.drop_first()[i] == d[i + 1]);
        }
        lemma_leading(d.drop_first(), tail);
        assert(seq![d[0]] + d.drop_first() =~= d);
    } else {
        assert(s =~= tail);
        assert(leading_digits(tail) =~= seq![]);
    }
}

proof fn lemma_first_digit(prefix: Seq<char>, rest: Seq<char>)
    requires
        forall|i: int| 0 <= i < prefix.len() ==> !digit(#[trigger] prefix[i]),
        rest.len() > 0 ==> digit(rest[0]),
    ensures
        from_first_digit(prefix + rest) == rest,
    decreases prefix.len(),
{
    let s = prefix + rest;
    if prefix.len() > 0 {
        assert(!digit(prefix[0]));
        assert(s[0] == prefix[0]);
        let p = prefix.drop_first();
        assert(s.drop_first() =~= p + rest);
        assert forall|i: int| 0 <= i < p.len() implies !digit(#[trigger] p[i]) by {
            assert(p[i] == prefix[i + 1]);
        }
        lemma_first_digit(p, rest);
    } else {
        assert(s =~= rest);
    }
}

proof fn lemma_pieces(a: Seq<char>, b: Seq<char>)
    requires
        forall|i: int| 0 <= i < a.len() ==> #[trigger] a[i] != '.',
    ensures
        split(a + seq!['.'] + b, '.')[0] == a,
        split(a + seq!['.'] + b, '.').len() > 1,
        split(a + seq!['.'] + b, '.')[1] == split(b, '.')[0],
{
    law_split(a, b, '.');
    crate::text::lemma_skip_until_bound(b, 0, '.');
    let rest = split(b, '.');
    assert(rest.len() > 0);
    assert((seq![a] + rest)[1] == rest[0]);
}

/// A version is read as its major and its minor number: what stands before the first digit
/// is passed over, and so is what follows the minor number.
pub proof fn law_versions_are_read(prefix: Seq<char>, a: nat, b: nat, suffix: Seq<char>, more: Seq<
    char,
>)
    requires
        a <= u32::MAX,
        b <= u32::MAX,
        forall|i: int| 0 <= i < prefix.len() ==> !digit(#[trigger] prefix[i]) && prefix[i] != '.',
        forall|i: int| 0 <= i < suffix.len() ==> #[trigger] suffix[i] != '.',
        suffix.len() > 0 ==> !digit(suffix[0]),
    ensures
        parsed_version(prefix + decimal(a) + seq!['.'] + (decimal(b) + suffix)) == Some((a, b)),
        parsed_version(
            prefix + decimal(a) + seq!['.'] + (decimal(b) + suffix + seq!['.'] + more),
        ) == Some((a, b)),
        parsed_version(prefix + decimal(a)) == Some((a, 0nat)),
{
    law_decimal(a);
    law_decimal(b);
    law_parsed_number(decimal(a), u32::MAX as nat);
    law_parsed_number(decimal(b), u32::MAX as nat);
    let head = prefix + decimal(a);
    let minor = decimal(b) + suffix;
    assert forall|i: int| 0 <= i < head.len() implies #[trigger] head[i] != '.' by {
        if i < prefix.len() {
            assert(head[i] == prefix[i]);
        } else {
            assert(head[i] == decimal(a)[i - prefix.len()]);
        }
    }
    assert forall|i: int| 0 <= i < minor.len() implies #[trigger] minor[i] != '.' by {
        if i < decimal(b).len() {
            assert(minor[i] == decimal(b)[i]);
        } else {
            assert(minor[i] == suffix[i - decimal(b).len()]);
        }
    }
    assert(digit(decimal(a)[0]));
    lemma_first_digit(prefix, decimal(a));
    assert(decimal(a) + Seq::<char>::empty() =~= decimal(a));
    lemma_leading(decimal(a), Seq::<char>::empty());
    lemma_leading(decimal(b), suffix);
    law_split(head, seq![], '.');
    law_split(minor, more, '.');
    lemma_pieces(head, minor);
    lemma_pieces(head, minor + seq!['.'] + more);
    assert(split(minor + seq!['.'] + more, '.')[0] == minor);
    assert(split(head, '.') == seq![head]);
}

/// A text without a digit in front of its first point is no version.
pub proof fn law_texts_without_digits_are_no_version(head: Seq<char>, more: Seq<char>)
    requires
        forall|i: int| 0 <= i < head.len() ==> !digit(#[trigger] head[i]) && head[i] != '.',
    ensures
        parsed_version(head) is None,
        parsed_version(head + seq!['.'] + more) is None,
{
    law_split(head, more, '.');
    lemma_pieces(head, more);
    lemma_first_digit(head, seq![]);
    assert(head + Seq::<char>::empty() =~= head);
    assert(leading_digits(seq![]) =~= seq![]);
    assert(parsed_number(Seq::<char>::empty(), u32::MAX as nat) is None);
}

proof fn lemma_own_versions()
    ensures
        parsed_version(MIN_BACKEND_API_VERSION@) == Some((1nat, 0nat)),
        parsed_version(CLI_VERSION@) == Some((1nat, 4nat)),
{
    reveal_strlit("1.0.0");
    reveal_strlit("1.4.2");
    let none = Seq::<char>::empty();
    law_versions_are_read(none, 1, 0, none, seq!['0']);
    law_versions_are_read(none, 1, 4, none, seq!['2']);
    assert(decimal(1) =~= seq!['1']);
    assert(decimal(0) =~= seq!['0']);
    assert(decimal(4) =~= seq!['4']);
    assert(MIN_BACKEND_API_VERSION@ =~= none + decimal(1) + seq!['.'] + (decimal(0) + none + seq![
        '.',
    ] + seq!['0']));
    assert(CLI_VERSION@ =~= none + decimal(1) + seq!['.'] + (decimal(4) + none + seq!['.'] + seq![
        '2',
    ]));
}

/// A backend with another major version than the one this tool needs ends the run; one with
/// the same major version and no older minor version, or with a version that cannot be read,
/// does not.
pub proof fn law_backends_of_another_major_version_are_refused(v: Seq<char>)
    ensures
        ({
            let gate = version_gate_of(Some(v));
            &&& gate is Err <==> (parsed_version(v) matches Some((major, _)) && major != 1)
            &&& gate matches Err(s) ==> s.code == 4
            &&& gate matches Ok(note) ==> note is None
        }),
        version_gate_of(None) matches Ok(note) && note is None,
{
    lemma_own_versions();
}

/// An update is announced exactly where the backend needs a later version of this tool.
pub proof fn law_updates_are_announced(min: Seq<char>)
    ensures
        ({
            let own = parsed_version(CLI_VERSION@)->Some_0;
            update_note_of(Some(min)) is Some <==> (parsed_version(min) matches Some((major, minor))
                && (major > own.0 || (major == own.0 && minor > own.1)))
        }),
        parsed_version(CLI_VERSION@) is Some,
        update_note_of(None) is None,
{
    lemma_own_versions();
}

/// Versions are compared by their major number first and their minor number then.
pub proof fn law_versions_are_compared(a: (nat, nat), b: (nat, nat))
    ensures
        older(Some(a), Some(b)) <==> a.0 < b.0 || (a.0 == b.0 && a.1 < b.1),
        compat_of(Some(a), Some(b)) is MajorMismatch <==> a.0 != b.0,
        compat_of(Some(a), Some(b)) is MinorSkew <==> a.0 == b.0 && a.1 < b.1,
        compat_of(Some(a), Some(b)) is Compatible <==> a.0 == b.0 && a.1 >= b.1,
        compat_of(None, Some(b)) is Unknown,
        compat_of(Some(a), None) is Unknown,
{
}

} // verus!
