//! What a login stores, and which callback of the browser it accepts.
use vstd::prelude::*;
use crate::api::{ApiErrorView, OidcExchangeResult, WorkspaceConfig};
use crate::browser_login::{callback_for, escape_value, get_target, html_char, html_text, pair_in, pairs_in, pairs_map, percent_decoded, query_params, response_body, response_text, skip_spaces, skip_word, unescaped, without_end_cr};
use crate::ci_env::EnvVars;
use crate::config::{Config, ConfigView};
use crate::laws::answers::law_base_addresses_end_without_slash;
use crate::laws::texts::law_split;
use crate::login::{after_code_exchange, after_key_check, after_login_exchange, after_login_token, after_oidc_saved, identified, keyed, logged_out, login_url_of, OidcLoginStepView};
use crate::text::{decimal, is_space, lemma_skip_until_at, lemma_skip_until_bound, skip_until, split};

verus! {

// ── What is stored ────────────────────────────────────────────────────────────

/// A login with a key stores that key, and the address and dialect that were given; what was
/// not given stays as it was, and so does all else.
pub proof fn law_logins_store_the_key(
    cfg: ConfigView,
    key: Seq<char>,
    api_url: Option<Seq<char>>,
    dialect: Option<Seq<char>>,
)
    ensures
        ({
            let c = keyed(cfg, key, api_url, dialect);
            &&& c.api_key == Some(key)
            &&& c.api_url == (if api_url is Some {
                api_url
            } else {
                cfg.api_url
            })
            &&& c.default_dialect == (if dialect is Some {
                dialect
            } else {
                cfg.default_dialect
            })
            &&& c.workspace_id == cfg.workspace_id
            &&& c.oidc_audience == cfg.oidc_audience
        }),
{
}

/// A key is stored only where the backend accepted it; a refused one ends the login with the
/// code for authentication, and any other failure with that for the backend.
pub proof fn law_keys_are_stored_where_accepted(
    cfg: ConfigView,
    key: Seq<char>,
    api_url: Option<Seq<char>>,
    dialect: Option<Seq<char>>,
    ok: WorkspaceConfig,
    e: ApiErrorView,
)
    ensures
        after_key_check(Ok(ok), cfg, key, api_url, dialect) matches Ok(c) && c.api_key == Some(key),
        after_key_check(Err(e), cfg, key, api_url, dialect) matches Err(s) && s.code == (if e
            is Auth {
            3u8
        } else {
            4u8
        }),
        after_code_exchange(Ok(key), cfg, api_url, dialect) matches Ok(c) && c.api_key == Some(key)
            && c.workspace_id == cfg.workspace_id,
        after_code_exchange(Err(e), cfg, api_url, dialect) matches Err(s) && s.code == (if e
            is Auth {
            3u8
        } else {
            4u8
        }),
{
}

/// A login with workload identity stores the workspace and no key.
pub proof fn law_identity_logins_store_the_workspace(
    cfg: ConfigView,
    workspace: Seq<char>,
    api_url: Option<Seq<char>>,
    audience: Option<Seq<char>>,
)
    ensures
        ({
            let c = identified(cfg, workspace, api_url, audience);
            &&& c.api_key is None
            &&& c.workspace_id == Some(workspace)
            &&& c.api_url == (if api_url is Some {
                api_url
            } else {
                cfg.api_url
            })
            &&& c.oidc_audience == (if audience is Some {
                audience
            } else {
                cfg.oidc_audience
            })
            &&& c.default_dialect == cfg.default_dialect
        }),
{
}

/// A login with workload identity is tried out where a token is at hand: GitHub's own where
/// GitHub offers one, or the one in the variable. Elsewhere it ends with success.
pub proof fn law_identity_logins_are_tried_out(
    cfg: Config,
    workspace: Seq<char>,
    audience: Option<String>,
    path: Seq<char>,
    env: EnvVars,
    token: Seq<char>,
    ok: OidcExchangeResult,
    e: ApiErrorView,
)
    ensures
        ({
            let step = after_oidc_saved(cfg, workspace, audience, path, env).step;
            let url = env.text("ACTIONS_ID_TOKEN_REQUEST_URL"@);
            let request = env.text("ACTIONS_ID_TOKEN_REQUEST_TOKEN"@);
            let github = url is Some && request is Some;
            let held = env.text("VERICTO_ID_TOKEN"@);
            &&& github ==> step == (OidcLoginStepView::RequestToken {
                url: url->Some_0,
                authorization: "Bearer "@ + request->Some_0,
                audience: Some(
                    if audience is Some {
                        audience->Some_0@
                    } else if cfg.oidc_audience is Some {
                        cfg.oidc_audience->Some_0@
                    } else {
                        "vericto"@
                    },
                ),
            })
            &&& !github && held is Some ==> step == (OidcLoginStepView::Exchange {
                id_token: held->Some_0,
            })
            &&& !github && held is None ==> step == OidcLoginStepView::Finish(0)
        }),
        after_login_token(Ok(token)).step == (OidcLoginStepView::Exchange { id_token: token }),
        after_login_token(Err(e)).step == OidcLoginStepView::Finish(3),
        after_login_exchange(Ok(ok)).step == OidcLoginStepView::Finish(0),
        after_login_exchange(Err(e)).step == OidcLoginStepView::Finish(3),
{
}

/// A logout takes away the stored key and nothing else; where there is none it changes
/// nothing and is a success.
pub proof fn law_logouts_take_the_key_away(stored: bool, cfg: ConfigView)
    ensures
        logged_out(true, stored, cfg) is Ok <==> stored && cfg.api_key is Some,
        logged_out(true, stored, cfg) matches Ok(c) ==> c.api_key is None && c.api_url
            == cfg.api_url && c.default_dialect == cfg.default_dialect && c.workspace_id
            == cfg.workspace_id && c.oidc_audience == cfg.oidc_audience,
        logged_out(true, stored, cfg) matches Err(s) ==> s.code == 0,
        logged_out(false, stored, cfg) matches Err(s) && s.code == 2,
{
}

/// The browser is opened at the login page of the app, with the state and the port of this
/// login.
pub proof fn law_logins_open_their_own_page(
    app_url: Seq<char>,
    state: Seq<char>,
    port: nat,
) -> (n: int)
    ensures
        0 <= n <= app_url.len(),
        login_url_of(app_url, state, port) == app_url.subrange(0, n) + "/cli-auth?state="@ + state
            + "&port="@ + decimal(port),
        forall|i: int| n <= i < app_url.len() ==> #[trigger] app_url[i] == '/',
        n > 0 ==> app_url[n - 1] != '/',
{
    law_base_addresses_end_without_slash(app_url)
}

// ── Requests ──────────────────────────────────────────────────────────────────

proof fn lemma_word(s: Seq<char>, i: int, j: int)
    requires
        0 <= i <= j <= s.len(),
        forall|k: int| i <= k < j ==> !is_space(#[trigger] s[k]),
        j < s.len() ==> is_space(s[j]),
    ensures
        skip_word(s, i) == j,
    decreases j - i,
{
    if i < j {
        assert(!is_space(s[i]));
        lemma_word(s, i + 1, j);
    }
}

/// The target of a request is the word behind `GET`; a request with another method, or
/// without a target, has none.
pub proof fn law_requests_name_their_target(
    method: Seq<char>,
    target: Seq<char>,
    rest: Seq<char>,
)
    requires
        method.len() > 0,
        target.len() > 0,
        forall|k: int| 0 <= k < method.len() ==> !is_space(#[trigger] method[k]),
        forall|k: int| 0 <= k < target.len() ==> !is_space(#[trigger] target[k]),
    ensures
        get_target("GET"@ + seq![' '] + target) == Some(target),
        get_target("GET"@ + seq![' '] + target + seq![' '] + rest) == Some(target),
        method != "GET"@ ==> get_target(method + seq![' '] + target + seq![' '] + rest) is None,
        get_target("GET"@) is None,
{
    reveal_strlit("GET");
    let g = "GET"@;
    assert(!is_space('G') && !is_space('E') && !is_space('T') && is_space(' '));
    lemma_target(g, target, seq![]);
    lemma_target(g, target, seq![' '] + rest);
    lemma_target(method, target, seq![' '] + rest);
    assert(g + seq![' '] + target + Seq::<char>::empty() =~= g + seq![' '] + target);
    assert(g + seq![' '] + target + (seq![' '] + rest) =~= g + seq![' '] + target + seq![' ']
        + rest);
    assert(method + seq![' '] + target + (seq![' '] + rest) =~= method + seq![' '] + target + seq![
        ' ',
    ] + rest);
    lemma_word(g, 0, 3);
    reveal_with_fuel(skip_spaces, 2);
}

proof fn lemma_target(method: Seq<char>, target: Seq<char>, tail: Seq<char>)
    requires
        method.len() > 0,
        target.len() > 0,
        forall|k: int| 0 <= k < method.len() ==> !is_space(#[trigger] method[k]),
        forall|k: int| 0 <= k < target.len() ==> !is_space(#[trigger] target[k]),
        tail.len() > 0 ==> is_space(tail[0]),
    ensures
        get_target(method + seq![' '] + target + tail) == (if method == "GET"@ {
            Some(target)
        } else {
            None
        }),
{
    let s = method + seq![' '] + target + tail;
    let m = method.len() as int;
    let t = m + 1 + target.len();
    assert(is_space(' '));
    assert(s[0] == method[0]);
    assert(s[m] == ' ');
    assert(s[m + 1] == target[0]);
    assert forall|k: int| 0 <= k < m implies !is_space(#[trigger] s[k]) by {
        assert(s[k] == method[k]);
    }
    assert forall|k: int| m + 1 <= k < t implies !is_space(#[trigger] s[k]) by {
        assert(s[k] == target[k - m - 1]);
    }
    if tail.len() > 0 {
        assert(s[t] == tail[0]);
    }
    assert(skip_spaces(s, 0) == 0);
    lemma_word(s, 0, m);
    assert(skip_spaces(s, m + 1) == m + 1);
    assert(skip_spaces(s, m) == m + 1);
    lemma_word(s, m + 1, t);
    assert(s.subrange(0, m) =~= method);
    assert(s.subrange(m + 1, t) =~= target);
}

proof fn lemma_pairs_push(pieces: Seq<Seq<char>>, piece: Seq<char>)
    ensures
        pairs_in(pieces.push(piece)) == (match pair_in(piece) {
            Some(p) => pairs_in(pieces).push(p),
            None => pairs_in(pieces),
        }),
{
    assert(pieces.push(piece).drop_last() =~= pieces);
}

proof fn lemma_split_last(query: Seq<char>, i: int, piece: Seq<char>)
    requires
        0 <= i <= query.len(),
        forall|k: int| 0 <= k < piece.len() ==> #[trigger] piece[k] != '&',
    ensures
        crate::text::split_from(query + seq!['&'] + piece, i, '&') == crate::text::split_from(
            query,
            i,
            '&',
        ).push(piece),
    decreases query.len() - i,
{
    let s = query + seq!['&'] + piece;
    let n = query.len() as int;
    lemma_skip_until_bound(query, i, '&');
    crate::text::lemma_skip_until_stop(query, i, '&');
    let end = skip_until(query, i, '&');
    assert forall|k: int| i <= k < end implies (#[trigger] s[k]) != '&' by {
        assert(s[k] == query[k]);
    }
    assert(s[n] == '&');
    if end < n {
        assert(s[end] == query[end]);
    }
    lemma_skip_until_at(s, i, end, '&');
    assert(s.subrange(i, end) =~= query.subrange(i, end));
    if end < n {
        lemma_split_last(query, end + 1, piece);
        assert(seq![query.subrange(i, end)] + crate::text::split_from(query, end + 1, '&').push(
            piece,
        ) =~= (seq![query.subrange(i, end)] + crate::text::split_from(
            query,
            end + 1,
            '&',
        )).push(piece));
    } else {
        assert forall|k: int| n + 1 <= k < s.len() implies (#[trigger] s[k]) != '&' by {
            assert(s[k] == piece[k - n - 1]);
        }
        lemma_skip_until_at(s, n + 1, s.len() as int, '&');
        assert(s.subrange(n + 1, s.len() as int) =~= piece);
        assert(crate::text::split_from(s, n + 1, '&') == seq![piece]);
        assert(crate::text::split_from(query, i, '&') == seq![query.subrange(i, end)]);
        assert(seq![query.subrange(i, end)] + seq![piece] =~= seq![query.subrange(i, end)].push(
            piece,
        ));
    }
}

proof fn lemma_pair(name: Seq<char>, value: Seq<char>)
    requires
        forall|k: int| 0 <= k < name.len() ==> #[trigger] name[k] != '=',
    ensures
        pair_in(name + seq!['='] + value) == Some(
            (percent_decoded(name), percent_decoded(value)),
        ),
        pair_in(name) is None,
{
    let s = name + seq!['='] + value;
    let n = name.len() as int;
    assert forall|k: int| 0 <= k < n implies (#[trigger] s[k]) != '=' by {
        assert(s[k] == name[k]);
    }
    assert(s[n] == '=');
    lemma_skip_until_at(s, 0, n, '=');
    lemma_skip_until_at(name, 0, n, '=');
    assert(s.subrange(0, n) =~= name);
    assert(s.subrange(n + 1, s.len() as int) =~= value);
}

/// A parameter behind others is added to them, decoded; of two with one name the later
/// counts, and what holds no `=` is passed over.
pub proof fn law_parameters_add_up(query: Seq<char>, name: Seq<char>, value: Seq<char>)
    requires
        forall|k: int| 0 <= k < name.len() ==> #[trigger] name[k] != '&' && name[k] != '=',
        forall|k: int| 0 <= k < value.len() ==> #[trigger] value[k] != '&',
    ensures
        query_params(name + seq!['='] + value) == Map::<Seq<char>, Seq<char>>::empty().insert(
            percent_decoded(name),
            percent_decoded(value),
        ),
        query_params(query + seq!['&'] + (name + seq!['='] + value)) == query_params(query).insert(
            percent_decoded(name),
            percent_decoded(value),
        ),
        query_params(query + seq!['&'] + name) == query_params(query),
{
    let piece = name + seq!['='] + value;
    assert forall|k: int| 0 <= k < piece.len() implies #[trigger] piece[k] != '&' by {
        if k < name.len() {
            assert(piece[k] == name[k]);
        } else if k > name.len() {
            assert(piece[k] == value[k - name.len() - 1]);
        }
    }
    lemma_pair(name, value);
    law_split(piece, seq![], '&');
    let none = Seq::<Seq<char>>::empty();
    assert(seq![piece] =~= none.push(piece));
    lemma_pairs_push(none, piece);
    let p = (percent_decoded(name), percent_decoded(value));
    let before = pairs_in(split(query, '&'));
    assert(before.push(p).drop_last() =~= before);
    assert(pairs_in(none) =~= seq![]);
    let first = pairs_in(none);
    assert(first.push(p).drop_last() =~= first);
    assert(pairs_map(first) == Map::<Seq<char>, Seq<char>>::empty());
    assert(pairs_map(first.push(p)) == pairs_map(first).insert(p.0, p.1));
    lemma_split_last(query, 0, piece);
    lemma_split_last(query, 0, name);
    lemma_pairs_push(split(query, '&'), piece);
    lemma_pairs_push(split(query, '&'), name);
}

proof fn lemma_unescaped_shift(a: Seq<u8>, b: Seq<u8>, i: int)
    requires
        0 <= i <= b.len(),
    ensures
        unescaped(a + b, a.len() + i) == unescaped(b, i),
    decreases b.len() - i,
{
    let s = a + b;
    let n = a.len() as int;
    if i < b.len() {
        assert(s[n + i] == b[i]);
        if i + 1 < b.len() {
            assert(s[n + i + 1] == b[i + 1]);
        }
        if i + 2 < b.len() {
            assert(s[n + i + 2] == b[i + 2]);
        }
        if b[i] == 37 && i + 2 < b.len() && escape_value(b[i + 1], b[i + 2]) is Some {
            lemma_unescaped_shift(a, b, i + 3);
        } else {
            lemma_unescaped_shift(a, b, i + 1);
        }
    }
}

/// What a hexadecimal digit in either case is worth.
pub open spec fn nibble(b: u8) -> Option<int> {
    if '0' as int <= b <= '9' as int {
        Some(b - '0' as int)
    } else if 'a' as int <= b <= 'f' as int {
        Some(b - 'a' as int + 10)
    } else if 'A' as int <= b <= 'F' as int {
        Some(b - 'A' as int + 10)
    } else {
        None
    }
}

/// In a parameter `+` stands for a space, a percent sign and two hexadecimal digits for the
/// byte with that value, and every other byte for itself.
pub proof fn law_parameters_are_decoded_byte_by_byte(b: u8, hi: u8, lo: u8, rest: Seq<u8>)
    ensures
        unescaped(Seq::<u8>::empty(), 0) == Seq::<u8>::empty(),
        unescaped(seq![43u8] + rest, 0) == seq![32u8] + unescaped(rest, 0),
        b != 37 && b != 43 ==> unescaped(seq![b] + rest, 0) == seq![b] + unescaped(rest, 0),
        nibble(hi) is Some && nibble(lo) is Some ==> unescaped(seq![37u8, hi, lo] + rest, 0)
            == seq![(16 * nibble(hi)->Some_0 + nibble(lo)->Some_0) as u8] + unescaped(rest, 0),
        nibble(hi) is None || nibble(lo) is None ==> unescaped(seq![37u8, hi, lo] + rest, 0)
            == seq![37u8] + unescaped(seq![hi, lo] + rest, 0),
{
    lemma_unescaped_shift(seq![43u8], rest, 0);
    lemma_unescaped_shift(seq![b], rest, 0);
    lemma_unescaped_shift(seq![37u8, hi, lo], rest, 0);
    lemma_unescaped_shift(seq![37u8], seq![hi, lo] + rest, 0);
    assert(seq![37u8] + (seq![hi, lo] + rest) =~= seq![37u8, hi, lo] + rest);
    let s = seq![37u8, hi, lo] + rest;
    assert(s[0] == 37 && s[1] == hi && s[2] == lo);
    assert((seq![43u8] + rest)[0] == 43);
    assert((seq![b] + rest)[0] == b);
}

// ── Callbacks ─────────────────────────────────────────────────────────────────

/// A callback completes the login exactly where it comes to the path of this login with the
/// state that this process made up, and then with the code that it carries. All else is
/// refused: another path as not found, anything else as a bad request.
pub proof fn law_callbacks_need_path_state_and_code(
    line: Seq<char>,
    path: Seq<char>,
    query: Seq<char>,
    expected: Seq<char>,
)
    requires
        get_target(line) == Some(path + seq!['?'] + query),
        forall|k: int| 0 <= k < path.len() ==> #[trigger] path[k] != '?',
    ensures
        ({
            let r = callback_for(line, expected);
            let p = query_params(query);
            let here = path == "/callback"@;
            let complete = p.dom().contains("state"@) && p.dom().contains("code"@);
            let matches = complete && p["state"@] == expected;
            &&& r.code is Some <==> here && matches
            &&& r.code matches Some(c) ==> c == p["code"@]
            &&& r.status == (if !here {
                404u16
            } else if matches {
                200u16
            } else {
                400u16
            })
        }),
{
    let target = path + seq!['?'] + query;
    let n = path.len() as int;
    assert forall|k: int| 0 <= k < n implies (#[trigger] target[k]) != '?' by {
        assert(target[k] == path[k]);
    }
    assert(target[n] == '?');
    lemma_skip_until_at(target, 0, n, '?');
    assert(target.subrange(0, n) =~= path);
    assert(target.subrange(n + 1, target.len() as int) =~= query);
}

/// A request that is no callback is refused, and never completes the login.
pub proof fn law_other_requests_are_refused(line: Seq<char>, expected: Seq<char>)
    ensures
        get_target(line) is None ==> callback_for(line, expected).status == 400 && callback_for(
            line,
            expected,
        ).code is None,
        (get_target(line) matches Some(t) && forall|k: int|
            0 <= k < t.len() ==> #[trigger] t[k] != '?') ==> callback_for(line, expected).status
            == 404 && callback_for(line, expected).code is None,
{
    if let Some(t) = get_target(line) {
        if forall|k: int| 0 <= k < t.len() ==> #[trigger] t[k] != '?' {
            lemma_skip_until_at(t, 0, t.len() as int, '?');
        }
    }
}

/// A request line loses the carriage returns at its end and nothing else.
pub proof fn law_request_lines_end_without_carriage_return(s: Seq<char>) -> (n: int)
    ensures
        0 <= n <= s.len(),
        without_end_cr(s) == s.subrange(0, n),
        forall|i: int| n <= i < s.len() ==> #[trigger] s[i] == '\r',
        n > 0 ==> s[n - 1] != '\r',
    decreases s.len(),
{
    if s.len() > 0 && s.last() == '\r' {
        let rest = s.drop_last();
        let n = law_request_lines_end_without_carriage_return(rest);
        assert(rest.subrange(0, n) =~= s.subrange(0, n));
        assert forall|i: int| n <= i < s.len() implies #[trigger] s[i] == '\r' by {
            if i < rest.len() {
                assert(rest[i] == s[i]);
            }
        }
        n
    } else {
        assert(s.subrange(0, s.len() as int) =~= s);
        s.len() as int
    }
}

/// What a character is on a page: those that mark up are escaped.
pub open spec fn on_a_page(c: char) -> Seq<char> {
    if c == '&' {
        seq!['&', 'a', 'm', 'p', ';']
    } else if c == '<' {
        seq!['&', 'l', 't', ';']
    } else if c == '>' {
        seq!['&', 'g', 't', ';']
    } else {
        seq![c]
    }
}

/// Each character of a message stands on the page, escaped where it would mark up.
pub proof fn law_pages_hold_every_character(s: Seq<char>)
    ensures
        html_text(s) == s.map_values(|c: char| on_a_page(c)).flatten(),
    decreases s.len(),
{
    reveal_strlit("&amp;");
    reveal_strlit("&lt;");
    reveal_strlit("&gt;");
    if s.len() > 0 {
        let rest = s.drop_last();
        law_pages_hold_every_character(rest);
        let parts = rest.map_values(|c: char| on_a_page(c));
        parts.lemma_flatten_push(on_a_page(s.last()));
        assert(s.map_values(|c: char| on_a_page(c)) =~= parts.push(on_a_page(s.last())));
        assert(html_char(s.last()) =~= on_a_page(s.last()));
    }
}

/// An answer to the browser states its status and the length of its page in bytes, and the
/// page is all that follows its head.
pub proof fn law_answers_state_their_length(status: u16, message: Seq<char>)
    ensures
        response_text(status, message) == "HTTP/1.1 "@ + decimal(status as nat) + " "@ + (
        if status == 200 {
            "OK"@
        } else if status == 400 {
            "Bad Request"@
        } else if status == 404 {
            "Not Found"@
        } else {
            "Error"@
        }) + "\r\nContent-Type: text/html; charset=utf-8\r\nContent-Length: "@ + decimal(
            vstd::utf8::encode_utf8(response_body(message)).len(),
        ) + "\r\nConnection: close\r\n\r\n"@ + response_body(message),
{
}

} // verus!
