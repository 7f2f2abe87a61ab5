//! What is copied, what is replaced, and by what, when a SQL text is sanitized.
use vstd::prelude::*;
use crate::sanitize::{block_comment_end, dollar_block_end, first_place, joined, law_tokens_cover_the_text, lemma_first_token, number_end, render, sanitized, source_text, string_end, style_of, tag_end, tokens, tokens_from, Place, Token};
use crate::text::{decimal, find_seq, is_space, lemma_find_seq_bound, lemma_skip_until_stop, occurs_at};

verus! {

pub open spec fn text_of(t: Token) -> Seq<char> {
    match t {
        Token::Kept { text } => text,
        Token::Literal { text } => text,
    }
}

/// The texts of the elements, one behind the other.
pub open spec fn flat(ts: Seq<Token>) -> Seq<char> {
    ts.map_values(|t: Token| text_of(t)).flatten()
}

proof fn lemma_flat_is_joined(ts: Seq<Token>)
    ensures
        flat(ts) == joined(ts),
    decreases ts.len(),
{
    let texts = ts.map_values(|t: Token| text_of(t));
    if ts.len() > 0 {
        lemma_flat_is_joined(ts.drop_first());
        assert(texts.drop_first() =~= ts.drop_first().map_values(|t: Token| text_of(t)));
        assert(source_text(ts[0]) == text_of(ts[0]));
    }
}

/// Nothing of a SQL text is lost, added or moved between its elements.
pub proof fn law_elements_are_the_text(sql: Seq<char>)
    ensures
        flat(tokens(sql)) == sql,
{
    lemma_flat_is_joined(tokens(sql));
    law_tokens_cover_the_text(sql);
}

// ── Where an element ends ─────────────────────────────────────────────────────

pub open spec fn digit(c: char) -> bool {
    '0' <= c <= '9'
}

/// A character that a name can hold.
pub open spec fn name_char(c: char) -> bool {
    'a' <= c <= 'z' || 'A' <= c <= 'Z' || '0' <= c <= '9' || c == '_'
}

pub open spec fn operator(c: char) -> bool {
    seq!['=', '<', '>', '!', '+', '-', '*', '/', '%', '|', '&', '^', '~'].contains(c)
}

/// Two dollar signs with a name or nothing between.
pub open spec fn is_tag(x: Seq<char>) -> bool {
    &&& x.len() >= 2
    &&& x[0] == '$'
    &&& x.last() == '$'
    &&& forall|j: int| 0 < j < x.len() - 1 ==> name_char(#[trigger] x[j])
    &&& x.len() > 2 ==> !digit(x[1])
}

/// A line comment ends before the line feed.
pub open spec fn is_line_comment(s: Seq<char>, p: int, e: int) -> bool {
    &&& forall|j: int| p <= j < e ==> #[trigger] s[j] != '\n'
    &&& e < s.len() ==> s[e] == '\n'
}

/// A block comment ends behind the first `*/` in it, or is not closed.
pub open spec fn is_block_comment(s: Seq<char>, p: int, e: int) -> bool {
    ||| (p + 4 <= e && s[e - 2] == '*' && s[e - 1] == '/' && forall|j: int|
        p + 2 <= j < e - 2 ==> !(#[trigger] s[j] == '*' && s[j + 1] == '/'))
    ||| (e == s.len() && forall|j: int|
        p + 2 <= j < e - 1 ==> !(#[trigger] s[j] == '*' && s[j + 1] == '/'))
}

/// A quoted name ends behind the next quote of its kind, or is not closed.
pub open spec fn is_quoted_name(s: Seq<char>, p: int, e: int) -> bool {
    ||| (p + 2 <= e && s[e - 1] == s[p] && forall|j: int| p < j < e - 1 ==> #[trigger] s[j] != s[p])
    ||| (e == s.len() && forall|j: int| p < j < e ==> #[trigger] s[j] != s[p])
}

/// A dollar-quoted block ends behind the next occurrence of the tag that it starts with.
pub open spec fn is_dollar_block(s: Seq<char>, p: int, e: int, m: int) -> bool {
    &&& p < m
    &&& m + (m - p) <= e
    &&& is_tag(s.subrange(p, m))
    &&& occurs_at(s, e - (m - p), s.subrange(p, m))
    &&& forall|j: int| m <= j < e - (m - p) ==> !#[trigger] occurs_at(s, j, s.subrange(p, m))
}

/// No dollar-quoted block starts here: no tag that starts here occurs again.
pub open spec fn is_lone_dollar(s: Seq<char>, p: int) -> bool {
    forall|m: int, j: int|
        p < m <= s.len() && is_tag(#[trigger] s.subrange(p, m)) && m <= j ==> !#[trigger] occurs_at(
            s,
            j,
            s.subrange(p, m),
        )
}

/// A value with each of its quotes written twice.
pub open spec fn doubled(v: Seq<char>) -> Seq<char> {
    v.map_values(
        |c: char|
            if c == '\'' {
                seq!['\'', '\'']
            } else {
                seq![c]
            },
    ).flatten()
}

/// A string literal is the quoted form of a value, and no quote stands behind it; or it is
/// not closed.
pub open spec fn is_string(s: Seq<char>, p: int, e: int, v: Seq<char>) -> bool {
    ||| (s.subrange(p, e) == seq!['\''] + doubled(v) + seq!['\''] && (e < s.len() ==> s[e] != '\''))
    ||| (e == s.len() && s.subrange(p, e) == seq!['\''] + doubled(v))
}

/// A number takes in all digits and points that follow.
pub open spec fn is_number(s: Seq<char>, p: int, e: int) -> bool {
    &&& p < e
    &&& forall|j: int| p <= j < e ==> digit(#[trigger] s[j]) || s[j] == '.'
    &&& e < s.len() ==> !digit(s[e]) && s[e] != '.'
}

/// Whether a number may start with element `k`: not in the middle of a name.
pub open spec fn number_may_start(ts: Seq<Token>, k: int) -> bool {
    k == 0 || ts[k - 1] is Literal || !name_char(text_of(ts[k - 1]).last())
}

pub open spec fn is_space_element(t: Token) -> bool {
    t is Kept && text_of(t).len() == 1 && is_space(text_of(t)[0])
}

pub open spec fn is_operator_element(t: Token) -> bool {
    t is Kept && text_of(t).len() == 1 && operator(text_of(t)[0])
}

/// Whether a sign at element `k` belongs to the number behind it: an operator stands
/// before it, with nothing but spaces between.
pub open spec fn sign_may_start(ts: Seq<Token>, k: int) -> bool {
    exists|j: int|
        0 <= j < k && is_operator_element(#[trigger] ts[j]) && forall|x: int|
            j < x < k ==> is_space_element(#[trigger] ts[x])
}

pub open spec fn two(s: Seq<char>, p: int, a: char, b: char) -> bool {
    p + 1 < s.len() && s[p] == a && s[p + 1] == b
}

/// Whether the stretch of `s` from `p` to `e`, element `k` of `ts`, is one that is copied,
/// or a literal.
pub open spec fn is_element(s: Seq<char>, ts: Seq<Token>, k: int, p: int, e: int) -> bool {
    if two(s, p, '-', '-') {
        ts[k] is Kept && is_line_comment(s, p, e)
    } else if two(s, p, '/', '*') {
        ts[k] is Kept && is_block_comment(s, p, e)
    } else if s[p] == '$' {
        ts[k] is Kept && ((e == p + 1 && is_lone_dollar(s, p)) || exists|m: int|
            #[trigger] is_dollar_block(s, p, e, m))
    } else if s[p] == '"' || s[p] == '`' {
        ts[k] is Kept && is_quoted_name(s, p, e)
    } else if s[p] == '\'' {
        ts[k] is Literal && exists|v: Seq<char>| #[trigger] is_string(s, p, e, v)
    } else if digit(s[p]) && number_may_start(ts, k) {
        ts[k] is Literal && is_number(s, p, e)
    } else if (s[p] == '-' || s[p] == '+') && p + 1 < s.len() && digit(s[p + 1]) && sign_may_start(
        ts,
        k,
    ) {
        ts[k] is Literal && is_number(s, p + 1, e)
    } else {
        ts[k] is Kept && e == p + 1
    }
}

spec fn sign_before(ts: Seq<Token>, k: int) -> bool
    decreases k,
{
    if k <= 0 {
        false
    } else {
        match ts[k - 1] {
            Token::Kept { text } => text.len() == 1 && if is_space(text[0]) {
                sign_before(ts, k - 1)
            } else {
                crate::sanitize::is_operator(text[0])
            },
            Token::Literal { .. } => false,
        }
    }
}

proof fn lemma_operator(c: char)
    ensures
        crate::sanitize::is_operator(c) == operator(c),
        operator(c) ==> !is_space(c),
{
    let ops = seq!['=', '<', '>', '!', '+', '-', '*', '/', '%', '|', '&', '^', '~'];
    assert(ops[0] == '=' && ops[1] == '<' && ops[2] == '>' && ops[3] == '!' && ops[4] == '+'
        && ops[5] == '-' && ops[6] == '*' && ops[7] == '/' && ops[8] == '%' && ops[9] == '|'
        && ops[10] == '&' && ops[11] == '^' && ops[12] == '~');
}

proof fn lemma_sign_before(ts: Seq<Token>, k: int)
    requires
        0 <= k <= ts.len(),
    ensures
        sign_before(ts, k) == sign_may_start(ts, k),
    decreases k,
{
    if k > 0 {
        lemma_sign_before(ts, k - 1);
        let t = ts[k - 1];
        if text_of(t).len() == 1 {
            lemma_operator(text_of(t)[0]);
        }
        if is_space_element(t) {
            if sign_may_start(ts, k - 1) {
                let j = choose|j: int|
                    0 <= j < k - 1 && is_operator_element(#[trigger] ts[j]) && forall|x: int|
                        j < x < k - 1 ==> is_space_element(#[trigger] ts[x]);
                assert(is_operator_element(ts[j]));
            }
            if sign_may_start(ts, k) {
                let j = choose|j: int|
                    0 <= j < k && is_operator_element(#[trigger] ts[j]) && forall|x: int|
                        j < x < k ==> is_space_element(#[trigger] ts[x]);
                assert(j != k - 1);
                assert(is_operator_element(ts[j]));
            }
        } else if is_operator_element(t) {
            assert(is_operator_element(ts[k - 1]));
        } else {
            if sign_may_start(ts, k) {
                let j = choose|j: int|
                    0 <= j < k && is_operator_element(#[trigger] ts[j]) && forall|x: int|
                        j < x < k ==> is_space_element(#[trigger] ts[x]);
                assert(j == k - 1 || is_space_element(ts[k - 1]));
            }
        }
    }
}

/// Where element `k` starts, and what may start there.
proof fn lemma_at(s: Seq<char>, k: int) -> (r: (int, Place))
    requires
        0 <= k < tokens(s).len(),
    ensures
        0 <= r.0 < s.len(),
        flat(tokens(s).take(k)) == s.subrange(0, r.0),
        tokens_from(s, r.0, r.1) == tokens(s).skip(k),
        r.1.number == number_may_start(tokens(s), k),
        r.1.sign == sign_before(tokens(s), k),
    decreases k,
{
    let ts = tokens(s);
    if k == 0 {
        assert(flat(ts.take(0)) =~= s.subrange(0, 0));
        assert(ts.skip(0) =~= ts);
        (0, first_place())
    } else {
        let (p, place) = lemma_at(s, k - 1);
        let (literal, e, next) = lemma_first_token(s, p, place);
        assert(ts.skip(k - 1)[0] == ts[k - 1]);
        assert(ts.skip(k - 1).drop_first() =~= ts.skip(k));
        assert(tokens_from(s, e, next).len() > 0);
        let texts = ts.take(k - 1).map_values(|t: Token| text_of(t));
        assert(ts.take(k).map_values(|t: Token| text_of(t)) =~= texts.push(text_of(ts[k - 1])));
        texts.lemma_flatten_push(text_of(ts[k - 1]));
        assert(s.subrange(0, p) + s.subrange(p, e) =~= s.subrange(0, e));
        (e, next)
    }
}

proof fn lemma_block(s: Seq<char>, i: int)
    requires
        0 <= i <= s.len(),
    ensures
        ({
            let e = block_comment_end(s, i);
            ||| (i + 2 <= e <= s.len() && s[e - 2] == '*' && s[e - 1] == '/' && forall|j: int|
                i <= j < e - 2 ==> !(#[trigger] s[j] == '*' && s[j + 1] == '/'))
            ||| (e == s.len() && forall|j: int|
                i <= j < e - 1 ==> !(#[trigger] s[j] == '*' && s[j + 1] == '/'))
        }),
    decreases s.len() - i,
{
    if i + 1 < s.len() && !(s[i] == '*' && s[i + 1] == '/') {
        lemma_block(s, i + 1);
    }
}

proof fn lemma_number(s: Seq<char>, i: int)
    requires
        0 <= i <= s.len(),
    ensures
        i <= number_end(s, i) <= s.len(),
        forall|j: int| i <= j < number_end(s, i) ==> digit(#[trigger] s[j]) || s[j] == '.',
        number_end(s, i) < s.len() ==> !digit(s[number_end(s, i)]) && s[number_end(s, i)] != '.',
    decreases s.len() - i,
{
    if i < s.len() && (digit(s[i]) || s[i] == '.') {
        lemma_number(s, i + 1);
    }
}

proof fn lemma_doubled_first(c: char, v: Seq<char>)
    ensures
        doubled(seq![c] + v) == (if c == '\'' {
            seq!['\'', '\'']
        } else {
            seq![c]
        }) + doubled(v),
{
    let f = |c: char|
        if c == '\'' {
            seq!['\'', '\'']
        } else {
            seq![c]
        };
    let all = (seq![c] + v).map_values(f);
    assert(all.len() == 1 + v.len());
    assert(all[0] == f(c));
    assert(all.drop_first() =~= v.map_values(f));
    assert(all.flatten() == all.first() + all.drop_first().flatten());
}

proof fn lemma_string(s: Seq<char>, i: int) -> (v: Seq<char>)
    requires
        0 <= i <= s.len(),
    ensures
        ({
            let e = string_end(s, i);
            &&& i <= e <= s.len()
            &&& {
                ||| (i < e && s.subrange(i, e) == doubled(v) + seq!['\''] && (e < s.len() ==> s[e]
                    != '\''))
                ||| (e == s.len() && s.subrange(i, e) == doubled(v))
            }
        }),
    decreases s.len() - i,
{
    let e = string_end(s, i);
    if i >= s.len() {
        assert(s.subrange(i, e) =~= doubled(seq![]));
        seq![]
    } else if s[i] != '\'' {
        let v = lemma_string(s, i + 1);
        lemma_doubled_first(s[i], v);
        assert(s.subrange(i, e) =~= seq![s[i]] + s.subrange(i + 1, e));
        assert(seq![s[i]] + (doubled(v) + seq!['\'']) =~= seq![s[i]] + doubled(v) + seq!['\'']);
        seq![s[i]] + v
    } else if i + 1 < s.len() && s[i + 1] == '\'' {
        let v = lemma_string(s, i + 2);
        lemma_doubled_first(s[i], v);
        let q = seq!['\'', '\''];
        assert(s.subrange(i, e) =~= q + s.subrange(i + 2, e));
        assert(q + (doubled(v) + seq!['\'']) =~= q + doubled(v) + seq!['\'']);
        seq![s[i]] + v
    } else {
        assert(s.subrange(i, e) =~= doubled(seq![]) + seq!['\'']);
        seq![]
    }
}

proof fn lemma_tag(s: Seq<char>, start: int, j: int)
    requires
        0 <= start < j <= s.len(),
        s[start] == '$',
        forall|x: int| start < x < j ==> name_char(#[trigger] s[x]),
        start + 1 < j ==> !digit(s[start + 1]),
    ensures
        match tag_end(s, start, j) {
            Some(m) => j < m <= s.len() && is_tag(s.subrange(start, m)) && forall|x: int|
                start < x < m - 1 ==> s[x] != '$',
            None => forall|m: int| start < m <= s.len() ==> !is_tag(#[trigger] s.subrange(start, m)),
        },
    decreases s.len() - j,
{
    if j < s.len() && s[j] == '$' {
        let x = s.subrange(start, j + 1);
        assert(x.last() == s[j]);
        assert(x.len() > 2 ==> x[1] == s[start + 1]);
        assert forall|y: int| 0 < y < x.len() - 1 implies name_char(#[trigger] x[y]) by {
            assert(x[y] == s[start + y]);
        }
    } else if j < s.len() && crate::sanitize::is_tag_char(s[j], j == start + 1) {
        lemma_tag(s, start, j + 1);
    } else {
        assert forall|m: int| start < m <= s.len() implies !is_tag(
            #[trigger] s.subrange(start, m),
        ) by {
            let x = s.subrange(start, m);
            if is_tag(x) {
                assert(x.last() == s[m - 1]);
                if m - 1 < j {
                    assert(start < m - 1);
                    assert(name_char(s[m - 1]));
                } else if m - 1 == j {
                } else {
                    assert(x[j - start] == s[j]);
                    assert(x[1] == s[start + 1]);
                    assert(name_char(x[j - start]));
                }
            }
        }
    }
}

proof fn lemma_find_first(s: Seq<char>, i: int, needle: Seq<char>, j: int)
    requires
        i <= j,
        find_seq(s, i, needle) matches Some(p) ==> j < p,
    ensures
        !occurs_at(s, j, needle),
    decreases s.len() + 1 - i,
{
    if i <= s.len() && !occurs_at(s, i, needle) && i < j {
        lemma_find_first(s, i + 1, needle, j);
    }
}

pub proof fn lemma_dollar(s: Seq<char>, p: int) -> (r: int)
    requires
        0 <= p < s.len(),
        s[p] == '$',
    ensures
        tag_end(s, p, p + 1) matches Some(m) ==> r == m,
        dollar_block_end(s, p) matches Some(e) ==> is_dollar_block(s, p, e, r),
        dollar_block_end(s, p) is None ==> is_lone_dollar(s, p),
{
    lemma_tag(s, p, p + 1);
    match tag_end(s, p, p + 1) {
        Some(m) => {
            let tag = s.subrange(p, m);
            lemma_find_seq_bound(s, m, tag);
            match find_seq(s, m, tag) {
                Some(close) => {
                    let e = close + (m - p);
                    assert forall|j: int| m <= j < e - (m - p) implies !#[trigger] occurs_at(
                        s,
                        j,
                        tag,
                    ) by {
                        lemma_find_first(s, m, tag, j);
                    }
                },
                None => {
                    assert forall|n: int, j: int|
                        p < n <= s.len() && is_tag(#[trigger] s.subrange(p, n)) && n
                            <= j implies !#[trigger] occurs_at(s, j, s.subrange(p, n)) by {
                        let x = s.subrange(p, n);
                        assert(x.last() == s[n - 1]);
                        assert(n - 1 > p);
                        if n < m {
                            assert(s[n - 1] != '$');
                        }
                        if n > m {
                            assert(tag.last() == s[m - 1]);
                            assert(x[m - 1 - p] == s[m - 1]);
                            assert(name_char(x[m - 1 - p]));
                        }
                        lemma_find_first(s, m, tag, j);
                    }
                },
            }
            m
        },
        None => p,
    }
}

/// Each element of a SQL text ends where its kind says, and is copied or replaced as its
/// kind says: a line comment ends before its line feed, a block comment behind its first
/// `*/`, a quoted name behind the next quote of its kind, a dollar-quoted block behind the
/// next occurrence of its tag. A string literal is the whole quoted form of a value, and a
/// number takes in all its digits, with the sign that an operator leaves to it. All else is
/// copied character by character.
pub proof fn law_elements_end_where_their_kind_says(sql: Seq<char>, k: int) -> (r: (int, int))
    requires
        0 <= k < tokens(sql).len(),
    ensures
        r.0 == flat(tokens(sql).take(k)).len(),
        r.1 == r.0 + text_of(tokens(sql)[k]).len(),
        0 <= r.0 < r.1 <= sql.len(),
        text_of(tokens(sql)[k]) == sql.subrange(r.0, r.1),
        is_element(sql, tokens(sql), k, r.0, r.1),
{
    let ts = tokens(sql);
    let s = sql;
    let (p, place) = lemma_at(sql, k);
    lemma_sign_before(ts, k);
    let (literal, e, next) = lemma_first_token(sql, p, place);
    assert(ts.skip(k)[0] == ts[k]);
    lemma_skip_until_stop(s, p, '\n');
    lemma_skip_until_stop(s, p + 1, s[p]);
    if p + 2 <= s.len() {
        lemma_block(s, p + 2);
    }
    lemma_number(s, p + 1);
    if s[p] == '$' {
        let m = lemma_dollar(s, p);
        assert(dollar_block_end(s, p) is Some ==> is_dollar_block(s, p, e, m));
    }
    if s[p] == '\'' {
        let v = lemma_string(s, p + 1);
        assert(s.subrange(p, e) =~= seq!['\''] + s.subrange(p + 1, e));
        assert(seq!['\''] + (doubled(v) + seq!['\'']) =~= seq!['\''] + doubled(v) + seq!['\'']);
        assert(is_string(s, p, e, v));
    }
    (p, e)
}

/// A quoted name holds the quote that it starts with at most once more, and only at its end:
/// what stands behind the closing quote is read anew.
pub proof fn law_quoted_names_hold_no_further_quote(sql: Seq<char>, k: int, j: int)
    requires
        0 <= k < tokens(sql).len(),
        text_of(tokens(sql)[k])[0] == '"' || text_of(tokens(sql)[k])[0] == '`',
        0 < j < text_of(tokens(sql)[k]).len(),
        text_of(tokens(sql)[k])[j] == text_of(tokens(sql)[k])[0],
    ensures
        tokens(sql)[k] is Kept,
        j == text_of(tokens(sql)[k]).len() - 1,
{
    let (p, e) = law_elements_end_where_their_kind_says(sql, k);
    let text = text_of(tokens(sql)[k]);
    assert(text[0] == sql[p]);
    assert(text[j] == sql[p + j]);
}

/// What stands behind a closed comment, block or quoted name is read anew: where the elements
/// before end at a quotation mark, or at a digit that is not part of a name, the next element
/// is a literal, and it starts right there.
pub proof fn law_literals_behind_other_elements_are_replaced(sql: Seq<char>, k: int)
    requires
        0 <= k < tokens(sql).len(),
        ({
            let c = sql[flat(tokens(sql).take(k)).len() as int];
            c == '\'' || (digit(c) && (k == 0 || !name_char(text_of(tokens(sql)[k - 1]).last())))
        }),
    ensures
        tokens(sql)[k] is Literal,
        text_of(tokens(sql)[k])[0] == sql[flat(tokens(sql).take(k)).len() as int],
{
    let (p, e) = law_elements_end_where_their_kind_says(sql, k);
}

// ── What stands for an element ────────────────────────────────────────────────

/// The number of literals among the elements.
pub open spec fn literals(ts: Seq<Token>) -> nat {
    ts.filter(|t: Token| t is Literal).len()
}

/// What stands for element `k`: its own text, or the placeholder of the literal, numbered
/// from `n + 1` on where the dialect numbers them.
pub open spec fn stand_in(ts: Seq<Token>, k: int, mysql: bool, n: nat) -> Seq<char> {
    if ts[k] is Kept {
        text_of(ts[k])
    } else if mysql {
        seq!['?']
    } else {
        seq!['$'] + decimal(n + literals(ts.take(k + 1)))
    }
}

pub open spec fn stand_ins(ts: Seq<Token>, mysql: bool, n: nat) -> Seq<Seq<char>> {
    Seq::new(ts.len(), |k: int| stand_in(ts, k, mysql, n))
}

proof fn lemma_literals_first(ts: Seq<Token>)
    requires
        ts.len() > 0,
    ensures
        literals(ts) == literals(ts.drop_first()) + (if ts[0] is Literal {
            1nat
        } else {
            0nat
        }),
    decreases ts.len(),
{
    reveal(Seq::filter);
    if ts.len() > 1 {
        lemma_literals_first(ts.drop_last());
        assert(ts.drop_first().drop_last() =~= ts.drop_last().drop_first());
    } else {
        assert(literals(ts.drop_first()) == 0);
        assert(literals(ts.drop_last()) == 0);
    }
}

proof fn lemma_render(ts: Seq<Token>, dialect: Seq<char>, n: nat)
    ensures
        render(ts, style_of(dialect), n) == stand_ins(ts, dialect == "mysql"@, n).flatten(),
    decreases ts.len(),
{
    let mysql = dialect == "mysql"@;
    let all = stand_ins(ts, mysql, n);
    if ts.len() > 0 {
        let rest = ts.drop_first();
        let m = if ts[0] is Literal {
            n + 1
        } else {
            n
        };
        lemma_render(rest, dialect, m);
        assert forall|k: int| 0 <= k < rest.len() implies all[k + 1] == #[trigger] stand_ins(
            rest,
            mysql,
            m,
        )[k] by {
            lemma_literals_first(ts.take(k + 2));
            assert(ts.take(k + 2).drop_first() =~= rest.take(k + 1));
            assert(rest[k] == ts[k + 1]);
        }
        assert(all.drop_first() =~= stand_ins(rest, mysql, m));
        assert(all.flatten() == all.first() + all.drop_first().flatten());
        if ts[0] is Literal {
            lemma_literals_first(ts.take(1));
            reveal(Seq::filter);
            assert(literals(ts.take(1).drop_first()) == 0);
            assert(literals(ts.take(1)) == 1);
        }
    }
}

/// The sanitized text is the elements one behind the other: what is copied as it stands,
/// and for the literals `?` in MySQL and `$1`, `$2`, ... in turn everywhere else.
pub proof fn law_literals_are_replaced_in_turn(sql: Seq<char>, dialect: Seq<char>)
    ensures
        sanitized(sql, dialect) == Seq::new(
            tokens(sql).len(),
            |k: int|
                if tokens(sql)[k] is Kept {
                    text_of(tokens(sql)[k])
                } else if dialect == "mysql"@ {
                    seq!['?']
                } else {
                    seq!['$'] + decimal(literals(tokens(sql).take(k + 1)))
                },
        ).flatten(),
{
    let ts = tokens(sql);
    lemma_render(ts, dialect, 0);
    assert(stand_ins(ts, dialect == "mysql"@, 0) =~= Seq::new(
        tokens(sql).len(),
        |k: int|
            if tokens(sql)[k] is Kept {
                text_of(tokens(sql)[k])
            } else if dialect == "mysql"@ {
                seq!['?']
            } else {
                seq!['$'] + decimal(literals(tokens(sql).take(k + 1)))
            },
    ));
}

} // verus!
