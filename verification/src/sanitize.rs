//! Client-side literal sanitization.
//!
//! When a workspace is in `sanitized` telemetry mode, literal values are replaced
//! by placeholders before anything is sent, so raw values never leave the machine.
//! The pass is lexical and conservative: string literals `'...'` and numeric
//! literals, with a leading sign behind an operator, are replaced; comments,
//! dollar-quoted blocks, quoted identifiers and all other text are copied as they
//! stand. The placeholder is dialect-aware, so that the result still parses: `?` for
//! MySQL, `$1, $2, ...` for everything else.
use vstd::prelude::*;
use crate::text::{copy_chars, decimal, decimal_text, digit_char, find_from, find_seq, from_chars, is_digit, is_letter, is_space, lemma_find_seq_bound, lemma_skip_until_at, lemma_skip_until_bound, lemma_skip_until_stop, letter_char, occurs_at, same_text, scan_until, skip_until, space_char, to_chars};

verus! {

/// How a placeholder is rendered.
#[derive(Clone, Copy, Debug, PartialEq, Eq, Structural)]
pub enum Placeholder {
    /// `$1, $2, ...`
    Numbered,
    /// `?`
    Question,
}

/// A lexical element of a SQL text: copied as it stands, or a literal.
pub enum Token {
    Kept { text: Seq<char> },
    Literal { text: Seq<char> },
}

pub open spec fn style_of(dialect: Seq<char>) -> Placeholder {
    if dialect == "mysql"@ {
        Placeholder::Question
    } else {
        Placeholder::Numbered
    }
}

// ── Lexical structure ─────────────────────────────────────────────────────────

/// The end of a block comment whose body starts at `i`: behind `*/`, or the end of
/// the text where the comment is not closed.
pub open spec fn block_comment_end(s: Seq<char>, i: int) -> int
    decreases s.len() - i,
{
    if i + 1 >= s.len() {
        s.len() as int
    } else if s[i] == '*' && s[i + 1] == '/' {
        i + 2
    } else {
        block_comment_end(s, i + 1)
    }
}

/// The end of a quoted name whose body starts at `i`: behind the closing quote, or
/// the end of the text.
pub open spec fn quoted_end(s: Seq<char>, i: int, quote: char) -> int {
    let close = skip_until(s, i, quote);
    if close < s.len() {
        close + 1
    } else {
        close
    }
}

/// The end of a string literal whose body starts at `i`; `''` stands for a quote.
pub open spec fn string_end(s: Seq<char>, i: int) -> int
    decreases s.len() - i,
{
    if i >= s.len() {
        i
    } else if s[i] != '\'' {
        string_end(s, i + 1)
    } else if i + 1 < s.len() && s[i + 1] == '\'' {
        string_end(s, i + 2)
    } else {
        i + 1
    }
}

/// The end of a run of digits and decimal points.
pub open spec fn number_end(s: Seq<char>, i: int) -> int
    decreases s.len() - i,
{
    if i < s.len() && (is_digit(s[i]) || s[i] == '.') {
        number_end(s, i + 1)
    } else {
        i
    }
}

pub open spec fn is_tag_char(c: char, first: bool) -> bool {
    c == '_' || is_letter(c) || (!first && is_digit(c))
}

/// Reads the rest of a dollar-quote tag that opened at `start`: the position behind
/// its second `$`, where the characters between are `[A-Za-z_][A-Za-z0-9_]*` or none.
pub open spec fn tag_end(s: Seq<char>, start: int, j: int) -> Option<int>
    decreases s.len() - j,
{
    if j >= s.len() {
        None
    } else if s[j] == '$' {
        Some(j + 1)
    } else if is_tag_char(s[j], j == start + 1) {
        tag_end(s, start, j + 1)
    } else {
        None
    }
}

/// The end of the dollar-quoted block that opens at `i`, where there is one: an
/// opening tag and, further on, the same tag again.
pub open spec fn dollar_block_end(s: Seq<char>, i: int) -> Option<int> {
    match tag_end(s, i, i + 1) {
        Some(e) => match find_seq(s, e, s.subrange(i, e)) {
            Some(close) => Some(close + (e - i)),
            None => None,
        },
        None => None,
    }
}

/// Whether a numeric literal may start behind `c`: not inside a name like `col2`.
pub open spec fn is_boundary(c: char) -> bool {
    !(is_letter(c) || is_digit(c) || c == '_')
}

/// Whether a sign behind `c` belongs to the number that follows it.
pub open spec fn is_operator(c: char) -> bool {
    c == '=' || c == '<' || c == '>' || c == '!' || c == '+' || c == '-' || c == '*' || c == '/'
        || c == '%' || c == '|' || c == '&' || c == '^' || c == '~'
}

/// What may start at a place, by what stands before it: a number, or the sign of one.
#[derive(Clone, Copy, Debug, PartialEq, Eq, Structural)]
pub struct Place {
    pub number: bool,
    pub sign: bool,
}

/// The beginning of a text: a number may start there.
pub open spec fn first_place() -> Place {
    Place { number: true, sign: false }
}

/// The place behind a text that was copied. Spaces do not part a sign from the operator
/// before it.
pub open spec fn place_behind(text: Seq<char>, before: Place) -> Place {
    Place {
        number: is_boundary(text.last()),
        sign: text.len() == 1 && if is_space(text[0]) {
            before.sign
        } else {
            is_operator(text[0])
        },
    }
}

/// The place behind a literal: another number may start there.
pub open spec fn place_behind_literal() -> Place {
    Place { number: true, sign: false }
}

/// What starts at `i`: whether it is a literal, and where it ends. `place` says what may
/// start here.
pub open spec fn element(s: Seq<char>, i: int, place: Place) -> (bool, int) {
    if s[i] == '-' && i + 1 < s.len() && s[i + 1] == '-' {
        (false, skip_until(s, i, '\n'))
    } else if s[i] == '/' && i + 1 < s.len() && s[i + 1] == '*' {
        (false, block_comment_end(s, i + 2))
    } else if s[i] == '$' {
        match dollar_block_end(s, i) {
            Some(e) => (false, e),
            None => (false, i + 1),
        }
    } else if s[i] == '"' || s[i] == '`' {
        (false, quoted_end(s, i + 1, s[i]))
    } else if s[i] == '\'' {
        (true, string_end(s, i + 1))
    } else if is_digit(s[i]) && place.number {
        (true, number_end(s, i + 1))
    } else if (s[i] == '-' || s[i] == '+') && place.sign && i + 1 < s.len() && is_digit(s[i + 1]) {
        (true, number_end(s, i + 1))
    } else {
        (false, i + 1)
    }
}

/// The elements of `s` from `i` on.
pub open spec fn tokens_from(s: Seq<char>, i: int, place: Place) -> Seq<Token>
    decreases s.len() - i,
{
    if 0 <= i < s.len() && i < element(s, i, place).1 <= s.len() {
        let (literal, end) = element(s, i, place);
        let text = s.subrange(i, end);
        if literal {
            seq![Token::Literal { text }] + tokens_from(s, end, place_behind_literal())
        } else {
            seq![Token::Kept { text }] + tokens_from(s, end, place_behind(text, place))
        }
    } else {
        seq![]
    }
}

/// The elements of a SQL text.
pub open spec fn tokens(sql: Seq<char>) -> Seq<Token> {
    tokens_from(sql, 0, first_place())
}

/// The `n`th placeholder, counted from one.
pub open spec fn placeholder(style: Placeholder, n: nat) -> Seq<char> {
    match style {
        Placeholder::Question => seq!['?'],
        Placeholder::Numbered => seq!['$'] + decimal(n),
    }
}

/// The text of the elements, each literal replaced by its placeholder; `n`
/// placeholders stand before them.
pub open spec fn render(ts: Seq<Token>, style: Placeholder, n: nat) -> Seq<char>
    decreases ts.len(),
{
    if ts.len() == 0 {
        seq![]
    } else {
        match ts[0] {
            Token::Kept { text } => text + render(ts.drop_first(), style, n),
            Token::Literal { .. } => placeholder(style, n + 1) + render(
                ts.drop_first(),
                style,
                n + 1,
            ),
        }
    }
}

/// The sanitized form of a SQL text.
pub open spec fn sanitized(sql: Seq<char>, dialect: Seq<char>) -> Seq<char> {
    render(tokens(sql), style_of(dialect), 0)
}

// ── Scanning ──────────────────────────────────────────────────────────────────

pub fn placeholder_style(dialect: &str) -> (r: Placeholder)
    ensures
        r == style_of(dialect@),
{
    if same_text(dialect, "mysql") {
        Placeholder::Question
    } else {
        Placeholder::Numbered
    }
}

/// Whether the character just emitted allows a numeric literal to start here.
pub fn prev_is_boundary(out: &[char]) -> (r: bool)
    ensures
        r == (out@.len() == 0 || is_boundary(out@.last())),
{
    if out.len() == 0 {
        return true;
    }
    let p = out[out.len() - 1];
    !(letter_char(p) || digit_char(p) || p == '_')
}

/// If `s[start]` begins a dollar-quote tag (`$$` or `$tag$`), the position behind it.
pub fn dollar_tag(s: &[char], start: usize) -> (r: Option<usize>)
    requires
        start < s@.len(),
    ensures
        match r {
            Some(e) => tag_end(s@, start as int, start + 1) == Some(e as int) && start + 1 < e
                <= s@.len(),
            None => tag_end(s@, start as int, start + 1) is None,
        },
{
    let n: usize = s.len();
    let mut j: usize = start + 1;
    while j < n
        invariant
            n == s@.len(),
            start < j <= n,
            tag_end(s@, start as int, start + 1) == tag_end(s@, start as int, j as int),
        decreases s@.len() - j,
    {
        let c = s[j];
        if c == '$' {
            return Some(j + 1);
        }
        if !(c == '_' || letter_char(c) || (j > start + 1 && digit_char(c))) {
            return None;
        }
        j = j + 1;
    }
    None
}

fn scan_block_comment(s: &[char], from: usize) -> (r: usize)
    requires
        0 < from <= s@.len(),
    ensures
        r == block_comment_end(s@, from as int),
        from <= r <= s@.len(),
{
    let mut i: usize = from;
    while i < s.len() - 1
        invariant
            from <= i <= s@.len(),
            s@.len() > 0,
            block_comment_end(s@, from as int) == block_comment_end(s@, i as int),
        decreases s@.len() - i,
    {
        if s[i] == '*' && s[i + 1] == '/' {
            return i + 2;
        }
        i = i + 1;
    }
    s.len()
}

fn scan_string(s: &[char], from: usize) -> (r: usize)
    requires
        from <= s@.len(),
    ensures
        r == string_end(s@, from as int),
        from <= r <= s@.len(),
{
    let mut i: usize = from;
    while i < s.len()
        invariant
            from <= i <= s@.len(),
            string_end(s@, from as int) == string_end(s@, i as int),
        decreases s@.len() - i,
    {
        if s[i] != '\'' {
            i = i + 1;
        } else if i < s.len() - 1 && s[i + 1] == '\'' {
            i = i + 2;
        } else {
            return i + 1;
        }
    }
    i
}

fn scan_number(s: &[char], from: usize) -> (r: usize)
    requires
        from <= s@.len(),
    ensures
        r == number_end(s@, from as int),
        from <= r <= s@.len(),
{
    let mut i: usize = from;
    while i < s.len() && (digit_char(s[i]) || s[i] == '.')
        invariant
            from <= i <= s@.len(),
            number_end(s@, from as int) == number_end(s@, i as int),
        decreases s@.len() - i,
    {
        i = i + 1;
    }
    i
}

/// What starts at `i`: whether it is a literal, and where it ends.
fn scan_element(s: &[char], i: usize, place: Place) -> (r: (bool, usize))
    requires
        i < s@.len(),
    ensures
        (r.0, r.1 as int) == element(s@, i as int, place),
        i < r.1 <= s@.len(),
{
    let c = s[i];
    let next: Option<char> = if i < s.len() - 1 {
        Some(s[i + 1])
    } else {
        None
    };
    if c == '-' && next == Some('-') {
        let end = scan_until(s, i, '\n');
        assert(skip_until(s@, i as int, '\n') == skip_until(s@, i + 1, '\n'));
        assert(i < end) by {
            reveal_with_fuel(skip_until, 2);
            lemma_skip_until_bound(s@, i + 1, '\n');
        }
        (false, end)
    } else if c == '/' && next == Some('*') {
        (false, scan_block_comment(s, i + 2))
    } else if c == '$' {
        if let Some(tag) = dollar_tag(s, i) {
            let name = vstd::slice::slice_subrange(s, i, tag);
            if let Some(close) = find_from(s, tag, name) {
                return (false, close + (tag - i));
            }
        }
        (false, i + 1)
    } else if c == '"' || c == '`' {
        let close = scan_until(s, i + 1, c);
        (false, if close < s.len() {
            close + 1
        } else {
            close
        })
    } else if c == '\'' {
        (true, scan_string(s, i + 1))
    } else if digit_char(c) && place.number {
        (true, scan_number(s, i + 1))
    } else if (c == '-' || c == '+') && place.sign && i < s.len() - 1 && digit_char(s[i + 1]) {
        (true, scan_number(s, i + 1))
    } else {
        (false, i + 1)
    }
}

fn operator_char(c: char) -> (r: bool)
    ensures
        r == is_operator(c),
{
    c == '=' || c == '<' || c == '>' || c == '!' || c == '+' || c == '-' || c == '*' || c == '/'
        || c == '%' || c == '|' || c == '&' || c == '^' || c == '~'
}

/// The place behind the element `i..end`.
fn next_place(s: &[char], i: usize, end: usize, place: Place, literal: bool) -> (r: Place)
    requires
        i < end <= s@.len(),
    ensures
        r == (if literal {
            place_behind_literal()
        } else {
            place_behind(s@.subrange(i as int, end as int), place)
        }),
{
    if literal {
        return Place { number: true, sign: false };
    }
    Place {
        number: prev_is_boundary(vstd::slice::slice_subrange(s, i, end)),
        sign: end - i == 1 && if space_char(s[i]) {
            place.sign
        } else {
            operator_char(s[i])
        },
    }
}

/// Returns the SQL with string and numeric literals replaced by dialect-correct
/// placeholders (`?` for MySQL, `$N` for everything else).
pub fn sanitize(sql: &str, dialect: &str) -> (r: String)
    ensures
        r@ == sanitized(sql@, dialect@),
{
    let style = placeholder_style(dialect);
    let chars = to_chars(sql);
    let s = chars.as_slice();
    let mut out: Vec<char> = Vec::new();
    let mut counter: u64 = 0;
    let mut i: usize = 0;
    let mut place = Place { number: true, sign: false };
    while i < s.len()
        invariant
            i <= s@.len(),
            counter <= i,
            s@ == sql@,
            style == style_of(dialect@),
            out@ + render(tokens_from(s@, i as int, place), style, counter as nat)
                == sanitized(sql@, dialect@),
        decreases s@.len() - i,
    {
        let (literal, end) = scan_element(s, i, place);
        let ghost rest = tokens_from(s@, end as int, if literal {
            place_behind_literal()
        } else {
            place_behind(s@.subrange(i as int, end as int), place)
        });
        let ghost here = tokens_from(s@, i as int, place);
        proof {
            assert(here.len() > 0);
            assert(here.drop_first() =~= rest);
        }
        let ghost before = out@;
        if literal {
            counter = counter + 1;
            match style {
                Placeholder::Question => {
                    out.push('?');
                    assert(out@ =~= before + placeholder(style, counter as nat));
                },
                Placeholder::Numbered => {
                    out.push('$');
                    let number = to_chars(decimal_text(counter as u128).as_str());
                    copy_chars(&mut out, number.as_slice(), 0, number.len());
                    assert(out@ =~= before + placeholder(style, counter as nat));
                },
            }
        } else {
            copy_chars(&mut out, s, i, end);
        }
        place = next_place(s, i, end, place, literal);
        proof {
            assert(out@ + render(rest, style, counter as nat) =~= sanitized(sql@, dialect@));
        }
        i = end;
    }
    assert(out@ =~= sanitized(sql@, dialect@));
    from_chars(out.as_slice())
}

// ── Laws ──────────────────────────────────────────────────────────────────────

/// The text that an element was read from.
pub open spec fn source_text(t: Token) -> Seq<char> {
    match t {
        Token::Kept { text } => text,
        Token::Literal { text } => text,
    }
}

/// The texts of the elements, one behind the other.
pub open spec fn joined(ts: Seq<Token>) -> Seq<char>
    decreases ts.len(),
{
    if ts.len() == 0 {
        seq![]
    } else {
        source_text(ts[0]) + joined(ts.drop_first())
    }
}

/// An element with the contents of a literal taken out.
pub open spec fn mask(t: Token) -> Token {
    match t {
        Token::Kept { text } => Token::Kept { text },
        Token::Literal { .. } => Token::Literal { text: Seq::<char>::empty() },
    }
}

/// The elements with the contents of every literal taken out.
pub open spec fn masked(ts: Seq<Token>) -> Seq<Token> {
    ts.map_values(|t: Token| mask(t))
}

proof fn lemma_string_end_bound(s: Seq<char>, i: int)
    requires
        i <= s.len(),
    ensures
        i <= string_end(s, i) <= s.len(),
    decreases s.len() - i,
{
    if i < s.len() {
        if s[i] != '\'' {
            lemma_string_end_bound(s, i + 1);
        } else if i + 1 < s.len() && s[i + 1] == '\'' {
            lemma_string_end_bound(s, i + 2);
        }
    }
}

proof fn lemma_number_end_bound(s: Seq<char>, i: int)
    requires
        i <= s.len(),
    ensures
        i <= number_end(s, i) <= s.len(),
    decreases s.len() - i,
{
    if i < s.len() && (is_digit(s[i]) || s[i] == '.') {
        lemma_number_end_bound(s, i + 1);
    }
}

proof fn lemma_block_comment_end_bound(s: Seq<char>, i: int)
    requires
        i <= s.len(),
    ensures
        i <= block_comment_end(s, i) <= s.len(),
    decreases s.len() - i,
{
    if i + 1 < s.len() && !(s[i] == '*' && s[i + 1] == '/') {
        lemma_block_comment_end_bound(s, i + 1);
    }
}

proof fn lemma_tag_end_bound(s: Seq<char>, start: int, j: int)
    ensures
        tag_end(s, start, j) matches Some(e) ==> j < e <= s.len(),
    decreases s.len() - j,
{
    if j < s.len() && s[j] != '$' && is_tag_char(s[j], j == start + 1) {
        lemma_tag_end_bound(s, start, j + 1);
    }
}

/// An element is never empty and never reaches behind the end of the text.
proof fn lemma_element_bound(s: Seq<char>, i: int, place: Place)
    requires
        0 <= i < s.len(),
    ensures
        i < element(s, i, place).1 <= s.len(),
{
    lemma_skip_until_bound(s, i + 1, '\n');
    lemma_skip_until_bound(s, i + 1, s[i]);
    lemma_string_end_bound(s, i + 1);
    lemma_number_end_bound(s, i + 1);
    if i + 1 < s.len() {
        lemma_block_comment_end_bound(s, i + 2);
    }
    lemma_tag_end_bound(s, i, i + 1);
    if let Some(e) = tag_end(s, i, i + 1) {
        lemma_find_seq_bound(s, e, s.subrange(i, e));
    }
}

pub proof fn lemma_joined_from(s: Seq<char>, i: int, place: Place)
    requires
        0 <= i <= s.len(),
    ensures
        joined(tokens_from(s, i, place)) == s.subrange(i, s.len() as int),
    decreases s.len() - i,
{
    let here = tokens_from(s, i, place);
    if i < s.len() {
        lemma_element_bound(s, i, place);
        let (literal, end) = element(s, i, place);
        let next = if literal {
            place_behind_literal()
        } else {
            place_behind(s.subrange(i, end), place)
        };
        lemma_joined_from(s, end, next);
        assert(here.drop_first() =~= tokens_from(s, end, next));
        assert(s.subrange(i, end) + s.subrange(end, s.len() as int) =~= s.subrange(
            i,
            s.len() as int,
        ));
    } else {
        assert(s.subrange(i, s.len() as int) =~= seq![]);
    }
}

/// Nothing is lost between the elements: put one behind the other they are the SQL text.
pub proof fn law_tokens_cover_the_text(sql: Seq<char>)
    ensures
        joined(tokens(sql)) == sql,
{
    lemma_joined_from(sql, 0, first_place());
    assert(sql.subrange(0, sql.len() as int) =~= sql);
}

proof fn lemma_render_masked(a: Seq<Token>, b: Seq<Token>, style: Placeholder, n: nat)
    requires
        masked(a) == masked(b),
    ensures
        render(a, style, n) == render(b, style, n),
    decreases a.len(),
{
    assert(masked(a).len() == a.len() && masked(b).len() == b.len());
    if a.len() > 0 {
        assert(masked(a)[0] == mask(a[0]) && masked(b)[0] == mask(b[0]));
        assert(masked(a.drop_first()) =~= masked(a).drop_first());
        assert(masked(b.drop_first()) =~= masked(b).drop_first());
        lemma_render_masked(a.drop_first(), b.drop_first(), style, n);
        lemma_render_masked(a.drop_first(), b.drop_first(), style, n + 1);
    }
}

/// Raw values do not leave the machine: two SQL texts that differ only in the
/// contents of their literals have the same sanitized form.
pub proof fn law_sanitized_hides_literals(a: Seq<char>, b: Seq<char>, dialect: Seq<char>)
    requires
        masked(tokens(a)) == masked(tokens(b)),
    ensures
        sanitized(a, dialect) == sanitized(b, dialect),
{
    lemma_render_masked(
        tokens(a),
        tokens(b),
        style_of(dialect),
        0,
    );
}

proof fn lemma_render_without_literals(ts: Seq<Token>, style: Placeholder, n: nat)
    requires
        forall|k: int| 0 <= k < ts.len() ==> ts[k] is Kept,
    ensures
        render(ts, style, n) == joined(ts),
    decreases ts.len(),
{
    if ts.len() > 0 {
        lemma_render_without_literals(ts.drop_first(), style, n);
    }
}

/// Structure is preserved: a SQL text without literals is sent as it stands.
pub proof fn law_sanitized_keeps_text_without_literals(sql: Seq<char>, dialect: Seq<char>)
    requires
        forall|k: int|
            0 <= k < tokens(sql).len() ==> tokens(sql)[k] is Kept,
    ensures
        sanitized(sql, dialect) == sql,
{
    lemma_render_without_literals(tokens(sql), style_of(dialect), 0);
    law_tokens_cover_the_text(sql);
}

/// Whether a text is one of the blocks that are copied as they stand: a comment, a
/// dollar-quoted block or a quoted name.
pub open spec fn is_protected(text: Seq<char>) -> bool {
    text.len() >= 1 && (text[0] == '$' || text[0] == '"' || text[0] == '`' || (text.len() >= 2 && ((
    text[0] == '-' && text[1] == '-') || (text[0] == '/' && text[1] == '*'))))
}

/// Whether a text starts as a literal does: with a quote, a digit, or a sign and a digit.
pub open spec fn opens_literal(text: Seq<char>) -> bool {
    text.len() >= 1 && (text[0] == '\'' || is_digit(text[0]) || (text.len() >= 2 && (text[0] == '-'
        || text[0] == '+') && is_digit(text[1])))
}

proof fn lemma_kept_from(s: Seq<char>, i: int, place: Place, k: int)
    requires
        0 <= i <= s.len(),
        0 <= k < tokens_from(s, i, place).len(),
    ensures
        match tokens_from(s, i, place)[k] {
            Token::Kept { text } => is_protected(text) || (text.len() == 1 && text[0] != '\''),
            Token::Literal { text } => opens_literal(text),
        },
    decreases s.len() - i,
{
    if i < s.len() {
        lemma_element_bound(s, i, place);
        let (literal, end) = element(s, i, place);
        let next = if literal {
            place_behind_literal()
        } else {
            place_behind(s.subrange(i, end), place)
        };
        if k == 0 {
            lemma_skip_until_bound(s, i + 1, '\n');
            if i + 1 < s.len() {
                lemma_skip_until_bound(s, i + 2, '\n');
                lemma_block_comment_end_bound(s, i + 2);
                lemma_number_end_bound(s, i + 2);
            }
        } else {
            lemma_kept_from(s, end, next, k - 1);
            assert(tokens_from(s, i, place)[k] == tokens_from(s, end, next)[k - 1]);
        }
    }
}

/// A quote opens a literal everywhere but inside a comment, a dollar-quoted block or
/// a quoted name: what is copied outside those is single characters other than `'`,
/// and every literal starts with a quote or a number.
pub proof fn law_quotes_are_never_copied(sql: Seq<char>, k: int)
    requires
        0 <= k < tokens(sql).len(),
    ensures
        match tokens(sql)[k] {
            Token::Kept { text } => is_protected(text) || (text.len() == 1 && text[0] != '\''),
            Token::Literal { text } => opens_literal(text),
        },
{
    lemma_kept_from(sql, 0, first_place(), k);
}

proof fn lemma_copied_digits_from(s: Seq<char>, i: int, place: Place, k: int)
    requires
        0 <= i <= s.len(),
        0 <= k < tokens_from(s, i, place).len(),
        is_copied_digit(tokens_from(s, i, place)[k]),
    ensures
        if k == 0 {
            !place.number
        } else {
            ends_in_a_name(tokens_from(s, i, place)[k - 1])
        },
    decreases s.len() - i,
{
    if i < s.len() {
        lemma_element_bound(s, i, place);
        let (literal, end) = element(s, i, place);
        let next = if literal {
            place_behind_literal()
        } else {
            place_behind(s.subrange(i, end), place)
        };
        let rest = tokens_from(s, end, next);
        let here = tokens_from(s, i, place);
        if k > 0 {
            assert(here[k] == rest[k - 1]);
            lemma_copied_digits_from(s, end, next, k - 1);
            if k > 1 {
                assert(here[k - 1] == rest[k - 2]);
            }
        }
    }
}

/// Whether an element is a digit that was copied.
pub open spec fn is_copied_digit(t: Token) -> bool {
    t matches Token::Kept { text } && text.len() == 1 && is_digit(text[0])
}

/// Whether an element was copied and ends in a character of a name.
pub open spec fn ends_in_a_name(t: Token) -> bool {
    t matches Token::Kept { text } && !is_boundary(text.last())
}

/// A digit is copied only as part of a name: wherever a number can start, its digits are
/// replaced.
pub proof fn law_numbers_are_never_copied(sql: Seq<char>, k: int)
    requires
        0 <= k < tokens(sql).len(),
        is_copied_digit(tokens(sql)[k]),
    ensures
        k > 0 && ends_in_a_name(tokens(sql)[k - 1]),
{
    lemma_copied_digits_from(sql, 0, first_place(), k);
}

// ── Sanitizing twice ──────────────────────────────────────────────────────────

/// The text of the elements with a question mark for each literal.
pub open spec fn questioned(ts: Seq<Token>) -> Seq<char>
    decreases ts.len(),
{
    if ts.len() == 0 {
        seq![]
    } else {
        (match ts[0] {
            Token::Kept { text } => text,
            Token::Literal { .. } => seq!['?'],
        }) + questioned(ts.drop_first())
    }
}

/// The elements of that text: what was copied, and question marks.
pub open spec fn settled(ts: Seq<Token>) -> Seq<Token> {
    ts.map_values(
        |t: Token|
            match t {
                Token::Kept { text } => t,
                Token::Literal { .. } => Token::Kept { text: seq!['?'] },
            },
    )
}

proof fn lemma_render_questioned(ts: Seq<Token>, n: nat)
    ensures
        render(ts, Placeholder::Question, n) == questioned(ts),
    decreases ts.len(),
{
    if ts.len() > 0 {
        lemma_render_questioned(ts.drop_first(), n);
        lemma_render_questioned(ts.drop_first(), n + 1);
    }
}

proof fn lemma_joined_settled(ts: Seq<Token>)
    ensures
        joined(settled(ts)) == questioned(ts),
    decreases ts.len(),
{
    if ts.len() > 0 {
        lemma_joined_settled(ts.drop_first());
        assert(settled(ts).drop_first() =~= settled(ts.drop_first()));
    }
}

/// Whether `out` from `k + d` on reads as `s` from `k` on, up to `end` in `s`.
spec fn agree(s: Seq<char>, out: Seq<char>, k: int, end: int, d: int) -> bool {
    &&& 0 <= k <= end <= s.len()
    &&& 0 <= k + d
    &&& end + d <= out.len()
    &&& forall|x: int| k <= x < end ==> #[trigger] s[x] == out[x + d]
}

proof fn lemma_block_end_agrees(s: Seq<char>, out: Seq<char>, k: int, d: int)
    requires
        0 <= k <= s.len(),
        agree(s, out, k, block_comment_end(s, k), d),
        block_comment_end(s, k) == s.len() ==> out.len() == s.len() + d,
    ensures
        block_comment_end(out, k + d) == block_comment_end(s, k) + d,
    decreases s.len() - k,
{
    if k + 1 < s.len() {
        lemma_block_comment_end_bound(s, k + 1);
        if k + 2 < s.len() {
            lemma_block_comment_end_bound(s, k + 2);
        }
        assert(block_comment_end(s, k) >= k + 2);
        assert(s[k] == out[k + d]);
        assert(s[k + 1] == out[k + 1 + d]);
        if !(s[k] == '*' && s[k + 1] == '/') {
            lemma_block_end_agrees(s, out, k + 1, d);
        }
    }
}

proof fn lemma_tag_agrees(s: Seq<char>, out: Seq<char>, start: int, j: int, d: int)
    requires
        tag_end(s, start, j) is Some,
        agree(s, out, j, tag_end(s, start, j)->Some_0, d),
    ensures
        tag_end(out, start + d, j + d) == Some(tag_end(s, start, j)->Some_0 + d),
    decreases s.len() - j,
{
    assert(s[j] == out[j + d]) by {
        lemma_tag_end_bound(s, start, j);
    }
    if s[j] != '$' {
        lemma_tag_end_bound(s, start, j + 1);
        lemma_tag_agrees(s, out, start, j + 1, d);
    }
}

/// A tag holds no question mark.
proof fn lemma_tag_chars(s: Seq<char>, start: int, j: int, x: int)
    requires
        tag_end(s, start, j) is Some,
        j <= x < tag_end(s, start, j)->Some_0,
    ensures
        s[x] != '?',
    decreases s.len() - j,
{
    if s[j] != '$' && x > j {
        lemma_tag_chars(s, start, j + 1, x);
    }
}

proof fn lemma_find_agrees(s: Seq<char>, out: Seq<char>, k: int, needle: Seq<char>, d: int)
    requires
        find_seq(s, k, needle) is Some,
        agree(s, out, k, find_seq(s, k, needle)->Some_0 + needle.len(), d),
    ensures
        find_seq(out, k + d, needle) == Some(find_seq(s, k, needle)->Some_0 + d),
    decreases s.len() + 1 - k,
{
    let c = find_seq(s, k, needle)->Some_0;
    lemma_find_seq_bound(s, k, needle);
    assert(k + needle.len() <= s.len());
    assert(s.subrange(k, k + needle.len()) =~= out.subrange(k + d, k + d + needle.len()));
    if !occurs_at(s, k, needle) {
        lemma_find_seq_bound(s, k + 1, needle);
        lemma_find_agrees(s, out, k + 1, needle, d);
    }
}

proof fn lemma_find_seq_exists(s: Seq<char>, k: int, needle: Seq<char>, j: int)
    requires
        k <= j,
        occurs_at(s, j, needle),
    ensures
        find_seq(s, k, needle) is Some,
    decreases s.len() + 1 - k,
{
    if !occurs_at(s, k, needle) {
        lemma_find_seq_exists(s, k + 1, needle, j);
    }
}

/// The first element behind `i`, and what follows it.
pub proof fn lemma_first_token(s: Seq<char>, i: int, place: Place) -> (r: (bool, int, Place))
    requires
        0 <= i < s.len(),
    ensures
        (r.0, r.1) == element(s, i, place),
        i < r.1 <= s.len(),
        tokens_from(s, i, place).len() > 0,
        tokens_from(s, i, place).drop_first() == tokens_from(s, r.1, r.2),
        tokens_from(s, i, place)[0] == (if r.0 {
            Token::Literal { text: s.subrange(i, r.1) }
        } else {
            Token::Kept { text: s.subrange(i, r.1) }
        }),
        r.2 == (if r.0 {
            place_behind_literal()
        } else {
            place_behind(s.subrange(i, r.1), place)
        }),
        questioned(tokens_from(s, i, place)) == (if r.0 {
            seq!['?']
        } else {
            s.subrange(i, r.1)
        }) + questioned(tokens_from(s, r.1, r.2)),
{
    lemma_element_bound(s, i, place);
    let (literal, end) = element(s, i, place);
    let next = if literal {
        place_behind_literal()
    } else {
        place_behind(s.subrange(i, end), place)
    };
    assert(tokens_from(s, i, place).drop_first() =~= tokens_from(s, end, next));
    (literal, end, next)
}

/// The first `b` characters were copied from the first `b` of the source, where no
/// question mark is among them.
proof fn lemma_copied_prefix(s: Seq<char>, i: int, place: Place, b: int)
    requires
        0 <= i <= s.len(),
        0 <= b <= questioned(tokens_from(s, i, place)).len(),
        forall|x: int| 0 <= x < b ==> (#[trigger] questioned(tokens_from(s, i, place))[x]) != '?',
    ensures
        i + b <= s.len(),
        s.subrange(i, i + b) == questioned(tokens_from(s, i, place)).subrange(0, b),
    decreases s.len() - i,
{
    let r = questioned(tokens_from(s, i, place));
    if i < s.len() && b > 0 {
        let (literal, end, next) = lemma_first_token(s, i, place);
        let rest = questioned(tokens_from(s, end, next));
        if literal {
            assert(r[0] == '?');
        } else if b > end - i {
            assert forall|x: int| 0 <= x < b - (end - i) implies (#[trigger] rest[x]) != '?' by {
                assert(rest[x] == r[x + (end - i)]);
            }
            lemma_copied_prefix(s, end, next, b - (end - i));
            assert forall|x: int| 0 <= x < b implies s.subrange(i, i + b)[x] == r.subrange(0, b)[x] by {
                if x < end - i {
                    assert(r[x] == s.subrange(i, end)[x]);
                } else {
                    let y = x - (end - i);
                    assert(r[x] == rest[y]);
                    assert(s.subrange(end, end + (b - (end - i)))[y] == rest.subrange(
                        0,
                        b - (end - i),
                    )[y]);
                }
            }
            assert(s.subrange(i, i + b) =~= r.subrange(0, b));
        } else {
            assert forall|x: int| 0 <= x < b implies s.subrange(i, i + b)[x] == r.subrange(0, b)[x] by {
                assert(r[x] == s.subrange(i, end)[x]);
            }
            assert(s.subrange(i, i + b) =~= r.subrange(0, b));
        }
    } else {
        assert(b == 0) by {
            if i == s.len() {
                assert(tokens_from(s, i, place).len() == 0);
            }
        }
        assert(s.subrange(i, i + b) =~= r.subrange(0, b));
    }
}

/// Every stretch without a question mark was copied from the source, no nearer to its
/// beginning than it stands now.
proof fn lemma_copied_window(s: Seq<char>, i: int, place: Place, a: int, b: int) -> (j: int)
    requires
        0 <= i <= s.len(),
        0 <= a < b <= questioned(tokens_from(s, i, place)).len(),
        forall|x: int| a <= x < b ==> (#[trigger] questioned(tokens_from(s, i, place))[x]) != '?',
    ensures
        i + a <= j,
        j + (b - a) <= s.len(),
        s.subrange(j, j + (b - a)) == questioned(tokens_from(s, i, place)).subrange(a, b),
    decreases s.len() - i,
{
    let r = questioned(tokens_from(s, i, place));
    if i == s.len() {
        assert(tokens_from(s, i, place).len() == 0);
    }
    let (literal, end, next) = lemma_first_token(s, i, place);
    let rest = questioned(tokens_from(s, end, next));
    let w: int = if literal {
        1
    } else {
        end - i
    };
    assert(r.len() == w + rest.len());
    assert(forall|x: int| 0 <= x < rest.len() ==> rest[x] == #[trigger] r[x + w]);
    if literal && a == 0 {
        assert(r[0] == '?');
    }
    if a >= w {
        assert forall|x: int| a - w <= x < b - w implies (#[trigger] rest[x]) != '?' by {
            assert(rest[x] == r[x + w]);
        }
        let j = lemma_copied_window(s, end, next, a - w, b - w);
        assert(rest.subrange(a - w, b - w) =~= r.subrange(a, b));
        j
    } else {
        if b > w {
            assert forall|x: int| 0 <= x < b - w implies (#[trigger] rest[x]) != '?' by {
                assert(rest[x] == r[x + w]);
            }
            lemma_copied_prefix(s, end, next, b - w);
        }
        assert forall|x: int| 0 <= x < b - a implies s.subrange(i + a, i + b)[x] == r.subrange(
            a,
            b,
        )[x] by {
            if a + x < w {
                assert(r[a + x] == s.subrange(i, end)[a + x]);
            } else {
                let y = a + x - w;
                assert(rest[y] == r[y + w]);
                assert(s.subrange(end, end + (b - w))[y] == rest.subrange(0, b - w)[y]);
            }
        }
        assert(s.subrange(i + a, i + b) =~= r.subrange(a, b));
        i + a
    }
}

/// A dollar sign that opens no block in the source opens none in the result.
proof fn lemma_no_block_appears(s: Seq<char>, i: int, place: Place, out: Seq<char>, p: int)
    requires
        0 <= i < s.len(),
        0 <= p < out.len(),
        s[i] == '$',
        dollar_block_end(s, i) is None,
        out.skip(p) == questioned(tokens_from(s, i, place)),
    ensures
        dollar_block_end(out, p) is None,
{
    let r = questioned(tokens_from(s, i, place));
    if dollar_block_end(out, p) is Some {
        let (literal, end, next) = lemma_first_token(s, i, place);
        assert(r[0] == s.subrange(i, end)[0]);
        assert(out.skip(p)[0] == out[p]);
        let t = tag_end(out, p, p + 1)->Some_0;
        let tag = out.subrange(p, t);
        lemma_tag_end_bound(out, p, p + 1);
        lemma_find_seq_bound(out, t, tag);
        let c = find_seq(out, t, tag)->Some_0;
        let b = t - p;
        assert forall|x: int| 0 <= x < b implies (#[trigger] r[x]) != '?' by {
            assert(out.skip(p)[x] == out[x + p]);
            if x > 0 {
                lemma_tag_chars(out, p, p + 1, x + p);
            }
        }
        assert(r.len() == out.len() - p);
        lemma_copied_prefix(s, i, place, b);
        assert forall|x: int| p <= x < t implies #[trigger] out[x] == s[x + (i - p)] by {
            assert(out.skip(p)[x - p] == out[x]);
            assert(s.subrange(i, i + b)[x - p] == r.subrange(0, b)[x - p]);
        }
        lemma_tag_agrees(out, s, p, p + 1, i - p);
        assert(s.subrange(i, i + b) =~= tag) by {
            assert forall|x: int| 0 <= x < b implies s.subrange(i, i + b)[x] == tag[x] by {
                assert(out[x + p] == s[x + p + (i - p)]);
            }
        }
        let a = c - p;
        assert forall|x: int| a <= x < a + b implies (#[trigger] r[x]) != '?' by {
            assert(out.skip(p)[x] == out[x + p]);
            assert(out.subrange(c, c + tag.len())[x - a] == tag[x - a]);
            assert(tag[x - a] == out[p + x - a]);
            if x > a {
                lemma_tag_chars(out, p, p + 1, p + x - a);
            }
        }
        let j = lemma_copied_window(s, i, place, a, a + b);
        assert(r.subrange(a, a + b) =~= tag) by {
            assert forall|x: int| 0 <= x < b implies r.subrange(a, a + b)[x] == tag[x] by {
                assert(out.skip(p)[a + x] == out[c + x]);
                assert(out.subrange(c, c + tag.len())[x] == tag[x]);
            }
        }
        lemma_find_seq_exists(s, i + b, tag, j);
    }
}

/// The element of the result that stands for an element of the source.
proof fn lemma_settled_element(s: Seq<char>, i: int, place: Place, out: Seq<char>, p: int)
    requires
        0 <= i < s.len(),
        0 <= p <= out.len(),
        out.skip(p) == questioned(tokens_from(s, i, place)),
    ensures
        p < out.len(),
        element(out, p, place) == (false, p + (if element(s, i, place).0 {
            1
        } else {
            element(s, i, place).1 - i
        })),
{
    let (literal, end, next) = lemma_first_token(s, i, place);
    let rest = questioned(tokens_from(s, end, next));
    let r = out.skip(p);
    let d = p - i;
    let w: int = if literal {
        1
    } else {
        end - i
    };
    assert(r.len() == w + rest.len());
    assert(forall|x: int| 0 <= x < r.len() ==> #[trigger] r[x] == out[x + p]);
    assert(r[0] == out[p]);
    if literal {
        assert(out[p] == '?');
    } else {
        assert forall|x: int| i <= x < end implies #[trigger] s[x] == out[x + d] by {
            assert(r[x - i] == s.subrange(i, end)[x - i]);
        }
        assert(agree(s, out, i, end, d));
        if end < s.len() {
            let (l2, e2, n2) = lemma_first_token(s, end, next);
            assert(rest[0] == '?' || rest[0] == s[end]) by {
                if !l2 {
                    assert(rest[0] == s.subrange(end, e2)[0]);
                }
            }
            assert(r[w] == rest[0]);
            assert(out[end + d] == '?' || out[end + d] == s[end]);
            assert(s[end] == '\n' ==> out[end + d] == '\n');
        } else {
            assert(tokens_from(s, end, next).len() == 0);
            assert(out.len() == end + d);
        }
        assert(s[i] == out[p]);
        if s[i] == '-' && i + 1 < s.len() && s[i + 1] == '-' {
            lemma_skip_until_stop(s, i, '\n');
            assert(end > i + 1) by {
                reveal_with_fuel(skip_until, 3);
                lemma_skip_until_stop(s, i + 2, '\n');
            }
            assert(s[i + 1] == out[i + 1 + d]);
            assert forall|k: int| p <= k < end + d implies (#[trigger] out[k]) != '\n' by {
                assert(s[k - d] == out[k - d + d]);
            }
            lemma_skip_until_at(out, p, end + d, '\n');
        } else if s[i] == '/' && i + 1 < s.len() && s[i + 1] == '*' {
            lemma_block_comment_end_bound(s, i + 2);
            assert(s[i + 1] == out[i + 1 + d]);
            lemma_block_end_agrees(s, out, i + 2, d);
        } else if s[i] == '$' {
            if dollar_block_end(s, i) is Some {
                let t = tag_end(s, i, i + 1)->Some_0;
                let tag = s.subrange(i, t);
                lemma_tag_end_bound(s, i, i + 1);
                lemma_find_seq_bound(s, t, tag);
                lemma_tag_agrees(s, out, i, i + 1, d);
                assert(out.subrange(p, t + d) =~= tag) by {
                    assert forall|x: int| 0 <= x < tag.len() implies out.subrange(p, t + d)[x]
                        == tag[x] by {
                        assert(s[i + x] == out[i + x + d]);
                    }
                }
                lemma_find_agrees(s, out, t, tag, d);
            } else {
                lemma_no_block_appears(s, i, place, out, p);
            }
        } else if s[i] == '"' || s[i] == '`' {
            let close = skip_until(s, i + 1, s[i]);
            lemma_skip_until_stop(s, i + 1, s[i]);
            assert forall|k: int| p + 1 <= k < close + d implies (#[trigger] out[k]) != s[i] by {
                assert(s[k - d] == out[k - d + d]);
            }
            if close < s.len() {
                assert(s[close] == out[close + d]);
            }
            lemma_skip_until_at(out, p + 1, close + d, s[i]);
        }
    }
}

proof fn lemma_settled_from(s: Seq<char>, i: int, place: Place, out: Seq<char>, p: int)
    requires
        0 <= i <= s.len(),
        0 <= p <= out.len(),
        out.skip(p) == questioned(tokens_from(s, i, place)),
    ensures
        tokens_from(out, p, place) == settled(tokens_from(s, i, place)),
    decreases s.len() - i,
{
    if i == s.len() {
        assert(tokens_from(s, i, place).len() == 0);
        assert(out.skip(p).len() == 0);
        assert(tokens_from(out, p, place) =~= settled(tokens_from(s, i, place)));
    } else {
        let (literal, end, next) = lemma_first_token(s, i, place);
        lemma_settled_element(s, i, place, out, p);
        let w: int = if literal {
            1
        } else {
            end - i
        };
        let rest = questioned(tokens_from(s, end, next));
        assert(out.skip(p).len() == w + rest.len());
        assert(out.skip(p + w) =~= rest) by {
            assert forall|x: int| 0 <= x < rest.len() implies out.skip(p + w)[x] == rest[x] by {
                assert(out.skip(p)[x + w] == rest[x]);
            }
        }
        let (l2, e2, n2) = lemma_first_token(out, p, place);
        let head = if literal {
            seq!['?']
        } else {
            s.subrange(i, end)
        };
        assert(out.subrange(p, p + w) =~= head) by {
            assert forall|x: int| 0 <= x < w implies #[trigger] out.subrange(p, p + w)[x]
                == head[x] by {
                assert(out.skip(p)[x] == out[p + x]);
            }
        }
        assert(n2 == next);
        lemma_settled_from(s, end, next, out, p + w);
        let here = tokens_from(s, i, place);
        let there = tokens_from(out, p, place);
        assert(settled(here).drop_first() =~= settled(here.drop_first()));
        assert(there =~= seq![there[0]] + there.drop_first());
        assert(settled(here) =~= seq![settled(here)[0]] + settled(here).drop_first());
    }
}

/// Sanitizing a MySQL text twice is sanitizing it once.
pub proof fn law_mysql_sanitizing_is_idempotent(sql: Seq<char>)
    ensures
        sanitized(sanitized(sql, "mysql"@), "mysql"@) == sanitized(sql, "mysql"@),
{
    let ts = tokens(sql);
    let out = sanitized(sql, "mysql"@);
    lemma_render_questioned(ts, 0);
    assert(out.skip(0) =~= out);
    lemma_settled_from(sql, 0, first_place(), out, 0);
    lemma_render_without_literals(settled(ts), Placeholder::Question, 0);
    lemma_joined_settled(ts);
}

} // verus!
