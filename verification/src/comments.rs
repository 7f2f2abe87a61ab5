//! Where the `--` comments of a SQL text stand.
//!
//! The dialects part code from quotes in different ways: a backslash escapes a quote in
//! MySQL and in the `E'...'` strings of PostgreSQL, `[...]` is a name in SQL Server, and
//! Oracle has `q'[...]'`. A text is read in each of them, and a `--` counts where it stands
//! outside every quote in at least one. The body of a dollar-quoted block is code of its
//! own.
use vstd::prelude::*;
use crate::sanitize::{dollar_block_end, dollar_tag, is_boundary, prev_is_boundary, tag_end};
use crate::text::{find_from, find_seq, is_digit, is_letter, is_space, lemma_find_seq_bound, lemma_skip_until_bound, lemma_skip_until_stop, lines, lines_from, lower, lower_char, occurs_at, scan_until, skip_until, span_texts, strip_cr};

verus! {

/// The dialects that a SQL text may be written in.
#[derive(Clone, Copy, Debug, PartialEq, Eq, Structural)]
pub enum Dialect {
    Postgres,
    MySql,
    Oracle,
    MsSql,
}

// ── Quotes ────────────────────────────────────────────────────────────────────

/// The end of a quote whose body starts at `i`: behind the closing mark, or the end of the
/// text. A doubled mark stands for the mark itself, and so does one behind a backslash
/// where that escapes.
pub open spec fn quote_end(s: Seq<char>, i: int, mark: char, backslash: bool) -> int
    decreases s.len() - i,
{
    if i >= s.len() || (backslash && s[i] == '\\' && i + 1 >= s.len()) {
        s.len() as int
    } else if backslash && s[i] == '\\' {
        quote_end(s, i + 2, mark, backslash)
    } else if s[i] != mark {
        quote_end(s, i + 1, mark, backslash)
    } else if i + 1 < s.len() && s[i + 1] == mark {
        quote_end(s, i + 2, mark, backslash)
    } else {
        i + 1
    }
}

/// The end of a block comment from `i` on, where `depth` of them are open: behind the last
/// `*/` that it takes, or the end of the text. Comments nest where `nests` says so.
pub open spec fn block_end(s: Seq<char>, i: int, depth: nat, nests: bool) -> int
    decreases s.len() - i,
{
    if i + 1 >= s.len() {
        s.len() as int
    } else if s[i] == '*' && s[i + 1] == '/' {
        if depth <= 1 {
            i + 2
        } else {
            block_end(s, i + 2, (depth - 1) as nat, nests)
        }
    } else if nests && s[i] == '/' && s[i + 1] == '*' {
        block_end(s, i + 2, depth + 1, nests)
    } else {
        block_end(s, i + 1, depth, nests)
    }
}

/// Whether the letter `c`, in either case, stands before `i` as a word of its own.
pub open spec fn is_prefixed(s: Seq<char>, i: int, c: char) -> bool {
    i > 0 && lower(s[i - 1]) == c && (i == 1 || is_boundary(s[i - 2]))
}

/// Whether a quote at `i` is one with a delimiter of its own: `q'` or `nq'`.
pub open spec fn is_delimited(s: Seq<char>, i: int) -> bool {
    is_prefixed(s, i, 'q') || (i > 0 && lower(s[i - 1]) == 'q' && is_prefixed(s, i - 1, 'n'))
}

/// What closes a quote with the given delimiter.
pub open spec fn closing(c: char) -> char {
    if c == '[' {
        ']'
    } else if c == '{' {
        '}'
    } else if c == '<' {
        '>'
    } else if c == '(' {
        ')'
    } else {
        c
    }
}

/// The end of a quote whose delimiter stands at `i`: behind the closing delimiter and its
/// quotation mark, or the end of the text.
pub open spec fn delimited_end(s: Seq<char>, i: int) -> int {
    if i >= s.len() {
        s.len() as int
    } else {
        match find_seq(s, i + 1, seq![closing(s[i]), '\'']) {
            Some(c) => c + 2,
            None => s.len() as int,
        }
    }
}

// ── Pieces ────────────────────────────────────────────────────────────────────

/// A piece of a SQL text: code or a comment, a quote, or a dollar-quoted block with the
/// bounds of its body.
pub enum Piece {
    Open { end: int },
    Quoted { end: int },
    Body { from: int, to: int, end: int },
}

/// Whether a `--` at `i` starts a comment. In MySQL white space has to follow.
pub open spec fn starts_line_comment(s: Seq<char>, i: int, d: Dialect) -> bool {
    s[i] == '-' && i + 1 < s.len() && s[i + 1] == '-' && (d != Dialect::MySql || i + 2 >= s.len()
        || s[i + 2] <= ' ')
}

/// Whether a `/*` at `i` starts a comment. In MySQL `/*!` marks code.
pub open spec fn starts_block_comment(s: Seq<char>, i: int, d: Dialect) -> bool {
    s[i] == '/' && i + 1 < s.len() && s[i + 1] == '*' && !(d == Dialect::MySql && i + 2 < s.len()
        && s[i + 2] == '!')
}

/// The piece that starts at `i`.
pub open spec fn piece(s: Seq<char>, i: int, d: Dialect) -> Piece {
    if starts_line_comment(s, i, d) || (d == Dialect::MySql && s[i] == '#') {
        Piece::Open { end: skip_until(s, i, '\n') }
    } else if starts_block_comment(s, i, d) {
        Piece::Open {
            end: block_end(s, i + 2, 1, d == Dialect::Postgres || d == Dialect::MsSql),
        }
    } else if d == Dialect::Postgres && s[i] == '$' && (i == 0 || is_boundary(s[i - 1])) {
        match (tag_end(s, i, i + 1), dollar_block_end(s, i)) {
            (Some(from), Some(end)) => Piece::Body { from, to: end - (from - i), end },
            _ => Piece::Open { end: i + 1 },
        }
    } else if s[i] == '\'' {
        Piece::Quoted {
            end: if d == Dialect::Oracle && is_delimited(s, i) {
                delimited_end(s, i + 1)
            } else {
                quote_end(
                    s,
                    i + 1,
                    '\'',
                    d == Dialect::MySql || (d == Dialect::Postgres && is_prefixed(s, i, 'e')),
                )
            },
        }
    } else if s[i] == '"' {
        Piece::Quoted { end: quote_end(s, i + 1, '"', d == Dialect::MySql) }
    } else if d == Dialect::MySql && s[i] == '`' {
        Piece::Quoted { end: quote_end(s, i + 1, '`', false) }
    } else if d == Dialect::MsSql && s[i] == '[' {
        Piece::Quoted { end: quote_end(s, i + 1, ']', false) }
    } else {
        Piece::Open { end: i + 1 }
    }
}

/// Whether position `q` stands outside every quote, where the text is read from `i` on.
pub open spec fn stands_open(s: Seq<char>, i: int, q: int, d: Dialect) -> bool
    decreases s.len(), s.len() - i,
{
    if 0 <= i <= q < s.len() {
        match piece(s, i, d) {
            Piece::Open { end } => q < end || (i < end && stands_open(s, end, q, d)),
            Piece::Quoted { end } => q >= end && i < end && stands_open(s, end, q, d),
            Piece::Body { from, to, end } => if from <= q < to {
                0 < from && to <= s.len() && stands_open(s.subrange(from, to), 0, q - from, d)
            } else {
                q < end || (i < end && stands_open(s, end, q, d))
            },
        }
    } else {
        false
    }
}

// ── Comments ──────────────────────────────────────────────────────────────────

/// Whether a `--` stands at `q`, outside every quote in at least one dialect.
pub open spec fn is_comment(s: Seq<char>, q: int) -> bool {
    &&& 0 <= q && q + 1 < s.len() && s[q] == '-' && s[q + 1] == '-'
    &&& exists|d: Dialect| stands_open(s, 0, q, d)
}

/// The first comment between `i` and `stop`, or `stop`.
pub open spec fn comment_start(s: Seq<char>, i: int, stop: int) -> int
    decreases stop - i,
{
    if i >= stop || is_comment(s, i) {
        i
    } else {
        comment_start(s, i + 1, stop)
    }
}

/// The end of the text of a line that runs from `i` to the line feed, or the end, at `end`:
/// a carriage return before a line feed belongs to the line ending.
pub open spec fn line_stop(s: Seq<char>, i: int, end: int) -> int {
    if i < end < s.len() && s[end - 1] == '\r' {
        end - 1
    } else {
        end
    }
}

/// For each line from `i` on, what stands on it from its first comment on.
pub open spec fn comments_from(s: Seq<char>, i: int) -> Seq<Seq<char>>
    decreases s.len() - i,
    when 0 <= i
    via comments_from_decreases
{
    if i >= s.len() {
        seq![]
    } else {
        let end = skip_until(s, i, '\n');
        let stop = line_stop(s, i, end);
        let here = s.subrange(comment_start(s, i, stop), stop);
        if end < s.len() {
            seq![here] + comments_from(s, end + 1)
        } else {
            seq![here]
        }
    }
}

#[via_fn]
proof fn comments_from_decreases(s: Seq<char>, i: int) {
    if i < s.len() {
        lemma_skip_until_bound(s, i, '\n');
    }
}

/// The comments of a SQL text, line by line; that of a line without one is empty.
pub open spec fn comments(sql: Seq<char>) -> Seq<Seq<char>> {
    comments_from(sql, 0)
}

// ── Scanning ──────────────────────────────────────────────────────────────────

fn scan_quote(s: &[char], from: usize, mark: char, backslash: bool) -> (r: usize)
    requires
        from <= s@.len(),
    ensures
        r == quote_end(s@, from as int, mark, backslash),
        from <= r <= s@.len(),
{
    let n: usize = s.len();
    let mut i: usize = from;
    while i < n
        invariant
            n == s@.len(),
            from <= i <= n,
            quote_end(s@, from as int, mark, backslash) == quote_end(
                s@,
                i as int,
                mark,
                backslash,
            ),
        decreases n - i,
    {
        if backslash && s[i] == '\\' {
            if n - i < 2 {
                return n;
            }
            i = i + 2;
        } else if s[i] != mark {
            i = i + 1;
        } else if n - i >= 2 && s[i + 1] == mark {
            i = i + 2;
        } else {
            return i + 1;
        }
    }
    n
}

fn scan_block(s: &[char], from: usize, nests: bool) -> (r: usize)
    requires
        from <= s@.len(),
    ensures
        r == block_end(s@, from as int, 1, nests),
        from <= r <= s@.len(),
{
    let n: usize = s.len();
    let mut i: usize = from;
    let mut depth: usize = 1;
    while n - i >= 2
        invariant
            n == s@.len(),
            from <= i <= n,
            1 <= depth <= 1 + i - from,
            block_end(s@, from as int, 1, nests) == block_end(s@, i as int, depth as nat, nests),
        decreases n - i,
    {
        if s[i] == '*' && s[i + 1] == '/' {
            if depth == 1 {
                return i + 2;
            }
            depth = depth - 1;
            i = i + 2;
        } else if nests && s[i] == '/' && s[i + 1] == '*' {
            depth = depth + 1;
            i = i + 2;
        } else {
            i = i + 1;
        }
    }
    n
}

fn has_prefix(s: &[char], i: usize, c: char) -> (r: bool)
    requires
        i <= s@.len(),
    ensures
        r == is_prefixed(s@, i as int, c),
{
    i > 0 && lower_char(s[i - 1]) == c && (i == 1 || prev_is_boundary(
        vstd::slice::slice_subrange(s, 0, i - 1),
    ))
}

fn has_delimiter(s: &[char], i: usize) -> (r: bool)
    requires
        i <= s@.len(),
    ensures
        r == is_delimited(s@, i as int),
{
    has_prefix(s, i, 'q') || (i > 0 && lower_char(s[i - 1]) == 'q' && has_prefix(s, i - 1, 'n'))
}

fn scan_delimited(s: &[char], from: usize) -> (r: usize)
    requires
        from <= s@.len(),
    ensures
        r == delimited_end(s@, from as int),
        from <= r <= s@.len(),
{
    if from == s.len() {
        return from;
    }
    let c = s[from];
    let close = if c == '[' {
        ']'
    } else if c == '{' {
        '}'
    } else if c == '<' {
        '>'
    } else if c == '(' {
        ')'
    } else {
        c
    };
    let mut needle: Vec<char> = Vec::new();
    needle.push(close);
    needle.push('\'');
    assert(needle@ =~= seq![closing(s@[from as int]), '\'']);
    match find_from(s, from + 1, needle.as_slice()) {
        Some(at) => at + 2,
        None => s.len(),
    }
}

/// Where a piece of a text ends, and what it is.
enum Part {
    Open { end: usize },
    Quoted { end: usize },
    Body { from: usize, to: usize, end: usize },
}

impl View for Part {
    type V = Piece;

    closed spec fn view(&self) -> Piece {
        match self {
            Part::Open { end } => Piece::Open { end: *end as int },
            Part::Quoted { end } => Piece::Quoted { end: *end as int },
            Part::Body { from, to, end } => Piece::Body {
                from: *from as int,
                to: *to as int,
                end: *end as int,
            },
        }
    }
}

/// Whether a piece that starts at `i` ends behind it, within a text of length `n`.
spec fn fits(p: Piece, i: int, n: nat) -> bool {
    match p {
        Piece::Open { end } => i < end <= n,
        Piece::Quoted { end } => i < end <= n,
        Piece::Body { from, to, end } => i < from <= to < end <= n,
    }
}

fn scan_piece(s: &[char], i: usize, d: Dialect) -> (r: Part)
    requires
        i < s@.len(),
    ensures
        r@ == piece(s@, i as int, d),
        fits(r@, i as int, s@.len()),
{
    let n: usize = s.len();
    let c = s[i];
    let mysql = d == Dialect::MySql;
    let line = c == '-' && n - i >= 2 && s[i + 1] == '-' && (!mysql || n - i < 3 || s[i + 2] <= ' ');
    if line || (mysql && c == '#') {
        let end = scan_until(s, i, '\n');
        proof {
            lemma_skip_until_bound(s@, i + 1, '\n');
        }
        return Part::Open { end };
    }
    if c == '/' && n - i >= 2 && s[i + 1] == '*' && !(mysql && n - i >= 3 && s[i + 2] == '!') {
        return Part::Open {
            end: scan_block(s, i + 2, d == Dialect::Postgres || d == Dialect::MsSql),
        };
    }
    if d == Dialect::Postgres && c == '$' && (i == 0 || prev_is_boundary(
        vstd::slice::slice_subrange(s, 0, i),
    )) {
        if let Some(from) = dollar_tag(s, i) {
            let name = vstd::slice::slice_subrange(s, i, from);
            if let Some(to) = find_from(s, from, name) {
                return Part::Body { from, to, end: to + (from - i) };
            }
        }
        return Part::Open { end: i + 1 };
    }
    if c == '\'' {
        let end = if d == Dialect::Oracle && has_delimiter(s, i) {
            scan_delimited(s, i + 1)
        } else {
            scan_quote(s, i + 1, '\'', mysql || (d == Dialect::Postgres && has_prefix(s, i, 'e')))
        };
        return Part::Quoted { end };
    }
    if c == '"' {
        return Part::Quoted { end: scan_quote(s, i + 1, '"', mysql) };
    }
    if mysql && c == '`' {
        return Part::Quoted { end: scan_quote(s, i + 1, '`', false) };
    }
    if d == Dialect::MsSql && c == '[' {
        return Part::Quoted { end: scan_quote(s, i + 1, ']', false) };
    }
    Part::Open { end: i + 1 }
}

/// Says of each position whether it stands outside every quote.
fn open_marks(s: &[char], d: Dialect) -> (r: Vec<bool>)
    ensures
        r@.len() == s@.len(),
        forall|q: int| 0 <= q < s@.len() ==> #[trigger] r@[q] == stands_open(s@, 0, q, d),
    decreases s@.len(),
{
    let n: usize = s.len();
    let mut out: Vec<bool> = Vec::new();
    while out.len() < n
        invariant
            n == s@.len(),
            out@.len() <= n,
            forall|q: int| 0 <= q < out@.len() ==> #[trigger] out@[q] == stands_open(s@, 0, q, d),
            forall|q: int|
                out@.len() <= q < n ==> stands_open(s@, 0, q, d) == #[trigger] stands_open(
                    s@,
                    out@.len() as int,
                    q,
                    d,
                ),
        decreases n - out@.len(),
    {
        let i: usize = out.len();
        assert(forall|q: int|
            i <= q < n ==> stands_open(s@, 0, q, d) == #[trigger] stands_open(s@, i as int, q, d));
        match scan_piece(s, i, d) {
            Part::Open { end } => {
                fill(&mut out, end, true);
                assert forall|q: int| 0 <= q < out@.len() implies #[trigger] out@[q] == stands_open(
                    s@,
                    0,
                    q,
                    d,
                ) by {
                    if q >= i {
                        assert(stands_open(s@, 0, q, d) == stands_open(s@, i as int, q, d));
                    }
                }
            },
            Part::Quoted { end } => {
                fill(&mut out, end, false);
                assert forall|q: int| 0 <= q < out@.len() implies #[trigger] out@[q] == stands_open(
                    s@,
                    0,
                    q,
                    d,
                ) by {
                    if q >= i {
                        assert(stands_open(s@, 0, q, d) == stands_open(s@, i as int, q, d));
                    }
                }
            },
            Part::Body { from, to, end } => {
                fill(&mut out, from, true);
                assert forall|q: int| 0 <= q < out@.len() implies #[trigger] out@[q] == stands_open(
                    s@,
                    0,
                    q,
                    d,
                ) by {
                    if q >= i {
                        assert(stands_open(s@, 0, q, d) == stands_open(s@, i as int, q, d));
                    }
                }
                let body = vstd::slice::slice_subrange(s, from, to);
                let inner = open_marks(body, d);
                let mut k: usize = 0;
                while k < inner.len()
                    invariant
                        k <= inner@.len() == to - from,
                        i < from <= to < end <= n == s@.len(),
                        out@.len() == from + k,
                        body@ == s@.subrange(from as int, to as int),
                        piece(s@, i as int, d) == (Piece::Body {
                            from: from as int,
                            to: to as int,
                            end: end as int,
                        }),
                        forall|q: int|
                            0 <= q < inner@.len() ==> #[trigger] inner@[q] == stands_open(
                                body@,
                                0,
                                q,
                                d,
                            ),
                        forall|q: int|
                            i <= q < n ==> stands_open(s@, 0, q, d) == #[trigger] stands_open(
                                s@,
                                i as int,
                                q,
                                d,
                            ),
                        forall|q: int|
                            0 <= q < out@.len() ==> #[trigger] out@[q] == stands_open(s@, 0, q, d),
                    decreases inner@.len() - k,
                {
                    assert(stands_open(s@, i as int, from + k, d) == stands_open(
                        body@,
                        0,
                        k as int,
                        d,
                    ));
                    out.push(inner[k]);
                    k = k + 1;
                }
                fill(&mut out, end, true);
                assert forall|q: int| 0 <= q < out@.len() implies #[trigger] out@[q] == stands_open(
                    s@,
                    0,
                    q,
                    d,
                ) by {
                    if q >= i {
                        assert(stands_open(s@, 0, q, d) == stands_open(s@, i as int, q, d));
                    }
                }
            },
        }
        assert forall|q: int| out@.len() <= q < n implies stands_open(s@, 0, q, d)
            == #[trigger] stands_open(s@, out@.len() as int, q, d) by {
            assert(stands_open(s@, i as int, q, d) == stands_open(s@, out@.len() as int, q, d));
        }
    }
    out
}

/// Lengthens a list to `n` items.
fn fill(out: &mut Vec<bool>, n: usize, value: bool)
    requires
        old(out)@.len() <= n,
    ensures
        final(out)@.len() == n,
        forall|q: int| 0 <= q < old(out)@.len() ==> #[trigger] final(out)@[q] == old(out)@[q],
        forall|q: int| old(out)@.len() <= q < n ==> #[trigger] final(out)@[q] == value,
{
    let ghost before = out@;
    while out.len() < n
        invariant
            before.len() <= out@.len() <= n,
            forall|q: int| 0 <= q < before.len() ==> #[trigger] out@[q] == before[q],
            forall|q: int| before.len() <= q < out@.len() ==> #[trigger] out@[q] == value,
        decreases n - out@.len(),
    {
        out.push(value);
    }
}

/// Where the comments of a SQL text stand in it, line by line.
pub fn comment_spans(s: &[char]) -> (r: Vec<(usize, usize)>)
    ensures
        span_texts(s@, r@) == comments(s@),
        forall|k: int| 0 <= k < r@.len() ==> (#[trigger] r@[k]).0 <= r@[k].1 <= s@.len(),
{
    let postgres = open_marks(s, Dialect::Postgres);
    let mysql = open_marks(s, Dialect::MySql);
    let oracle = open_marks(s, Dialect::Oracle);
    let mssql = open_marks(s, Dialect::MsSql);
    let mut out: Vec<(usize, usize)> = Vec::new();
    let n: usize = s.len();
    let mut i: usize = 0;
    assert(span_texts(s@, out@) + comments(s@) =~= comments(s@));
    while i < n
        invariant
            n == s@.len(),
            i <= n,
            postgres@.len() == n && mysql@.len() == n && oracle@.len() == n && mssql@.len() == n,
            forall|q: int|
                0 <= q < n ==> #[trigger] postgres@[q] == stands_open(s@, 0, q, Dialect::Postgres),
            forall|q: int|
                0 <= q < n ==> #[trigger] mysql@[q] == stands_open(s@, 0, q, Dialect::MySql),
            forall|q: int|
                0 <= q < n ==> #[trigger] oracle@[q] == stands_open(s@, 0, q, Dialect::Oracle),
            forall|q: int|
                0 <= q < n ==> #[trigger] mssql@[q] == stands_open(s@, 0, q, Dialect::MsSql),
            span_texts(s@, out@) + comments_from(s@, i as int) == comments(s@),
            forall|k: int| 0 <= k < out@.len() ==> (#[trigger] out@[k]).0 <= out@[k].1 <= n,
        decreases n - i,
    {
        let end = scan_until(s, i, '\n');
        let stop: usize = if i < end && end < n && s[end - 1] == '\r' {
            end - 1
        } else {
            end
        };
        let mut q: usize = i;
        while q < stop && !(s[q] == '-' && n - q >= 2 && s[q + 1] == '-' && (postgres[q] || mysql[q]
            || oracle[q] || mssql[q]))
            invariant
                n == s@.len(),
                i <= q <= stop <= end <= n,
                postgres@.len() == n && mysql@.len() == n && oracle@.len() == n && mssql@.len()
                    == n,
                forall|q: int|
                    0 <= q < n ==> #[trigger] postgres@[q] == stands_open(
                        s@,
                        0,
                        q,
                        Dialect::Postgres,
                    ),
                forall|q: int|
                    0 <= q < n ==> #[trigger] mysql@[q] == stands_open(s@, 0, q, Dialect::MySql),
                forall|q: int|
                    0 <= q < n ==> #[trigger] oracle@[q] == stands_open(s@, 0, q, Dialect::Oracle),
                forall|q: int|
                    0 <= q < n ==> #[trigger] mssql@[q] == stands_open(s@, 0, q, Dialect::MsSql),
                comment_start(s@, i as int, stop as int) == comment_start(
                    s@,
                    q as int,
                    stop as int,
                ),
            decreases stop - q,
        {
            proof {
                if is_comment(s@, q as int) {
                    let d = choose|d: Dialect| stands_open(s@, 0, q as int, d);
                    match d {
                        Dialect::Postgres => assert(postgres@[q as int]),
                        Dialect::MySql => assert(mysql@[q as int]),
                        Dialect::Oracle => assert(oracle@[q as int]),
                        Dialect::MsSql => assert(mssql@[q as int]),
                    }
                }
            }
            q = q + 1;
        }
        proof {
            if q < stop {
                assert(exists|d: Dialect| stands_open(s@, 0, q as int, d)) by {
                    assert(postgres@[q as int] ==> stands_open(s@, 0, q as int, Dialect::Postgres));
                    assert(mysql@[q as int] ==> stands_open(s@, 0, q as int, Dialect::MySql));
                    assert(oracle@[q as int] ==> stands_open(s@, 0, q as int, Dialect::Oracle));
                    assert(mssql@[q as int] ==> stands_open(s@, 0, q as int, Dialect::MsSql));
                }
                assert(is_comment(s@, q as int));
            }
            assert(comment_start(s@, i as int, stop as int) == q);
        }
        let ghost before = out@;
        out.push((q, stop));
        proof {
            let text = s@.subrange(q as int, stop as int);
            assert(span_texts(s@, out@) =~= span_texts(s@, before).push(text));
            if end < n {
                assert(span_texts(s@, out@) + comments_from(s@, end + 1) =~= comments(s@));
            } else {
                assert(span_texts(s@, out@) =~= comments(s@));
            }
        }
        if end == n {
            return out;
        }
        i = end + 1;
    }
    assert(span_texts(s@, out@) =~= comments(s@));
    out
}

// ── Laws ──────────────────────────────────────────────────────────────────────

/// What stands on a line from its first `--` on.
pub open spec fn behind_dashes(line: Seq<char>) -> Seq<char> {
    match find_seq(line, 0, seq!['-', '-']) {
        Some(p) => line.skip(p),
        None => seq![],
    }
}

proof fn lemma_block_end_bound(s: Seq<char>, i: int, depth: nat, nests: bool)
    requires
        i <= s.len(),
    ensures
        i <= block_end(s, i, depth, nests) <= s.len(),
    decreases s.len() - i,
{
    if i + 1 < s.len() {
        if s[i] == '*' && s[i + 1] == '/' {
            if depth > 1 {
                lemma_block_end_bound(s, i + 2, (depth - 1) as nat, nests);
            }
        } else if nests && s[i] == '/' && s[i + 1] == '*' {
            lemma_block_end_bound(s, i + 2, depth + 1, nests);
        } else {
            lemma_block_end_bound(s, i + 1, depth, nests);
        }
    }
}

/// Without quotation marks nothing is quoted in Oracle's reading.
proof fn lemma_unquoted_is_open(s: Seq<char>, i: int, q: int)
    requires
        forall|k: int| 0 <= k < s.len() ==> (#[trigger] s[k]) != '\'' && s[k] != '"',
        0 <= i <= q < s.len(),
    ensures
        stands_open(s, i, q, Dialect::Oracle),
    decreases s.len() - i,
{
    assert(s[i] != '\'' && s[i] != '"');
    lemma_skip_until_bound(s, i + 1, '\n');
    if i + 1 < s.len() {
        lemma_block_end_bound(s, i + 2, 1, false);
    }
    match piece(s, i, Dialect::Oracle) {
        Piece::Open { end } => {
            assert(i < end <= s.len());
            if q >= end {
                lemma_unquoted_is_open(s, end, q);
            }
        },
        _ => {
            assert(false);
        },
    }
}

proof fn lemma_first_dashes(s: Seq<char>, i: int, k: int, stop: int)
    requires
        forall|k: int| 0 <= k < s.len() ==> (#[trigger] s[k]) != '\'' && s[k] != '"',
        0 <= i <= stop <= s.len(),
        stop < s.len() ==> s[stop] != '-',
        0 <= k <= stop - i,
    ensures
        match find_seq(s.subrange(i, stop), k, seq!['-', '-']) {
            Some(p) => comment_start(s, i + k, stop) == i + p && k <= p < stop - i,
            None => comment_start(s, i + k, stop) == stop,
        },
    decreases stop - i - k,
{
    let line = s.subrange(i, stop);
    let dashes = seq!['-', '-'];
    if k < stop - i {
        if is_comment(s, i + k) {
            assert(k + 2 <= line.len());
            assert(line.subrange(k, k + 2) =~= dashes);
        } else {
            if occurs_at(line, k, dashes) {
                assert(line.subrange(k, k + 2)[0] == '-' && line.subrange(k, k + 2)[1] == '-');
                lemma_unquoted_is_open(s, 0, i + k);
                assert(is_comment(s, i + k));
            }
            lemma_first_dashes(s, i, k + 1, stop);
        }
    } else {
        assert(!occurs_at(line, k, dashes));
        assert(find_seq(line, k + 1, dashes) is None);
    }
}

proof fn lemma_unquoted_comments_from(s: Seq<char>, i: int)
    requires
        forall|k: int| 0 <= k < s.len() ==> (#[trigger] s[k]) != '\'' && s[k] != '"',
        0 <= i <= s.len(),
    ensures
        comments_from(s, i) == lines_from(s, i).map_values(|l: Seq<char>| behind_dashes(l)),
    decreases s.len() - i,
{
    let f = |l: Seq<char>| behind_dashes(l);
    if i < s.len() {
        lemma_skip_until_stop(s, i, '\n');
        let end = skip_until(s, i, '\n');
        let stop = line_stop(s, i, end);
        let line = s.subrange(i, stop);
        lemma_first_dashes(s, i, 0, stop);
        let here = s.subrange(comment_start(s, i, stop), stop);
        assert(here =~= behind_dashes(line));
        if end < s.len() {
            lemma_unquoted_comments_from(s, end + 1);
            let text = s.subrange(i, end);
            if i < end {
                assert(text.last() == s[end - 1]);
            }
            assert(strip_cr(text) =~= line);
            let rest = lines_from(s, end + 1);
            assert((seq![line] + rest).map_values(f) =~= seq![here] + rest.map_values(f));
        } else {
            assert(seq![line].map_values(f) =~= seq![here]);
        }
    } else {
        assert(lines_from(s, i).map_values(f) =~= seq![]);
    }
}

/// In a text without quotation marks every `--` counts: what is read is each line from its
/// first `--` on.
pub proof fn law_unquoted_dashes_are_comments(sql: Seq<char>)
    requires
        forall|k: int| 0 <= k < sql.len() ==> (#[trigger] sql[k]) != '\'' && sql[k] != '"',
    ensures
        comments(sql) == lines(sql).map_values(|l: Seq<char>| behind_dashes(l)),
{
    lemma_unquoted_comments_from(sql, 0);
}

/// Each dialect is heard: where one of them reads a `--` outside its quotes, its line is
/// read from there or from further in front.
pub proof fn law_every_dialect_is_heard(sql: Seq<char>, d: Dialect, i: int, q: int, stop: int)
    requires
        0 <= i <= q < stop <= sql.len(),
        q + 1 < sql.len(),
        sql[q] == '-',
        sql[q + 1] == '-',
        stands_open(sql, 0, q, d),
    ensures
        i <= comment_start(sql, i, stop) <= q,
    decreases q - i,
{
    if !is_comment(sql, i) {
        law_every_dialect_is_heard(sql, d, i + 1, q, stop);
    }
}

/// Whether a character has no meaning of its own in front of a literal: white space, a
/// letter or a digit.
pub open spec fn is_plain_code(c: char) -> bool {
    is_space(c) || is_letter(c) || is_digit(c)
}

/// A string literal behind plain code.
pub open spec fn literal_behind(head: Seq<char>, body: Seq<char>) -> Seq<char> {
    head + seq!['\''] + body + seq!['\'']
}

proof fn lemma_literal_end(s: Seq<char>, i: int, backslash: bool)
    requires
        0 <= i < s.len(),
        forall|k: int| i <= k < s.len() - 1 ==> (#[trigger] s[k]) != '\'' && s[k] != '\\',
        s.last() == '\'',
    ensures
        quote_end(s, i, '\'', backslash) == s.len(),
    decreases s.len() - i,
{
    if i < s.len() - 1 {
        assert(s[i] != '\'' && s[i] != '\\');
        lemma_literal_end(s, i + 1, backslash);
    }
}

proof fn lemma_literal_is_quoted(s: Seq<char>, h: int, q: int, d: Dialect)
    requires
        0 <= h < q + 1 <= s.len(),
        h + 1 < s.len(),
        s[h] == '\'',
        forall|k: int| h < k < s.len() - 1 ==> (#[trigger] s[k]) != '\'' && s[k] != '\\',
        s.last() == '\'',
    ensures
        !stands_open(s, h, q, d),
{
    lemma_literal_end(s, h + 1, true);
    lemma_literal_end(s, h + 1, false);
    let needle = seq![closing(s[h + 1]), '\''];
    if let Some(c) = find_seq(s, h + 2, needle) {
        lemma_find_seq_bound(s, h + 2, needle);
        assert(s.subrange(c, c + 2)[1] == '\'');
        assert(s[c + 1] == '\'');
    }
    assert(piece(s, h, d) == (Piece::Quoted { end: s.len() as int }));
}

proof fn lemma_plain_code(s: Seq<char>, i: int, h: int, q: int, d: Dialect)
    requires
        0 <= i <= h <= q < s.len(),
        forall|k: int| 0 <= k < h ==> is_plain_code(#[trigger] s[k]),
    ensures
        stands_open(s, i, q, d) == stands_open(s, h, q, d),
    decreases h - i,
{
    if i < h {
        assert(is_plain_code(s[i]));
        assert(piece(s, i, d) == (Piece::Open { end: i + 1 }));
        lemma_plain_code(s, i + 1, h, q, d);
    }
}

proof fn lemma_no_comment_from(s: Seq<char>, i: int, stop: int)
    requires
        0 <= i <= stop,
        forall|q: int| !is_comment(s, q),
    ensures
        comment_start(s, i, stop) == stop,
    decreases stop - i,
{
    if i < stop {
        lemma_no_comment_from(s, i + 1, stop);
    }
}

proof fn lemma_no_comments_from(s: Seq<char>, i: int, k: int)
    requires
        0 <= i <= s.len(),
        forall|q: int| !is_comment(s, q),
        0 <= k < comments_from(s, i).len(),
    ensures
        comments_from(s, i)[k] == Seq::<char>::empty(),
    decreases s.len() - i,
{
    if i < s.len() {
        lemma_skip_until_bound(s, i, '\n');
        let end = skip_until(s, i, '\n');
        let stop = line_stop(s, i, end);
        lemma_no_comment_from(s, i, stop);
        assert(s.subrange(stop, stop) =~= Seq::<char>::empty());
        if end < s.len() && k > 0 {
            lemma_no_comments_from(s, end + 1, k - 1);
        }
    }
}

/// A string literal holds no comment, whatever stands in it and over how many lines.
pub proof fn law_literals_hold_no_comment(head: Seq<char>, body: Seq<char>, k: int)
    requires
        forall|i: int| 0 <= i < head.len() ==> is_plain_code(#[trigger] head[i]),
        forall|i: int| 0 <= i < body.len() ==> (#[trigger] body[i]) != '\'' && body[i] != '\\',
        0 <= k < comments(literal_behind(head, body)).len(),
    ensures
        comments(literal_behind(head, body))[k] == Seq::<char>::empty(),
{
    let s = literal_behind(head, body);
    let h = head.len() as int;
    assert forall|i: int| 0 <= i < h implies is_plain_code(#[trigger] s[i]) by {
        assert(s[i] == head[i]);
    }
    assert forall|i: int| h < i < s.len() - 1 implies (#[trigger] s[i]) != '\'' && s[i] != '\\' by {
        assert(s[i] == body[i - h - 1]);
    }
    assert forall|q: int| !is_comment(s, q) by {
        if is_comment(s, q) {
            let d = choose|d: Dialect| stands_open(s, 0, q, d);
            if q < h {
                assert(is_plain_code(s[q]));
            } else {
                lemma_plain_code(s, 0, h, q, d);
                lemma_literal_is_quoted(s, h, q, d);
            }
        }
    }
    lemma_no_comments_from(s, 0, k);
}

} // verus!
