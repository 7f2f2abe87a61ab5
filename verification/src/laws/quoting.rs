//! What the dialects read as a quote, and where the comments of a SQL text stand.
use vstd::prelude::*;
use crate::comments::{block_end, comment_start, comments, comments_from, delimited_end, is_comment, is_prefixed, line_stop, piece, quote_end, stands_open, Dialect, Piece};
use crate::laws::sanitizing::{is_dollar_block, is_lone_dollar, name_char};
use crate::text::{lemma_skip_until_stop, lines, lines_from, occurs_at, skip_until, strip_cr};

verus! {

// ── Quotes ────────────────────────────────────────────────────────────────────

/// A quote goes on over all but its own mark, and over backslashes where they escape.
pub proof fn law_quotes_go_on(s: Seq<char>, i: int, j: int, mark: char, backslash: bool)
    requires
        0 <= i <= j <= s.len(),
        forall|k: int| i <= k < j ==> #[trigger] s[k] != mark && !(backslash && s[k] == '\\'),
    ensures
        quote_end(s, i, mark, backslash) == quote_end(s, j, mark, backslash),
        j == s.len() ==> quote_end(s, i, mark, backslash) == s.len(),
    decreases j - i,
{
    if i < j {
        assert(s[i] != mark);
        law_quotes_go_on(s, i + 1, j, mark, backslash);
    }
}

/// A quote ends behind its mark, unless the mark is doubled; what stands behind a backslash
/// that escapes never ends it.
pub proof fn law_quotes_end_at_their_mark(s: Seq<char>, i: int, mark: char, backslash: bool)
    requires
        0 <= i < s.len(),
        mark != '\\',
    ensures
        s[i] == mark && (i + 1 == s.len() || s[i + 1] != mark) ==> quote_end(s, i, mark, backslash)
            == i + 1,
        s[i] == mark && i + 1 < s.len() && s[i + 1] == mark ==> quote_end(s, i, mark, backslash)
            == quote_end(s, i + 2, mark, backslash),
        backslash && s[i] == '\\' && i + 1 < s.len() ==> quote_end(s, i, mark, backslash)
            == quote_end(s, i + 2, mark, backslash),
        !backslash && s[i] == '\\' ==> quote_end(s, i, mark, backslash) == quote_end(
            s,
            i + 1,
            mark,
            backslash,
        ),
{
}

/// What closes a quote that a delimiter opened: its partner, or the delimiter itself.
pub open spec fn partner(c: char) -> char {
    if c == '[' {
        ']'
    } else if c == '{' {
        '}'
    } else if c == '<' {
        '>'
    } else if c == '(' {
        ')'
    } else {
        c
    }
}

/// A quote with a delimiter of its own ends behind the first partner of the delimiter that a
/// quotation mark follows, or is not closed.
pub proof fn law_delimited_quotes_end_at_their_partner(s: Seq<char>, i: int)
    requires
        0 <= i < s.len(),
    ensures
        ({
            let e = delimited_end(s, i);
            &&& i < e <= s.len()
            &&& (i + 2 < e && s[e - 2] == partner(s[i]) && s[e - 1] == '\'' && forall|j: int|
                i + 1 <= j < e - 2 ==> !(#[trigger] s[j] == partner(s[i]) && s[j + 1] == '\''))
                || (e == s.len() && forall|j: int|
                i + 1 <= j < e - 1 ==> !(#[trigger] s[j] == partner(s[i]) && s[j + 1] == '\''))
        }),
{
    let close = seq![partner(s[i]), '\''];
    crate::laws::texts::law_find(s, i + 1, close);
    assert forall|j: int| i + 1 <= j && j + 1 < s.len() && #[trigger] s[j] == partner(s[i]) && s[j
        + 1] == '\'' implies occurs_at(s, j, close) by {
        assert(s.subrange(j, j + 2) =~= close);
    }
    match crate::text::find_seq(s, i + 1, close) {
        Some(c) => {
            assert(s.subrange(c, c + 2)[0] == s[c]);
            assert(s.subrange(c, c + 2)[1] == s[c + 1]);
        },
        None => {},
    }
}

/// A block comment goes on over all that neither closes nor opens one.
pub proof fn law_block_comments_go_on(s: Seq<char>, i: int, j: int, depth: nat, nests: bool)
    requires
        0 <= i <= j <= s.len(),
        forall|k: int|
            i <= k < j && k + 1 < s.len() ==> !(#[trigger] s[k] == '*' && s[k + 1] == '/') && !(
            s[k] == '/' && s[k + 1] == '*'),
    ensures
        block_end(s, i, depth, nests) == block_end(s, j, depth, nests),
        j == s.len() ==> block_end(s, i, depth, nests) == s.len(),
    decreases j - i,
{
    if i < j && i + 1 < s.len() {
        assert(!(s[i] == '*' && s[i + 1] == '/'));
        law_block_comments_go_on(s, i + 1, j, depth, nests);
    } else if i < j {
        assert(i + 1 == s.len());
    }
}

/// A block comment ends behind `*/` where it is the only one that is open; else that closes
/// the innermost. `/*` opens another where comments nest, and is nothing where they do not.
pub proof fn law_block_comments_end_at_their_own_close(
    s: Seq<char>,
    i: int,
    depth: nat,
    nests: bool,
)
    requires
        0 <= i,
        i + 1 < s.len(),
        depth > 0,
    ensures
        s[i] == '*' && s[i + 1] == '/' ==> block_end(s, i, depth, nests) == (if depth == 1 {
            i + 2
        } else {
            block_end(s, i + 2, (depth - 1) as nat, nests)
        }),
        s[i] == '/' && s[i + 1] == '*' && nests ==> block_end(s, i, depth, nests) == block_end(
            s,
            i + 2,
            depth + 1,
            nests,
        ),
        s[i] == '/' && s[i + 1] == '*' && !nests ==> block_end(s, i, depth, nests) == block_end(
            s,
            i + 1,
            depth,
            nests,
        ),
{
}

// ── Dialects ──────────────────────────────────────────────────────────────────

/// Whether a letter, in either case, stands before `i` as a word of its own.
pub open spec fn follows_letter(s: Seq<char>, i: int, small: char, capital: char) -> bool {
    i > 0 && (s[i - 1] == small || s[i - 1] == capital) && (i == 1 || !name_char(s[i - 2]))
}

proof fn lemma_prefixed(s: Seq<char>, i: int)
    requires
        0 <= i <= s.len(),
    ensures
        is_prefixed(s, i, 'e') == follows_letter(s, i, 'e', 'E'),
        is_prefixed(s, i, 'q') == follows_letter(s, i, 'q', 'Q'),
        i > 0 ==> is_prefixed(s, i - 1, 'n') == follows_letter(s, i - 1, 'n', 'N'),
{
}

/// Where a quotation mark opens a quote, and where that ends: with a backslash as escape in
/// MySQL and in the `E'...'` strings of PostgreSQL, with a delimiter of its own behind `q` or
/// `nq` in Oracle, and by the standard everywhere else.
pub proof fn law_dialects_read_their_own_strings(s: Seq<char>, i: int)
    requires
        0 <= i < s.len(),
        s[i] == '\'',
    ensures
        piece(s, i, Dialect::MySql) == (Piece::Quoted { end: quote_end(s, i + 1, '\'', true) }),
        piece(s, i, Dialect::MsSql) == (Piece::Quoted { end: quote_end(s, i + 1, '\'', false) }),
        piece(s, i, Dialect::Postgres) == (Piece::Quoted {
            end: quote_end(s, i + 1, '\'', follows_letter(s, i, 'e', 'E')),
        }),
        follows_letter(s, i, 'q', 'Q') || (i > 0 && (s[i - 1] == 'q' || s[i - 1] == 'Q')
            && follows_letter(s, i - 1, 'n', 'N')) ==> piece(s, i, Dialect::Oracle) == (
        Piece::Quoted { end: delimited_end(s, i + 1) }),
        !(follows_letter(s, i, 'q', 'Q') || (i > 0 && (s[i - 1] == 'q' || s[i - 1] == 'Q')
            && follows_letter(s, i - 1, 'n', 'N'))) ==> piece(s, i, Dialect::Oracle) == (
        Piece::Quoted { end: quote_end(s, i + 1, '\'', false) }),
{
    lemma_prefixed(s, i);
}

/// The names that are quoted: with `"` in every dialect, with a backtick in MySQL, and with
/// brackets in SQL Server. Elsewhere those are single characters.
pub proof fn law_dialects_read_their_own_names(s: Seq<char>, i: int, d: Dialect)
    requires
        0 <= i < s.len(),
    ensures
        s[i] == '"' ==> piece(s, i, d) == (Piece::Quoted {
            end: quote_end(s, i + 1, '"', d is MySql),
        }),
        s[i] == '`' ==> piece(s, i, d) == (if d is MySql {
            Piece::Quoted { end: quote_end(s, i + 1, '`', false) }
        } else {
            Piece::Open { end: i + 1 }
        }),
        s[i] == '[' ==> piece(s, i, d) == (if d is MsSql {
            Piece::Quoted { end: quote_end(s, i + 1, ']', false) }
        } else {
            Piece::Open { end: i + 1 }
        }),
{
}

/// The comments of the dialects: `--` to the end of its line, in MySQL only before white
/// space or a control character; `#` in MySQL alone; and `/*` but for MySQL's `/*!`, nested
/// in PostgreSQL and SQL Server.
pub proof fn law_dialects_read_their_own_comments(s: Seq<char>, i: int, d: Dialect)
    requires
        0 <= i,
        i + 1 < s.len(),
    ensures
        s[i] == '-' && s[i + 1] == '-' && (!(d is MySql) || i + 2 == s.len() || s[i + 2] as int
            <= 0x20) ==> piece(s, i, d) == (Piece::Open { end: skip_until(s, i, '\n') }),
        s[i] == '-' && s[i + 1] == '-' && d is MySql && i + 2 < s.len() && s[i + 2] as int > 0x20
            ==> piece(s, i, d) == (Piece::Open { end: i + 1 }),
        s[i] == '#' ==> piece(s, i, d) == (Piece::Open {
            end: if d is MySql {
                skip_until(s, i, '\n')
            } else {
                i + 1
            },
        }),
        s[i] == '/' && s[i + 1] == '*' && !(d is MySql && i + 2 < s.len() && s[i + 2] == '!')
            ==> piece(s, i, d) == (Piece::Open {
            end: block_end(s, i + 2, 1, d is Postgres || d is MsSql),
        }),
        s[i] == '/' && s[i + 1] == '*' && d is MySql && i + 2 < s.len() && s[i + 2] == '!'
            ==> piece(s, i, d) == (Piece::Open { end: i + 1 }),
{
}

/// A dollar-quoted block is one piece in PostgreSQL, unless it starts inside a name; it is
/// parted at its tags, and its body is read as SQL of its own.
pub proof fn law_dollar_quotes_hold_sql(s: Seq<char>, i: int, d: Dialect) -> (m: int)
    requires
        0 <= i < s.len(),
        s[i] == '$',
    ensures
        !(d is Postgres) || (i > 0 && name_char(s[i - 1])) ==> piece(s, i, d) == (Piece::Open {
            end: i + 1,
        }),
        d is Postgres && (i == 0 || !name_char(s[i - 1])) ==> match piece(s, i, d) {
            Piece::Body { from, to, end } => from == m && to == end - (m - i) && is_dollar_block(
                s,
                i,
                end,
                m,
            ),
            Piece::Open { end } => end == i + 1 && is_lone_dollar(s, i),
            Piece::Quoted { .. } => false,
        },
{
    crate::laws::sanitizing::lemma_dollar(s, i)
}

/// A text is read piece by piece: what stands in code or in a comment is open, what stands in
/// a quote is not, the body of a dollar-quoted block is read on its own, and behind a piece
/// the next one decides.
pub proof fn law_texts_are_read_piece_by_piece(s: Seq<char>, i: int, q: int, d: Dialect)
    requires
        0 <= i <= q < s.len(),
    ensures
        match piece(s, i, d) {
            Piece::Open { end } => i < end ==> stands_open(s, i, q, d) == (q < end || stands_open(
                s,
                end,
                q,
                d,
            )),
            Piece::Quoted { end } => i < end ==> stands_open(s, i, q, d) == (q >= end
                && stands_open(s, end, q, d)),
            Piece::Body { from, to, end } => i < from && from <= to && to <= end && end <= s.len()
                ==> {
                &&& from <= q < to ==> stands_open(s, i, q, d) == stands_open(
                    s.subrange(from, to),
                    0,
                    q - from,
                    d,
                )
                &&& q >= end ==> stands_open(s, i, q, d) == stands_open(s, end, q, d)
                &&& q < from || to <= q < end ==> stands_open(s, i, q, d)
            },
        },
{
}

// ── Comments ──────────────────────────────────────────────────────────────────

/// Whether a comment starts at `q`: there is a `--`, and one of the dialects reads it outside
/// its quotes.
pub open spec fn comment_at(s: Seq<char>, q: int) -> bool {
    &&& 0 <= q
    &&& q + 1 < s.len()
    &&& s[q] == '-'
    &&& s[q + 1] == '-'
    &&& {
        ||| stands_open(s, 0, q, Dialect::Postgres)
        ||| stands_open(s, 0, q, Dialect::MySql)
        ||| stands_open(s, 0, q, Dialect::Oracle)
        ||| stands_open(s, 0, q, Dialect::MsSql)
    }
}

proof fn lemma_comment_at(s: Seq<char>, q: int)
    ensures
        is_comment(s, q) == comment_at(s, q),
{
    if is_comment(s, q) {
        let d = choose|d: Dialect| stands_open(s, 0, q, d);
        assert(d is Postgres || d is MySql || d is Oracle || d is MsSql);
    }
}

proof fn lemma_comment_start(s: Seq<char>, i: int, stop: int)
    requires
        0 <= i <= stop,
    ensures
        i <= comment_start(s, i, stop) <= stop,
        forall|j: int| i <= j < comment_start(s, i, stop) ==> !#[trigger] comment_at(s, j),
        comment_start(s, i, stop) < stop ==> comment_at(s, comment_start(s, i, stop)),
    decreases stop - i,
{
    lemma_comment_at(s, i);
    if i < stop && !is_comment(s, i) {
        lemma_comment_start(s, i + 1, stop);
    }
}

proof fn lemma_comments(s: Seq<char>, i: int, k: int) -> (r: (int, int, int))
    requires
        0 <= i <= s.len(),
        0 <= k < comments_from(s, i).len(),
    ensures
        comments_from(s, i).len() == lines_from(s, i).len(),
        0 <= r.0 <= r.1 <= r.2 <= s.len(),
        lines_from(s, i)[k] == s.subrange(r.0, r.2),
        comments_from(s, i)[k] == s.subrange(r.1, r.2),
        forall|j: int| r.0 <= j < r.1 ==> !#[trigger] comment_at(s, j),
        r.1 < r.2 ==> comment_at(s, r.1),
    decreases s.len() - i,
{
    lemma_skip_until_stop(s, i, '\n');
    let end = skip_until(s, i, '\n');
    let stop = line_stop(s, i, end);
    lemma_comment_start(s, i, stop);
    let c = comment_start(s, i, stop);
    if end < s.len() {
        assert(strip_cr(s.subrange(i, end)) =~= s.subrange(i, stop)) by {
            if i < end {
                assert(s.subrange(i, end).last() == s[end - 1]);
            }
        }
        if end + 1 < s.len() {
            let r = lemma_comments(
                s,
                end + 1,
                if k > 0 {
                    k - 1
                } else {
                    0
                },
            );
            if k > 0 {
                r
            } else {
                (i, c, stop)
            }
        } else {
            assert(comments_from(s, end + 1) =~= seq![]);
            assert(lines_from(s, end + 1) =~= seq![]);
            (i, c, stop)
        }
    } else {
        (i, c, stop)
    }
}

/// Each line of a text has its comment: what stands on it from the first `--` on that one of
/// the dialects reads outside its quotes. On a line without one it is empty.
pub proof fn law_comments_stand_on_their_line(sql: Seq<char>, k: int) -> (r: (int, int, int))
    requires
        0 <= k < comments(sql).len(),
    ensures
        comments(sql).len() == lines(sql).len(),
        0 <= r.0 <= r.1 <= r.2 <= sql.len(),
        lines(sql)[k] == sql.subrange(r.0, r.2),
        comments(sql)[k] == sql.subrange(r.1, r.2),
        forall|j: int| r.0 <= j < r.1 ==> !#[trigger] comment_at(sql, j),
        r.1 < r.2 ==> comment_at(sql, r.1),
{
    lemma_comments(sql, 0, k)
}

} // verus!
