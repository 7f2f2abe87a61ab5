//! Letters, white space, lines, pieces and numbers of a text.
use vstd::prelude::*;
use crate::text::{decimal, digit_of, find_seq, is_space, lemma_skip_until_at, lemma_skip_until_stop, lines, lines_from, lowered, nonblank, occurs_at, parsed_number, skip_until, split, split_from, trim, trim_end, trim_start};

verus! {

/// The characters that count as white space.
pub open spec fn white() -> Seq<int> {
    seq![
        9,
        10,
        11,
        12,
        13,
        32,
        0x85,
        0xa0,
        0x1680,
        0x2000,
        0x2001,
        0x2002,
        0x2003,
        0x2004,
        0x2005,
        0x2006,
        0x2007,
        0x2008,
        0x2009,
        0x200a,
        0x2028,
        0x2029,
        0x202f,
        0x205f,
        0x3000,
    ]
}

pub proof fn law_white_space(c: char)
    ensures
        is_space(c) <==> white().contains(c as int),
{
    let w = white();
    assert(w[0] == 9 && w[1] == 10 && w[2] == 11 && w[3] == 12 && w[4] == 13 && w[5] == 32 && w[6]
        == 0x85 && w[7] == 0xa0 && w[8] == 0x1680 && w[9] == 0x2000 && w[10] == 0x2001 && w[11]
        == 0x2002 && w[12] == 0x2003 && w[13] == 0x2004 && w[14] == 0x2005 && w[15] == 0x2006
        && w[16] == 0x2007 && w[17] == 0x2008 && w[18] == 0x2009 && w[19] == 0x200a && w[20]
        == 0x2028 && w[21] == 0x2029 && w[22] == 0x202f && w[23] == 0x205f && w[24] == 0x3000);
}

/// Case is folded for the letters of ASCII and no other character: each capital becomes
/// the small letter with the same place in the alphabet.
pub proof fn law_lower_case(s: Seq<char>, i: int)
    requires
        0 <= i < s.len(),
    ensures
        lowered(s).len() == s.len(),
        'A' <= s[i] <= 'Z' ==> lowered(s)[i] as int - 'a' as int == s[i] as int - 'A' as int,
        !('A' <= s[i] <= 'Z') ==> lowered(s)[i] == s[i],
{
}

proof fn lemma_trim_start(s: Seq<char>) -> (a: int)
    ensures
        0 <= a <= s.len(),
        trim_start(s) == s.subrange(a, s.len() as int),
        forall|i: int| 0 <= i < a ==> is_space(#[trigger] s[i]),
        a < s.len() ==> !is_space(s[a]),
    decreases s.len(),
{
    if s.len() > 0 && is_space(s[0]) {
        let rest = s.drop_first();
        let a = lemma_trim_start(rest);
        assert forall|i: int| 0 <= i < a + 1 implies is_space(#[trigger] s[i]) by {
            if i > 0 {
                assert(rest[i - 1] == s[i]);
            }
        }
        assert(rest.subrange(a, rest.len() as int) =~= s.subrange(a + 1, s.len() as int));
        a + 1
    } else {
        assert(s.subrange(0, s.len() as int) =~= s);
        0
    }
}

proof fn lemma_trim_end(s: Seq<char>) -> (b: int)
    ensures
        0 <= b <= s.len(),
        trim_end(s) == s.subrange(0, b),
        forall|i: int| b <= i < s.len() ==> is_space(#[trigger] s[i]),
        b > 0 ==> !is_space(s[b - 1]),
    decreases s.len(),
{
    if s.len() > 0 && is_space(s.last()) {
        let rest = s.drop_last();
        let b = lemma_trim_end(rest);
        assert forall|i: int| b <= i < s.len() implies is_space(#[trigger] s[i]) by {
            if i < rest.len() {
                assert(rest[i] == s[i]);
            }
        }
        assert(rest.subrange(0, b) =~= s.subrange(0, b));
        b
    } else {
        assert(s.subrange(0, s.len() as int) =~= s);
        s.len() as int
    }
}

/// Trimming takes away the white space at both ends and nothing else.
pub proof fn law_trim(s: Seq<char>) -> (r: (int, int))
    ensures
        0 <= r.0 <= r.1 <= s.len(),
        trim(s) == s.subrange(r.0, r.1),
        forall|i: int| 0 <= i < r.0 || r.1 <= i < s.len() ==> white().contains(
            #[trigger] s[i] as int,
        ),
        r.0 < r.1 ==> !white().contains(s[r.0] as int) && !white().contains(s[r.1 - 1] as int),
{
    let a = lemma_trim_start(s);
    let t = s.subrange(a, s.len() as int);
    let b = lemma_trim_end(t);
    assert(t.subrange(0, b) =~= s.subrange(a, a + b));
    assert forall|i: int| 0 <= i < a || a + b <= i < s.len() implies white().contains(
        #[trigger] s[i] as int,
    ) by {
        law_white_space(s[i]);
        if i >= a {
            assert(t[i - a] == s[i]);
        }
    }
    if b > 0 {
        law_white_space(s[a]);
        law_white_space(s[a + b - 1]);
        assert(t[b - 1] == s[a + b - 1]);
    }
    (a, a + b)
}

/// A text without white space at its ends is left as it stands, and a text of white space
/// alone becomes empty.
pub proof fn law_trim_is_exact(s: Seq<char>)
    ensures
        s.len() > 0 && !white().contains(s[0] as int) && !white().contains(s.last() as int)
            ==> trim(s) == s,
        trim(s).len() == 0 <==> forall|i: int|
            0 <= i < s.len() ==> white().contains(#[trigger] s[i] as int),
        trim(trim(s)) == trim(s),
{
    let (a, b) = law_trim(s);
    if s.len() > 0 && !white().contains(s[0] as int) && !white().contains(s.last() as int) {
        assert(a == 0) by {
            if a > 0 {
                assert(white().contains(s[0] as int));
            }
        }
        assert(b == s.len()) by {
            if b < s.len() {
                assert(white().contains(s[s.len() - 1] as int));
            }
        }
        assert(s.subrange(0, s.len() as int) =~= s);
    }
    if a < b {
        assert(!white().contains(s[a] as int));
        let t = trim(s);
        let (c, d) = law_trim(t);
        assert(t[0] == s[a] && t[t.len() - 1] == s[b - 1]);
        assert(c == 0) by {
            if c > 0 {
                assert(white().contains(t[0] as int));
            }
        }
        assert(d == t.len()) by {
            if d < t.len() {
                assert(white().contains(t[t.len() - 1] as int));
            }
        }
        assert(t.subrange(0, t.len() as int) =~= t);
    } else {
        assert(trim(s) =~= seq![]);
        let (c, d) = law_trim(trim(s));
        assert(trim(trim(s)) =~= seq![]);
    }
}

proof fn lemma_find_first(s: Seq<char>, i: int, needle: Seq<char>)
    ensures
        match find_seq(s, i, needle) {
            Some(p) => i <= p && occurs_at(s, p, needle) && forall|j: int|
                i <= j < p ==> !#[trigger] occurs_at(s, j, needle),
            None => forall|j: int| i <= j ==> !#[trigger] occurs_at(s, j, needle),
        },
    decreases s.len() + 1 - i,
{
    if i <= s.len() && !occurs_at(s, i, needle) {
        lemma_find_first(s, i + 1, needle);
    }
}

/// A text is found at the first place where it stands, and it is found wherever it stands.
pub proof fn law_find(s: Seq<char>, i: int, needle: Seq<char>)
    requires
        0 <= i,
    ensures
        match find_seq(s, i, needle) {
            Some(p) => i <= p && p + needle.len() <= s.len() && s.subrange(p, p + needle.len())
                == needle && forall|j: int|
                i <= j < p ==> !#[trigger] occurs_at(s, j, needle),
            None => forall|j: int| i <= j ==> !#[trigger] occurs_at(s, j, needle),
        },
        forall|j: int| #[trigger]
            occurs_at(s, j, needle) <==> 0 <= j && j + needle.len() <= s.len() && s.subrange(
                j,
                j + needle.len(),
            ) == needle,
{
    lemma_find_first(s, i, needle);
}

// ── Lines and pieces ──────────────────────────────────────────────────────────

proof fn lemma_skip_shift(a: Seq<char>, b: Seq<char>, i: int, c: char)
    requires
        0 <= i <= b.len(),
    ensures
        skip_until(a + b, a.len() + i, c) == a.len() + skip_until(b, i, c),
    decreases b.len() - i,
{
    if i < b.len() && b[i] != c {
        assert((a + b)[a.len() + i] == b[i]);
        lemma_skip_shift(a, b, i + 1, c);
    } else if i < b.len() {
        assert((a + b)[a.len() + i] == b[i]);
    }
}

proof fn lemma_lines_shift(a: Seq<char>, b: Seq<char>, i: int)
    requires
        0 <= i <= b.len(),
    ensures
        lines_from(a + b, a.len() + i) == lines_from(b, i),
    decreases b.len() - i,
{
    if i < b.len() {
        lemma_skip_shift(a, b, i, '\n');
        lemma_skip_until_stop(b, i, '\n');
        let end = skip_until(b, i, '\n');
        assert((a + b).subrange(a.len() + i, a.len() + end) =~= b.subrange(i, end));
        if end < b.len() {
            lemma_lines_shift(a, b, end + 1);
        }
    }
}

/// A text is parted into lines at its line feeds; a carriage return before a line feed
/// belongs to the line ending, and the end of the text ends the last line.
pub proof fn law_lines(line: Seq<char>, rest: Seq<char>)
    requires
        forall|i: int| 0 <= i < line.len() ==> #[trigger] line[i] != '\n',
    ensures
        lines(line + seq!['\n'] + rest) == seq![
            if line.len() > 0 && line.last() == '\r' {
                line.drop_last()
            } else {
                line
            },
        ] + lines(rest),
        line.len() > 0 ==> lines(line) == seq![line],
        line.len() == 0 ==> lines(line) == Seq::<Seq<char>>::empty(),
{
    let s = line + seq!['\n'] + rest;
    let n = line.len() as int;
    assert(s[n] == '\n');
    assert forall|k: int| 0 <= k < n implies (#[trigger] s[k]) != '\n' by {
        assert(s[k] == line[k]);
    }
    lemma_skip_until_at(s, 0, n, '\n');
    lemma_skip_until_at(line, 0, n, '\n');
    assert(s.subrange(0, n) =~= line);
    assert(line.subrange(0, n) =~= line);
    lemma_lines_shift(line + seq!['\n'], rest, 0);
}

proof fn lemma_split_shift(a: Seq<char>, b: Seq<char>, i: int, c: char)
    requires
        0 <= i <= b.len(),
    ensures
        split_from(a + b, a.len() + i, c) == split_from(b, i, c),
    decreases b.len() - i,
{
    lemma_skip_shift(a, b, i, c);
    lemma_skip_until_stop(b, i, c);
    let end = skip_until(b, i, c);
    assert((a + b).subrange(a.len() + i, a.len() + end) =~= b.subrange(i, end));
    if end < b.len() {
        lemma_split_shift(a, b, end + 1, c);
    }
}

/// A text is parted at every `c`, and only there.
pub proof fn law_split(piece: Seq<char>, rest: Seq<char>, c: char)
    requires
        forall|i: int| 0 <= i < piece.len() ==> #[trigger] piece[i] != c,
    ensures
        split(piece + seq![c] + rest, c) == seq![piece] + split(rest, c),
        split(piece, c) == seq![piece],
{
    let s = piece + seq![c] + rest;
    let n = piece.len() as int;
    assert(s[n] == c);
    assert forall|k: int| 0 <= k < n implies (#[trigger] s[k]) != c by {
        assert(s[k] == piece[k]);
    }
    lemma_skip_until_at(s, 0, n, c);
    lemma_skip_until_at(piece, 0, n, c);
    assert(s.subrange(0, n) =~= piece);
    assert(piece.subrange(0, n) =~= piece);
    lemma_split_shift(piece + seq![c], rest, 0, c);
}

/// Blank texts are left out, the others trimmed, in order.
pub proof fn law_nonblank(ts: Seq<Seq<char>>)
    ensures
        nonblank(ts) == ts.map_values(|t: Seq<char>| trim(t)).filter(|t: Seq<char>| t.len() > 0),
    decreases ts.len(),
{
    reveal(Seq::filter);
    let all = ts.map_values(|t: Seq<char>| trim(t));
    if ts.len() > 0 {
        law_nonblank(ts.drop_last());
        assert(all.drop_last() =~= ts.drop_last().map_values(|t: Seq<char>| trim(t)));
        assert(all.last() == trim(ts.last()));
    }
}

// ── Numbers ───────────────────────────────────────────────────────────────────

/// What the digits of a text are worth in base ten.
pub open spec fn worth(s: Seq<char>) -> nat
    decreases s.len(),
{
    if s.len() == 0 {
        0
    } else {
        (10 * worth(s.drop_last()) + (s.last() as int - '0' as int)) as nat
    }
}

/// A number is written in base ten, without leading zeros.
pub proof fn law_decimal(n: nat)
    ensures
        worth(decimal(n)) == n,
        forall|i: int| 0 <= i < decimal(n).len() ==> '0' <= #[trigger] decimal(n)[i] <= '9',
        decimal(n).len() > 0,
        decimal(n).len() > 1 ==> decimal(n)[0] != '0',
        n > 0 ==> decimal(n)[0] != '0',
    decreases n,
{
    assert(forall|d: nat| d < 10 ==> '0' <= #[trigger] digit_of(d) <= '9' && digit_of(d) as int
        == 48 + d);
    if n < 10 {
        assert(decimal(n).drop_last() =~= seq![]);
        assert(worth(decimal(n).drop_last()) == 0);
    } else {
        law_decimal(n / 10);
        assert(decimal(n).drop_last() =~= decimal(n / 10));
        assert(n % 10 < 10);
    }
}

proof fn lemma_worth(s: Seq<char>)
    requires
        forall|i: int| 0 <= i < s.len() ==> '0' <= #[trigger] s[i] <= '9',
    ensures
        crate::text::digits_value(s) == worth(s),
    decreases s.len(),
{
    if s.len() > 0 {
        lemma_worth(s.drop_last());
    }
}

/// Digits are read as a number in base ten, with or without a plus sign before them; nothing
/// else is a number, nor is what exceeds the limit.
pub proof fn law_parsed_number(s: Seq<char>, max: nat)
    ensures
        s.len() > 0 && (forall|i: int| 0 <= i < s.len() ==> '0' <= #[trigger] s[i] <= '9') && worth(
            s,
        ) <= max ==> parsed_number(s, max) == Some(worth(s)) && parsed_number(seq!['+'] + s, max)
            == Some(worth(s)),
        parsed_number(s, max) matches Some(n) ==> n <= max && s.len() > 0 && (forall|i: int|
            0 < i < s.len() ==> '0' <= #[trigger] s[i] <= '9') && ('0' <= s[0] <= '9' || (s[0]
            == '+' && s.len() > 1)),
{
    let all = forall|i: int| 0 <= i < s.len() ==> '0' <= #[trigger] s[i] <= '9';
    if s.len() > 0 && all && worth(s) <= max {
        lemma_worth(s);
        assert('0' <= s[0] <= '9');
        assert((seq!['+'] + s).drop_first() =~= s);
    }
    if parsed_number(s, max) is Some {
        if s[0] == '+' {
            assert forall|i: int| 0 < i < s.len() implies '0' <= #[trigger] s[i] <= '9' by {
                assert(s.drop_first()[i - 1] == s[i]);
            }
        } else {
            assert('0' <= s[0] <= '9');
        }
    }
}

/// A number that was written is read back.
pub proof fn law_numbers_read_back(n: nat, max: nat)
    requires
        n <= max,
    ensures
        parsed_number(decimal(n), max) == Some(n),
{
    law_decimal(n);
    law_parsed_number(decimal(n), max);
}

} // verus!
