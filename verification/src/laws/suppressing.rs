//! A directive suppresses the rule that it names, and no other.
use vstd::prelude::*;
use crate::baseline::{directive_reason, first_reason, law_directives_behind_dashes_count, law_suppressions_stand_behind_dashes, line_reason, suppression};
use crate::comments::{behind_dashes, comments};
use crate::laws::texts::{law_find, law_lines};
use crate::text::{find_seq, lemma_skip_until_at, lemma_skip_until_stop, lines, lower, lowered, occurs_at, skip_until, trim};

verus! {

/// Whether two characters are the same, or the same letter of ASCII in two cases.
pub open spec fn same_letter(x: char, y: char) -> bool {
    ||| x == y
    ||| ('A' <= x <= 'Z' && y as int == x as int + 32)
    ||| ('A' <= y <= 'Z' && x as int == y as int + 32)
}

/// Whether two names are the same, character by character, but for their case.
pub open spec fn same_rule(a: Seq<char>, b: Seq<char>) -> bool {
    a.len() == b.len() && forall|i: int|
        0 <= i < a.len() ==> same_letter(#[trigger] a[i], b[i])
}

/// Whether `marker` stands in `line` at `j`, in any case.
pub open spec fn stands(line: Seq<char>, j: int, marker: Seq<char>) -> bool {
    0 <= j && j + marker.len() <= line.len() && same_rule(
        line.subrange(j, j + marker.len()),
        marker,
    )
}

/// The two spellings of the directive.
pub open spec fn is_marker(marker: Seq<char>) -> bool {
    marker == "vetro:ignore["@ || marker == "vericto:ignore["@
}

proof fn lemma_same_letter(x: char, y: char)
    ensures
        same_letter(x, y) <==> lower(x) == lower(y),
{
}

pub proof fn lemma_same_rule(a: Seq<char>, b: Seq<char>)
    ensures
        same_rule(a, b) <==> lowered(a) == lowered(b),
{
    if same_rule(a, b) {
        assert forall|i: int| 0 <= i < a.len() implies lowered(a)[i] == lowered(b)[i] by {
            lemma_same_letter(a[i], b[i]);
        }
        assert(lowered(a) =~= lowered(b));
    }
    if lowered(a) == lowered(b) {
        assert(lowered(a).len() == a.len() && lowered(b).len() == b.len());
        assert forall|i: int| 0 <= i < a.len() implies same_letter(#[trigger] a[i], b[i]) by {
            assert(lowered(a)[i] == lowered(b)[i]);
            lemma_same_letter(a[i], b[i]);
        }
    }
}

proof fn lemma_marker(marker: Seq<char>)
    requires
        is_marker(marker),
    ensures
        lowered(marker) == marker,
        12 < marker.len() < 16,
{
    reveal_strlit("vetro:ignore[");
    reveal_strlit("vericto:ignore[");
    assert(lowered(marker) =~= marker);
}

proof fn lemma_stands(line: Seq<char>, j: int, marker: Seq<char>)
    requires
        is_marker(marker),
    ensures
        stands(line, j, marker) <==> occurs_at(lowered(line), j, marker),
{
    lemma_marker(marker);
    if 0 <= j && j + marker.len() <= line.len() {
        let here = line.subrange(j, j + marker.len());
        lemma_same_rule(here, marker);
        assert(lowered(line).subrange(j, j + marker.len()) =~= lowered(here));
    }
}

/// Whether the first directive on `line` with this marker starts at `p`, and the name in it
/// ends at `c`.
pub open spec fn is_directive(line: Seq<char>, marker: Seq<char>, p: int, c: int) -> bool {
    &&& stands(line, p, marker)
    &&& forall|j: int| 0 <= j < p ==> !#[trigger] stands(line, j, marker)
    &&& p + marker.len() <= c < line.len()
    &&& line[c] == ']'
    &&& forall|i: int| p + marker.len() <= i < c ==> #[trigger] line[i] != ']'
}

/// The name in a directive.
pub open spec fn name_in(line: Seq<char>, marker: Seq<char>, p: int, c: int) -> Seq<char> {
    trim(line.subrange(p + marker.len(), c))
}

/// The reason in a directive.
pub open spec fn reason_in(line: Seq<char>, c: int) -> Seq<char> {
    trim(line.subrange(c + 1, line.len() as int))
}

/// A directive gives its reason for the rule that it names, whatever the case, and for no
/// other; without a reason it gives none.
pub proof fn law_directives_name_their_rule(
    line: Seq<char>,
    marker: Seq<char>,
    code: Seq<char>,
    p: int,
    c: int,
)
    requires
        is_marker(marker),
        is_directive(line, marker, p, c),
    ensures
        directive_reason(line, marker, code) == (if same_rule(name_in(line, marker, p, c), code)
            && reason_in(line, c).len() > 0 {
            Some(reason_in(line, c))
        } else {
            None
        }),
{
    lemma_stands(line, p, marker);
    law_find(lowered(line), 0, marker);
    match find_seq(lowered(line), 0, marker) {
        Some(q) => {
            lemma_stands(line, q, marker);
            assert(q == p) by {
                if q < p {
                    assert(stands(line, q, marker));
                }
            }
        },
        None => {},
    }
    lemma_skip_until_at(line, p + marker.len(), c, ']');
    lemma_same_rule(name_in(line, marker, p, c), code);
}

/// Where a comment gives a reason, it holds a directive that names the rule.
proof fn lemma_reason_of_a_directive(line: Seq<char>, marker: Seq<char>, code: Seq<char>) -> (r: (
    int,
    int,
))
    requires
        is_marker(marker),
        directive_reason(line, marker, code) is Some,
    ensures
        is_directive(line, marker, r.0, r.1),
        same_rule(name_in(line, marker, r.0, r.1), code),
        directive_reason(line, marker, code) == Some(reason_in(line, r.1)),
        reason_in(line, r.1).len() > 0,
{
    law_find(lowered(line), 0, marker);
    let p = find_seq(lowered(line), 0, marker)->Some_0;
    lemma_stands(line, p, marker);
    assert forall|j: int| 0 <= j < p implies !#[trigger] stands(line, j, marker) by {
        lemma_stands(line, j, marker);
    }
    let c = skip_until(line, (p + marker.len()) as int, ']');
    lemma_skip_until_stop(line, (p + marker.len()) as int, ']');
    lemma_same_rule(name_in(line, marker, p, c), code);
    (p, c)
}

/// What a suppression rests on: the comment, the spelling of its directive, and where that
/// starts and its name ends.
pub struct Ground {
    pub comment: int,
    pub marker: Seq<char>,
    pub start: int,
    pub close: int,
}

proof fn lemma_ground(ls: Seq<Seq<char>>, code: Seq<char>) -> (g: Ground)
    requires
        first_reason(ls, code) is Some,
    ensures
        0 <= g.comment < ls.len(),
        is_marker(g.marker),
        is_directive(ls[g.comment], g.marker, g.start, g.close),
        same_rule(name_in(ls[g.comment], g.marker, g.start, g.close), code),
        first_reason(ls, code) == Some(reason_in(ls[g.comment], g.close)),
        reason_in(ls[g.comment], g.close).len() > 0,
    decreases ls.len(),
{
    if line_reason(ls[0], code) is Some {
        let marker = if directive_reason(ls[0], "vetro:ignore["@, code) is Some {
            "vetro:ignore["@
        } else {
            "vericto:ignore["@
        };
        let (start, close) = lemma_reason_of_a_directive(ls[0], marker, code);
        Ground { comment: 0, marker, start, close }
    } else {
        let g = lemma_ground(ls.drop_first(), code);
        Ground { comment: g.comment + 1, marker: g.marker, start: g.start, close: g.close }
    }
}

/// Every suppression rests on a directive in a comment that names the rule in full, and its
/// reason is the one that stands behind that name.
pub proof fn law_suppressions_rest_on_a_directive(sql: Seq<char>, code: Seq<char>) -> (g: Ground)
    requires
        suppression(sql, code) is Some,
    ensures
        0 <= g.comment < comments(sql).len(),
        is_marker(g.marker),
        is_directive(comments(sql)[g.comment], g.marker, g.start, g.close),
        same_rule(name_in(comments(sql)[g.comment], g.marker, g.start, g.close), code),
        suppression(sql, code) == Some(reason_in(comments(sql)[g.comment], g.close)),
        reason_in(comments(sql)[g.comment], g.close).len() > 0,
{
    lemma_ground(comments(sql), code)
}

/// A line of SQL with one directive behind `--`: what stands before the comment, what
/// stands between `--` and the directive, the spelling of the marker, the name and the
/// reason.
pub open spec fn directive_line(
    head: Seq<char>,
    gap: Seq<char>,
    spelling: Seq<char>,
    name: Seq<char>,
    reason: Seq<char>,
) -> Seq<char> {
    head + seq!['-', '-'] + gap + spelling + name + seq![']'] + reason
}

proof fn lemma_dashes(line: Seq<char>, at: int) -> (q: int)
    requires
        0 <= at,
        at + 1 < line.len(),
        line[at] == '-',
        line[at + 1] == '-',
    ensures
        0 <= q <= at,
        behind_dashes(line) == line.subrange(q, line.len() as int),
{
    let dashes = seq!['-', '-'];
    law_find(line, 0, dashes);
    assert(line.subrange(at, at + 2) =~= dashes);
    assert(occurs_at(line, at, dashes));
    let q = find_seq(line, 0, dashes)->Some_0;
    assert(line.skip(q) =~= line.subrange(q, line.len() as int));
    q
}

proof fn lemma_stands_behind(line: Seq<char>, q: int, j: int, marker: Seq<char>)
    requires
        0 <= q <= line.len(),
        0 <= j,
    ensures
        stands(line.subrange(q, line.len() as int), j, marker) <==> stands(line, q + j, marker),
{
    let rest = line.subrange(q, line.len() as int);
    if j + marker.len() <= rest.len() {
        assert(rest.subrange(j, j + marker.len()) =~= line.subrange(q + j, q + j + marker.len()));
    }
}

/// On a line whose only directive names a rule, that rule is suppressed, in any case, and no
/// other rule is; the reason is what stands behind the name, and without one nothing is
/// suppressed.
pub proof fn law_a_directive_suppresses_the_rule_it_names(
    head: Seq<char>,
    gap: Seq<char>,
    spelling: Seq<char>,
    name: Seq<char>,
    reason: Seq<char>,
    marker: Seq<char>,
    code: Seq<char>,
)
    requires
        is_marker(marker),
        same_rule(spelling, marker),
        forall|i: int| 0 <= i < name.len() ==> #[trigger] name[i] != ']',
        forall|i: int|
            0 <= i < directive_line(head, gap, spelling, name, reason).len() ==> (
            #[trigger] directive_line(head, gap, spelling, name, reason)[i]) != '\''
                && directive_line(head, gap, spelling, name, reason)[i] != '"' && directive_line(
                head,
                gap,
                spelling,
                name,
                reason,
            )[i] != '\n',
        forall|m: Seq<char>, j: int|
            is_marker(m) && #[trigger] stands(
                directive_line(head, gap, spelling, name, reason),
                j,
                m,
            ) ==> m == marker && j == head.len() + 2 + gap.len(),
    ensures
        suppression(directive_line(head, gap, spelling, name, reason), code) == (if same_rule(
            trim(name),
            code,
        ) && trim(reason).len() > 0 {
            Some(trim(reason))
        } else {
            None
        }),
{
    let s = directive_line(head, gap, spelling, name, reason);
    lemma_marker(marker);
    let h = head.len() as int;
    let p0 = h + 2 + gap.len();
    let c0 = p0 + marker.len() + name.len();
    assert(s[h] == '-' && s[h + 1] == '-');
    let q = lemma_dashes(s, h);
    let line = s.subrange(q, s.len() as int);
    law_lines(s, seq![]);
    assert(lines(s) == seq![s]);
    // Where the directive stands on the line.
    assert(s.subrange(p0, p0 + marker.len()) =~= spelling);
    assert(stands(s, p0, marker));
    let p = p0 - q;
    let c = c0 - q;
    lemma_stands_behind(s, q, p, marker);
    assert forall|j: int| 0 <= j < p implies !#[trigger] stands(line, j, marker) by {
        lemma_stands_behind(s, q, j, marker);
    }
    assert(line[c] == s[c0]);
    assert(s[c0] == ']');
    assert forall|i: int| p + marker.len() <= i < c implies #[trigger] line[i] != ']' by {
        assert(line[i] == s[i + q]);
        assert(s[i + q] == name[i + q - p0 - marker.len()]);
    }
    assert(is_directive(line, marker, p, c));
    law_directives_name_their_rule(line, marker, code, p, c);
    assert(line.subrange(p + marker.len(), c) =~= name);
    assert(line.subrange(c + 1, line.len() as int) =~= reason);
    // The other spelling does not stand on it.
    let other = if marker == "vetro:ignore["@ {
        "vericto:ignore["@
    } else {
        "vetro:ignore["@
    };
    assert(other != marker) by {
        reveal_strlit("vetro:ignore[");
        reveal_strlit("vericto:ignore[");
        assert("vetro:ignore["@.len() != "vericto:ignore["@.len());
    }
    if directive_reason(line, other, code) is Some {
        let (x, y) = lemma_reason_of_a_directive(line, other, code);
        lemma_stands_behind(s, q, x, other);
    }
    assert(line_reason(line, code) == directive_reason(line, marker, code));
    assert(behind_dashes(lines(s)[0]) == line);
    if line_reason(line, code) is Some {
        law_directives_behind_dashes_count(s, code, 0);
    } else {
        law_suppressions_stand_behind_dashes(s, code);
    }
}

} // verus!
