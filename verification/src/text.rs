//! Text primitives shared by every module. A string is modelled by the sequence
//! of its characters; each function here is total and exact on that model.
use vstd::prelude::*;
use vstd::string::*;

verus! {

/// `String::push` appends one character to the end of the string.
pub assume_specification[ String::push ](s: &mut String, c: char)
    ensures
        final(s)@ == old(s)@.push(c),
;

/// The characters that some bytes stand for, as `String::from_utf8_lossy` reads them.
pub uninterp spec fn utf8_lossy(bytes: Seq<u8>) -> Seq<char>;

/// The text that some bytes stand for: what they encode, or where they are no UTF-8, what
/// is left of it with the faults replaced.
pub open spec fn text_of(bytes: Seq<u8>) -> Seq<char> {
    if vstd::utf8::valid_utf8(bytes) {
        vstd::utf8::decode_utf8(bytes)
    } else {
        utf8_lossy(bytes)
    }
}

/// `String::from_utf8_lossy` decodes UTF-8; bytes that are none are replaced, in a way
/// that depends on the bytes alone.
#[verifier::external_body]
pub(crate) fn lossy_text(bytes: &[u8]) -> (r: String)
    ensures
        r@ == utf8_lossy(bytes@),
        vstd::utf8::valid_utf8(bytes@) ==> r@ == vstd::utf8::decode_utf8(bytes@),
{
    String::from_utf8_lossy(bytes).into_owned()
}

// ── Character classes ─────────────────────────────────────────────────────────

pub open spec fn is_digit(c: char) -> bool {
    '0' <= c <= '9'
}

pub open spec fn is_letter(c: char) -> bool {
    'a' <= c <= 'z' || 'A' <= c <= 'Z'
}

/// The Unicode `White_Space` property.
pub open spec fn is_space(c: char) -> bool {
    let n = c as u32;
    ||| 0x9 <= n <= 0xd
    ||| n == 0x20
    ||| n == 0x85
    ||| n == 0xa0
    ||| n == 0x1680
    ||| 0x2000 <= n <= 0x200a
    ||| n == 0x2028
    ||| n == 0x2029
    ||| n == 0x202f
    ||| n == 0x205f
    ||| n == 0x3000
}

/// ASCII lower-casing; every other character is left alone.
pub open spec fn lower(c: char) -> char {
    if 'A' <= c <= 'Z' {
        ((c as u32 + 32) as u32) as char
    } else {
        c
    }
}

pub open spec fn lowered(s: Seq<char>) -> Seq<char> {
    s.map_values(|c: char| lower(c))
}

pub fn digit_char(c: char) -> (r: bool)
    ensures
        r == is_digit(c),
{
    '0' <= c && c <= '9'
}

pub fn letter_char(c: char) -> (r: bool)
    ensures
        r == is_letter(c),
{
    ('a' <= c && c <= 'z') || ('A' <= c && c <= 'Z')
}

pub fn space_char(c: char) -> (r: bool)
    ensures
        r == is_space(c),
{
    let n: u32 = c as u32;
    (0x9 <= n && n <= 0xd) || n == 0x20 || n == 0x85 || n == 0xa0 || n == 0x1680 || (0x2000 <= n
        && n <= 0x200a) || n == 0x2028 || n == 0x2029 || n == 0x202f || n == 0x205f || n == 0x3000
}

pub fn lower_char(c: char) -> (r: char)
    ensures
        r == lower(c),
{
    if 'A' <= c && c <= 'Z' {
        ((c as u8) + 32) as char
    } else {
        c
    }
}

// ── Building and taking apart ─────────────────────────────────────────────────

pub fn to_chars(s: &str) -> (out: Vec<char>)
    ensures
        out@ == s@,
{
    let mut out: Vec<char> = Vec::new();
    for c in it: s.chars()
        invariant
            it.seq() == s@,
            out@ == it.seq().take(it.index()),
    {
        out.push(c);
    }
    out
}

/// The characters `from..to` as a string.
pub fn slice_text(cs: &[char], from: usize, to: usize) -> (out: String)
    requires
        from <= to <= cs@.len(),
    ensures
        out@ == cs@.subrange(from as int, to as int),
{
    let mut out: String = String::new();
    let mut i: usize = from;
    while i < to
        invariant
            from <= i <= to <= cs@.len(),
            out@ == cs@.subrange(from as int, i as int),
        decreases to - i,
    {
        out.push(cs[i]);
        i = i + 1;
    }
    out
}

pub fn from_chars(cs: &[char]) -> (out: String)
    ensures
        out@ == cs@,
{
    let out = slice_text(cs, 0, cs.len());
    assert(out@ =~= cs@);
    out
}

/// Appends the characters `from..to` of `cs` to `out`.
pub fn copy_chars(out: &mut Vec<char>, cs: &[char], from: usize, to: usize)
    requires
        from <= to <= cs@.len(),
    ensures
        final(out)@ == old(out)@ + cs@.subrange(from as int, to as int),
{
    let mut i: usize = from;
    while i < to
        invariant
            from <= i <= to <= cs@.len(),
            out@ == old(out)@ + cs@.subrange(from as int, i as int),
        decreases to - i,
    {
        out.push(cs[i]);
        i = i + 1;
    }
}

/// Whether two strings hold the same characters.
pub fn same_text(a: &str, b: &str) -> (r: bool)
    ensures
        r == (a@ == b@),
{
    let x = a.as_bytes();
    let y = b.as_bytes();
    proof {
        vstd::utf8::encode_utf8_decode_utf8(a@);
        vstd::utf8::encode_utf8_decode_utf8(b@);
    }
    if x.len() != y.len() {
        return false;
    }
    let mut i: usize = 0;
    while i < x.len()
        invariant
            i <= x@.len(),
            x@.len() == y@.len(),
            x@ == vstd::utf8::encode_utf8(a@),
            y@ == vstd::utf8::encode_utf8(b@),
            forall|k: int| 0 <= k < i ==> x@[k] == y@[k],
        decreases x@.len() - i,
    {
        if x[i] != y[i] {
            return false;
        }
        i = i + 1;
    }
    assert(x@ =~= y@);
    true
}

/// The first position from `i` on that holds `c`, or the end of the text.
pub open spec fn skip_until(s: Seq<char>, i: int, c: char) -> int
    decreases s.len() - i,
{
    if i >= s.len() || s[i] == c {
        i
    } else {
        skip_until(s, i + 1, c)
    }
}

pub fn scan_until(s: &[char], from: usize, c: char) -> (r: usize)
    requires
        from <= s@.len(),
    ensures
        r == skip_until(s@, from as int, c),
        from <= r <= s@.len(),
{
    let mut i: usize = from;
    while i < s.len() && s[i] != c
        invariant
            from <= i <= s@.len(),
            skip_until(s@, from as int, c) == skip_until(s@, i as int, c),
        decreases s@.len() - i,
    {
        i = i + 1;
    }
    i
}

pub proof fn lemma_skip_until_bound(s: Seq<char>, i: int, c: char)
    requires
        i <= s.len(),
    ensures
        i <= skip_until(s, i, c) <= s.len(),
    decreases s.len() - i,
{
    if i < s.len() && s[i] != c {
        lemma_skip_until_bound(s, i + 1, c);
    }
}

/// Where `skip_until` stops, and what it skips.
pub proof fn lemma_skip_until_stop(s: Seq<char>, i: int, c: char)
    requires
        0 <= i <= s.len(),
    ensures
        i <= skip_until(s, i, c) <= s.len(),
        skip_until(s, i, c) < s.len() ==> s[skip_until(s, i, c)] == c,
        forall|k: int| i <= k < skip_until(s, i, c) ==> (#[trigger] s[k]) != c,
    decreases s.len() - i,
{
    if i < s.len() && s[i] != c {
        lemma_skip_until_stop(s, i + 1, c);
    }
}

/// `skip_until` stops at the first `c`.
pub proof fn lemma_skip_until_at(s: Seq<char>, i: int, j: int, c: char)
    requires
        0 <= i <= j <= s.len(),
        forall|k: int| i <= k < j ==> (#[trigger] s[k]) != c,
        j < s.len() ==> s[j] == c,
    ensures
        skip_until(s, i, c) == j,
    decreases j - i,
{
    if i < j {
        assert(s[i] != c);
        lemma_skip_until_at(s, i + 1, j, c);
    }
}

/// Whether `needle` stands in `s` at position `i`.
pub open spec fn occurs_at(s: Seq<char>, i: int, needle: Seq<char>) -> bool {
    0 <= i && i + needle.len() <= s.len() && s.subrange(i, i + needle.len()) == needle
}

/// The first position from `i` on at which `needle` stands.
pub open spec fn find_seq(s: Seq<char>, i: int, needle: Seq<char>) -> Option<int>
    decreases s.len() + 1 - i,
{
    if i > s.len() {
        None
    } else if occurs_at(s, i, needle) {
        Some(i)
    } else {
        find_seq(s, i + 1, needle)
    }
}

/// Whether `needle` stands in `hay` at position `at`.
pub fn stands_at(hay: &[char], at: usize, needle: &[char]) -> (r: bool)
    ensures
        r == occurs_at(hay@, at as int, needle@),
{
    if at > hay.len() || needle.len() > hay.len() - at {
        return false;
    }
    let mut k: usize = 0;
    while k < needle.len()
        invariant
            k <= needle@.len(),
            at + needle@.len() <= hay@.len() <= usize::MAX,
            forall|m: int| 0 <= m < k ==> hay@[at + m] == needle@[m],
        decreases needle@.len() - k,
    {
        if hay[at + k] != needle[k] {
            assert(hay@.subrange(at as int, at + needle@.len())[k as int] != needle@[k as int]);
            return false;
        }
        k = k + 1;
    }
    assert(hay@.subrange(at as int, at + needle@.len()) =~= needle@);
    true
}

/// Finds `needle` in `hay` from position `from` on.
pub fn find_from(hay: &[char], from: usize, needle: &[char]) -> (r: Option<usize>)
    ensures
        match r {
            Some(p) => find_seq(hay@, from as int, needle@) == Some(p as int) && from <= p && p
                + needle@.len() <= hay@.len(),
            None => find_seq(hay@, from as int, needle@) is None,
        },
{
    if from > hay.len() {
        return None;
    }
    let mut p: usize = from;
    loop
        invariant
            from <= p <= hay@.len(),
            find_seq(hay@, from as int, needle@) == find_seq(hay@, p as int, needle@),
        decreases hay@.len() - p,
    {
        if stands_at(hay, p, needle) {
            return Some(p);
        }
        if p == hay.len() {
            assert(find_seq(hay@, p + 1, needle@) is None);
            return None;
        }
        p = p + 1;
    }
}

pub proof fn lemma_find_seq_bound(s: Seq<char>, i: int, needle: Seq<char>)
    ensures
        find_seq(s, i, needle) matches Some(p) ==> i <= p && occurs_at(s, p, needle),
    decreases s.len() + 1 - i,
{
    if i <= s.len() && !occurs_at(s, i, needle) {
        lemma_find_seq_bound(s, i + 1, needle);
    }
}

// ── Trimming, lines and fields ────────────────────────────────────────────────

pub open spec fn trim_start(s: Seq<char>) -> Seq<char>
    decreases s.len(),
{
    if s.len() > 0 && is_space(s[0]) {
        trim_start(s.drop_first())
    } else {
        s
    }
}

pub open spec fn trim_end(s: Seq<char>) -> Seq<char>
    decreases s.len(),
{
    if s.len() > 0 && is_space(s.last()) {
        trim_end(s.drop_last())
    } else {
        s
    }
}

/// The text without white space at either end.
pub open spec fn trim(s: Seq<char>) -> Seq<char> {
    trim_end(trim_start(s))
}

/// Narrows `from..to` to its part without white space at either end.
pub fn trim_span(cs: &[char], from: usize, to: usize) -> (r: (usize, usize))
    requires
        from <= to <= cs@.len(),
    ensures
        from <= r.0 <= r.1 <= to,
        cs@.subrange(r.0 as int, r.1 as int) == trim(cs@.subrange(from as int, to as int)),
{
    let mut a: usize = from;
    while a < to && space_char(cs[a])
        invariant
            from <= a <= to <= cs@.len(),
            trim_start(cs@.subrange(from as int, to as int)) == trim_start(
                cs@.subrange(a as int, to as int),
            ),
        decreases to - a,
    {
        assert(cs@.subrange(a as int, to as int).drop_first() =~= cs@.subrange(a + 1, to as int));
        a = a + 1;
    }
    let mut b: usize = to;
    while b > a && space_char(cs[b - 1])
        invariant
            from <= a <= b <= to <= cs@.len(),
            trim_end(cs@.subrange(a as int, to as int)) == trim_end(
                cs@.subrange(a as int, b as int),
            ),
        decreases b - a,
    {
        assert(cs@.subrange(a as int, b as int).drop_last() =~= cs@.subrange(a as int, b - 1));
        b = b - 1;
    }
    (a, b)
}

/// The text without white space at either end, as a string of its own.
pub fn trimmed(s: &str) -> (r: String)
    ensures
        r@ == trim(s@),
{
    let cs = to_chars(s);
    let (a, b) = trim_span(cs.as_slice(), 0, cs.len());
    assert(cs@.subrange(0, cs@.len() as int) =~= s@);
    slice_text(cs.as_slice(), a, b)
}

/// A line without the carriage return that belonged to its line ending.
pub open spec fn strip_cr(line: Seq<char>) -> Seq<char> {
    if line.len() > 0 && line.last() == '\r' {
        line.drop_last()
    } else {
        line
    }
}

/// The lines of a text from `i` on. A line ends with `\n` or `\r\n`; the last one
/// needs no line ending.
pub open spec fn lines_from(s: Seq<char>, i: int) -> Seq<Seq<char>>
    decreases s.len() - i,
    when 0 <= i <= s.len()
    via lines_from_decreases
{
    if i >= s.len() {
        seq![]
    } else {
        let end = skip_until(s, i, '\n');
        if end < s.len() {
            seq![strip_cr(s.subrange(i, end))] + lines_from(s, end + 1)
        } else {
            seq![s.subrange(i, end)]
        }
    }
}

#[via_fn]
proof fn lines_from_decreases(s: Seq<char>, i: int) {
    lemma_skip_until_bound(s, i, '\n');
}

pub open spec fn lines(s: Seq<char>) -> Seq<Seq<char>> {
    lines_from(s, 0)
}

/// The texts that a list of spans marks in `s`.
pub open spec fn span_texts(s: Seq<char>, spans: Seq<(usize, usize)>) -> Seq<Seq<char>> {
    spans.map_values(|p: (usize, usize)| s.subrange(p.0 as int, p.1 as int))
}

/// Where the lines of a text stand in it.
pub fn line_spans(cs: &[char]) -> (r: Vec<(usize, usize)>)
    ensures
        span_texts(cs@, r@) == lines(cs@),
        forall|k: int| 0 <= k < r@.len() ==> (#[trigger] r@[k]).0 <= r@[k].1 <= cs@.len(),
{
    let mut out: Vec<(usize, usize)> = Vec::new();
    let mut i: usize = 0;
    while i < cs.len()
        invariant
            i <= cs@.len(),
            span_texts(cs@, out@) + lines_from(cs@, i as int) == lines(cs@),
            forall|k: int| 0 <= k < out@.len() ==> (#[trigger] out@[k]).0 <= out@[k].1 <= cs@.len(),
        decreases cs@.len() - i,
    {
        let end = scan_until(cs, i, '\n');
        let ghost before = out@;
        if end < cs.len() {
            let stop: usize = if end > i && cs[end - 1] == '\r' {
                end - 1
            } else {
                end
            };
            out.push((i, stop));
            proof {
                assert(strip_cr(cs@.subrange(i as int, end as int)) =~= cs@.subrange(
                    i as int,
                    stop as int,
                ));
                assert(span_texts(cs@, out@) =~= span_texts(cs@, before).push(
                    cs@.subrange(i as int, stop as int),
                ));
                assert(span_texts(cs@, out@) + lines_from(cs@, end + 1) =~= lines(cs@));
            }
            i = end + 1;
        } else {
            out.push((i, end));
            proof {
                assert(span_texts(cs@, out@) =~= span_texts(cs@, before).push(
                    cs@.subrange(i as int, end as int),
                ));
                assert(span_texts(cs@, out@) + lines_from(cs@, end as int) =~= lines(cs@));
            }
            i = end;
        }
    }
    assert(span_texts(cs@, out@) =~= lines(cs@));
    out
}

/// The pieces of a text from `i` on, parted at every `c`.
pub open spec fn split_from(s: Seq<char>, i: int, c: char) -> Seq<Seq<char>>
    decreases s.len() - i,
    when 0 <= i <= s.len()
    via split_from_decreases
{
    let end = skip_until(s, i, c);
    if end < s.len() {
        seq![s.subrange(i, end)] + split_from(s, end + 1, c)
    } else {
        seq![s.subrange(i, end)]
    }
}

#[via_fn]
proof fn split_from_decreases(s: Seq<char>, i: int, c: char) {
    lemma_skip_until_bound(s, i, c);
}

/// The pieces of a text parted at every `c`; a text without `c` is one piece.
pub open spec fn split(s: Seq<char>, c: char) -> Seq<Seq<char>> {
    split_from(s, 0, c)
}

/// Where the pieces of a text parted at `c` stand in it.
pub fn split_spans(cs: &[char], c: char) -> (r: Vec<(usize, usize)>)
    ensures
        span_texts(cs@, r@) == split(cs@, c),
        r@.len() > 0,
        forall|k: int| 0 <= k < r@.len() ==> (#[trigger] r@[k]).0 <= r@[k].1 <= cs@.len(),
{
    let mut out: Vec<(usize, usize)> = Vec::new();
    let mut i: usize = 0;
    loop
        invariant
            i <= cs@.len(),
            span_texts(cs@, out@) + split_from(cs@, i as int, c) == split(cs@, c),
            forall|k: int| 0 <= k < out@.len() ==> (#[trigger] out@[k]).0 <= out@[k].1 <= cs@.len(),
        decreases cs@.len() - i,
    {
        let end = scan_until(cs, i, c);
        let ghost before = out@;
        out.push((i, end));
        proof {
            assert(span_texts(cs@, out@) =~= span_texts(cs@, before).push(
                cs@.subrange(i as int, end as int),
            ));
        }
        if end >= cs.len() {
            assert(span_texts(cs@, out@) =~= split(cs@, c));
            return out;
        }
        assert(span_texts(cs@, out@) + split_from(cs@, end + 1, c) =~= split(cs@, c));
        i = end + 1;
    }
}

/// The texts without white space at their ends, those that are empty left out.
pub open spec fn nonblank(ts: Seq<Seq<char>>) -> Seq<Seq<char>>
    decreases ts.len(),
{
    if ts.len() == 0 {
        seq![]
    } else if trim(ts.last()).len() > 0 {
        nonblank(ts.drop_last()).push(trim(ts.last()))
    } else {
        nonblank(ts.drop_last())
    }
}

pub open spec fn text_views(v: Seq<String>) -> Seq<Seq<char>> {
    v.map_values(|s: String| s@)
}

/// The lines of a text without white space at their ends, those that are empty left
/// out.
pub fn nonblank_lines(s: &str) -> (r: Vec<String>)
    ensures
        text_views(r@) == nonblank(lines(s@)),
{
    let chars = to_chars(s);
    let cs = chars.as_slice();
    let spans = line_spans(cs);
    let ghost all = span_texts(cs@, spans@);
    let mut out: Vec<String> = Vec::new();
    let mut i: usize = 0;
    assert(text_views(out@) =~= seq![]);
    while i < spans.len()
        invariant
            i <= spans@.len(),
            all == span_texts(cs@, spans@),
            forall|k: int|
                0 <= k < spans@.len() ==> (#[trigger] spans@[k]).0 <= spans@[k].1 <= cs@.len(),
            text_views(out@) == nonblank(all.take(i as int)),
        decreases spans@.len() - i,
    {
        assert(all.take(i + 1).drop_last() =~= all.take(i as int));
        let (from, to) = spans[i];
        assert(all.take(i + 1).last() == cs@.subrange(from as int, to as int));
        let (a, b) = trim_span(cs, from, to);
        let ghost so_far = out@;
        if a < b {
            out.push(slice_text(cs, a, b));
            assert(text_views(out@) =~= text_views(so_far).push(cs@.subrange(a as int, b as int)));
        }
        i = i + 1;
    }
    assert(all.take(i as int) =~= all);
    out
}

// ── Case ──────────────────────────────────────────────────────────────────────

pub fn lower_chars(cs: &[char]) -> (out: Vec<char>)
    ensures
        out@ == lowered(cs@),
{
    let mut out: Vec<char> = Vec::new();
    let mut i: usize = 0;
    while i < cs.len()
        invariant
            i <= cs@.len(),
            out@ == lowered(cs@.subrange(0, i as int)),
        decreases cs@.len() - i,
    {
        out.push(lower_char(cs[i]));
        i = i + 1;
        assert(out@ =~= lowered(cs@.subrange(0, i as int)));
    }
    assert(cs@.subrange(0, i as int) =~= cs@);
    out
}

/// Whether two texts are equal up to ASCII case.
pub fn same_chars_ignoring_case(a: &[char], b: &[char]) -> (r: bool)
    ensures
        r == (lowered(a@) == lowered(b@)),
{
    assert(lowered(a@).len() == a@.len() && lowered(b@).len() == b@.len());
    if a.len() != b.len() {
        return false;
    }
    let mut i: usize = 0;
    while i < a.len()
        invariant
            i <= a@.len() == b@.len(),
            forall|k: int| 0 <= k < i ==> lower(a@[k]) == lower(b@[k]),
        decreases a@.len() - i,
    {
        if lower_char(a[i]) != lower_char(b[i]) {
            assert(lowered(a@)[i as int] != lowered(b@)[i as int]);
            return false;
        }
        i = i + 1;
    }
    assert(lowered(a@) =~= lowered(b@));
    true
}

// ── Optional text ─────────────────────────────────────────────────────────────

/// The text of an optional field.
pub open spec fn opt_view(o: Option<String>) -> Option<Seq<char>> {
    match o {
        Some(s) => Some(s@),
        None => None,
    }
}

/// The text that an optional field holds, or `default`.
pub open spec fn text_or(o: Option<String>, default: Seq<char>) -> Seq<char> {
    match o {
        Some(s) => s@,
        None => default,
    }
}

pub fn str_or<'a>(o: &'a Option<String>, default: &'a str) -> (r: &'a str)
    ensures
        r@ == text_or(*o, default@),
{
    match o {
        Some(s) => s.as_str(),
        None => default,
    }
}

pub fn opt_str<'a>(o: &'a Option<String>) -> (r: Option<&'a str>)
    ensures
        r is Some == o is Some,
        r matches Some(s) ==> s@ == o->Some_0@,
{
    match o {
        Some(s) => Some(s.as_str()),
        None => None,
    }
}

/// A copy of an optional text.
pub fn copy_text(o: &Option<String>) -> (r: Option<String>)
    ensures
        opt_view(r) == opt_view(*o),
{
    match o {
        Some(s) => Some(s.clone()),
        None => None,
    }
}

/// The first of two optional texts that is present.
pub open spec fn first_text(a: Option<Seq<char>>, b: Option<Seq<char>>) -> Option<Seq<char>> {
    match a {
        Some(_) => a,
        None => b,
    }
}

/// Whether an optional text is present and reads `text`.
pub fn opt_is(o: &Option<String>, text: &str) -> (r: bool)
    ensures
        r == (opt_view(*o) == Some(text@)),
{
    match o {
        Some(s) => same_text(s.as_str(), text),
        None => false,
    }
}

// ── Numbers ───────────────────────────────────────────────────────────────────

/// The decimal digit for `d`, a number below ten.
pub open spec fn digit_of(d: nat) -> char {
    ((48 + d) as u8) as char
}

/// A number in decimal, without leading zeros.
pub open spec fn decimal(n: nat) -> Seq<char>
    decreases n,
{
    if n < 10 {
        seq![digit_of(n)]
    } else {
        decimal(n / 10).push(digit_of(n % 10))
    }
}

pub fn decimal_text(n: u128) -> (out: String)
    ensures
        out@ == decimal(n as nat),
    decreases n,
{
    let mut out: String = if n < 10 {
        String::new()
    } else {
        decimal_text(n / 10)
    };
    out.push((48u8 + (n % 10) as u8) as char);
    proof {
        if n < 10 {
            assert(out@ =~= decimal(n as nat));
        }
    }
    out
}

/// The value of a run of decimal digits.
pub open spec fn digits_value(s: Seq<char>) -> nat
    decreases s.len(),
{
    if s.len() == 0 {
        0
    } else {
        digits_value(s.drop_last()) * 10 + (s.last() as u32 - 48) as nat
    }
}

pub open spec fn all_digits(s: Seq<char>) -> bool {
    forall|i: int| 0 <= i < s.len() ==> is_digit(#[trigger] s[i])
}

/// Reads an unsigned number no greater than `max`: one or more digits, with at most
/// one `+` in front.
pub open spec fn parsed_number(s: Seq<char>, max: nat) -> Option<nat> {
    let body = if s.len() > 0 && s[0] == '+' {
        s.drop_first()
    } else {
        s
    };
    if body.len() > 0 && all_digits(body) && digits_value(body) <= max {
        Some(digits_value(body))
    } else {
        None
    }
}

proof fn lemma_digits_value_grows(s: Seq<char>, i: int)
    requires
        0 <= i <= s.len(),
        all_digits(s),
    ensures
        digits_value(s.subrange(0, i)) <= digits_value(s),
    decreases s.len() - i,
{
    if i < s.len() {
        lemma_digits_value_grows(s, i + 1);
        assert(s.subrange(0, i + 1).drop_last() =~= s.subrange(0, i));
        assert(is_digit(s[i]));
        assert(s.subrange(0, i + 1).last() == s[i]);
    } else {
        assert(s.subrange(0, i) =~= s);
    }
}

/// Reads an unsigned number no greater than `max` from the characters `from..to`.
pub fn parse_number(s: &[char], from: usize, to: usize, max: u64) -> (r: Option<u64>)
    requires
        from <= to <= s@.len(),
    ensures
        match r {
            Some(n) => parsed_number(s@.subrange(from as int, to as int), max as nat) == Some(
                n as nat,
            ),
            None => parsed_number(s@.subrange(from as int, to as int), max as nat) is None,
        },
{
    let ghost whole = s@.subrange(from as int, to as int);
    let start: usize = if from < to && s[from] == '+' {
        from + 1
    } else {
        from
    };
    let ghost body = s@.subrange(start as int, to as int);
    assert(whole.len() > 0 && whole[0] == '+' ==> body =~= whole.drop_first());
    assert(!(whole.len() > 0 && whole[0] == '+') ==> body =~= whole);
    if start == to {
        return None;
    }
    let mut value: u64 = 0;
    let mut i: usize = start;
    while i < to
        invariant
            start <= i <= to <= s@.len(),
            start < to,
            body == s@.subrange(start as int, to as int),
            forall|k: int| 0 <= k < i - start ==> is_digit(#[trigger] body[k]),
            value == digits_value(body.subrange(0, i - start)),
            value <= max,
            parsed_number(whole, max as nat) == (if all_digits(body) && digits_value(body)
                <= max {
                Some(digits_value(body))
            } else {
                None
            }),
            whole == s@.subrange(from as int, to as int),
        decreases to - i,
    {
        let c = s[i];
        assert(body[i - start] == c);
        if !digit_char(c) {
            return None;
        }
        let d: u64 = (c as u8 - 48) as u64;
        assert(body.subrange(0, i + 1 - start).drop_last() =~= body.subrange(0, i - start));
        assert(body.subrange(0, i + 1 - start).last() == c);
        assert(digits_value(body.subrange(0, i + 1 - start)) == value * 10 + d);
        if d > max || value > (max - d) / 10 {
            proof {
                if all_digits(body) {
                    lemma_digits_value_grows(body, i + 1 - start);
                }
            }
            return None;
        }
        value = value * 10 + d;
        i = i + 1;
    }
    assert(body.subrange(0, to - start) =~= body);
    Some(value)
}

// ── Hexadecimal ───────────────────────────────────────────────────────────────

/// A lower-case hexadecimal digit.
pub open spec fn hex_digit(d: nat) -> char {
    if d < 10 {
        (48 + d) as u8 as char
    } else {
        (87 + d) as u8 as char
    }
}

/// The last `digits` hexadecimal digits of a number.
pub open spec fn hex_padded(n: nat, digits: nat) -> Seq<char>
    decreases digits,
{
    if digits == 0 {
        seq![]
    } else {
        hex_padded(n / 16, (digits - 1) as nat).push(hex_digit(n % 16))
    }
}

/// Two hexadecimal digits for each byte.
pub open spec fn hex_bytes(bytes: Seq<u8>) -> Seq<char>
    decreases bytes.len(),
{
    if bytes.len() == 0 {
        seq![]
    } else {
        hex_bytes(bytes.drop_last()) + seq![
            hex_digit((bytes.last() / 16) as nat),
            hex_digit((bytes.last() % 16) as nat),
        ]
    }
}

fn hex_char(d: u8) -> (r: char)
    requires
        d < 16,
    ensures
        r == hex_digit(d as nat),
{
    if d < 10 {
        (48 + d) as char
    } else {
        (87 + d) as char
    }
}

pub fn hex_padded_text(n: u64, digits: usize) -> (out: String)
    ensures
        out@ == hex_padded(n as nat, digits as nat),
    decreases digits,
{
    if digits == 0 {
        return String::new();
    }
    let mut out = hex_padded_text(n / 16, digits - 1);
    out.push(hex_char((n % 16) as u8));
    out
}

pub fn hex_text(bytes: &[u8]) -> (out: String)
    ensures
        out@ == hex_bytes(bytes@),
{
    let mut out: String = String::new();
    let mut i: usize = 0;
    while i < bytes.len()
        invariant
            i <= bytes@.len(),
            out@ == hex_bytes(bytes@.subrange(0, i as int)),
        decreases bytes@.len() - i,
    {
        let b: u8 = bytes[i];
        let ghost before = out@;
        out.push(hex_char(b / 16));
        out.push(hex_char(b % 16));
        assert(bytes@.subrange(0, i + 1).drop_last() =~= bytes@.subrange(0, i as int));
        assert(out@ =~= before + seq![hex_digit((b / 16) as nat), hex_digit((b % 16) as nat)]);
        i = i + 1;
    }
    assert(bytes@.subrange(0, i as int) =~= bytes@);
    out
}

/// Two hexadecimal digits for each byte, and nothing else.
pub proof fn lemma_hex_bytes(bytes: Seq<u8>)
    ensures
        hex_bytes(bytes).len() == 2 * bytes.len(),
        forall|k: int|
            0 <= k < hex_bytes(bytes).len() ==> {
                let c = #[trigger] hex_bytes(bytes)[k];
                is_digit(c) || 'a' <= c <= 'f'
            },
    decreases bytes.len(),
{
    if bytes.len() > 0 {
        lemma_hex_bytes(bytes.drop_last());
    }
}

// ── Columns ───────────────────────────────────────────────────────────────────

pub open spec fn spaces(n: nat) -> Seq<char> {
    Seq::new(n, |i: int| ' ')
}

/// A text filled up with spaces on the right to `width` characters.
pub open spec fn padded(s: Seq<char>, width: nat) -> Seq<char> {
    if s.len() < width {
        s + spaces((width - s.len()) as nat)
    } else {
        s
    }
}

pub fn space_text(n: usize) -> (out: String)
    ensures
        out@ == spaces(n as nat),
{
    let mut out: String = String::new();
    let mut i: usize = 0;
    while i < n
        invariant
            i <= n,
            out@ == spaces(i as nat),
        decreases n - i,
    {
        out.push(' ');
        i = i + 1;
        assert(out@ =~= spaces(i as nat));
    }
    out
}

pub fn padded_text(s: &str, width: usize) -> (out: String)
    ensures
        out@ == padded(s@, width as nat),
{
    let n: usize = s.unicode_len();
    let mut out = s.to_owned();
    if n < width {
        out.append(space_text(width - n).as_str());
    }
    out
}

/// The number of bytes of a text.
pub open spec fn byte_len(s: Seq<char>) -> nat {
    vstd::utf8::encode_utf8(s).len()
}

pub fn byte_count(s: &str) -> (r: usize)
    ensures
        r == byte_len(s@),
{
    s.as_bytes().len()
}

/// A copy of a list of texts.
pub fn copy_texts(v: &Vec<String>) -> (r: Vec<String>)
    ensures
        text_views(r@) == text_views(v@),
{
    let mut out: Vec<String> = Vec::new();
    let mut i: usize = 0;
    while i < v.len()
        invariant
            i <= v@.len(),
            out@.len() == i,
            forall|k: int| 0 <= k < i ==> (#[trigger] out@[k])@ == v@[k]@,
        decreases v@.len() - i,
    {
        out.push(v[i].clone());
        i = i + 1;
    }
    assert(text_views(out@) =~= text_views(v@));
    out
}

} // verus!
