//! Baselines and inline suppressions.
//!
//! A baseline records the findings of today, so that a check fails only on new ones.
//! Findings are recognised by their fingerprint, which does not depend on the line.
use vstd::prelude::*;
use crate::api::{CheckResponse, QueryResult};
use crate::comments::{behind_dashes, comment_spans, comments, is_plain_code, law_literals_hold_no_comment, law_unquoted_dashes_are_comments, literal_behind};
use crate::json::{lemma_member, member, number, object, JsonView};
use crate::output::{cq_issue, cq_severity_of, file_for, finding, findings, fingerprint, is_finding, message_of, result_fingerprint, sast_finding, sast_identifier, sast_severity_of, source_of, text_field};
use crate::text::{copy_text, find_from, find_seq, lines, lower_chars, lowered, opt_view, same_chars_ignoring_case, same_text, scan_until, skip_until, span_texts, text_or, text_views, to_chars, trim, trim_span};

verus! {

/// A committed baseline file: fingerprints in order, each with what a reader of the
/// file wants to know.
#[derive(Debug)]
pub struct Baseline {
    /// Schema marker.
    pub version: u32,
    pub entries: Vec<Entry>,
}

/// One baselined finding. Only the fingerprint is matched.
#[derive(Debug)]
pub struct Entry {
    pub fingerprint: String,
    pub file: String,
    pub rule_code: Option<String>,
    pub status: Option<String>,
}

/// What an entry holds.
pub struct EntryView {
    pub fingerprint: Seq<char>,
    pub file: Seq<char>,
    pub rule_code: Option<Seq<char>>,
    pub status: Option<Seq<char>>,
}

impl View for Entry {
    type V = EntryView;

    open spec fn view(&self) -> EntryView {
        EntryView {
            fingerprint: self.fingerprint@,
            file: self.file@,
            rule_code: opt_view(self.rule_code),
            status: opt_view(self.status),
        }
    }
}

pub open spec fn entry_views(entries: Seq<Entry>) -> Seq<EntryView> {
    entries.map_values(|e: Entry| e@)
}

// ── Order of fingerprints ─────────────────────────────────────────────────────

/// Whether `a` comes before `b` in dictionary order.
pub open spec fn before(a: Seq<char>, b: Seq<char>) -> bool
    decreases a.len(),
{
    if b.len() == 0 {
        false
    } else if a.len() == 0 {
        true
    } else if a[0] != b[0] {
        a[0] < b[0]
    } else {
        before(a.drop_first(), b.drop_first())
    }
}

proof fn lemma_before_is_strict(a: Seq<char>, b: Seq<char>)
    ensures
        before(a, b) ==> a != b && !before(b, a),
        before(a, b) || before(b, a) || a == b,
    decreases a.len(),
{
    if a.len() > 0 && b.len() > 0 && a[0] == b[0] {
        lemma_before_is_strict(a.drop_first(), b.drop_first());
        if a.drop_first() == b.drop_first() {
            assert(a =~= seq![a[0]] + a.drop_first());
            assert(b =~= seq![b[0]] + b.drop_first());
        }
    } else if a.len() == 0 && b.len() == 0 {
        assert(a =~= b);
    }
}

proof fn lemma_before_is_transitive(a: Seq<char>, b: Seq<char>, c: Seq<char>)
    requires
        before(a, b),
        before(b, c),
    ensures
        before(a, c),
    decreases a.len(),
{
    if a.len() > 0 && b.len() > 0 && c.len() > 0 && a[0] == b[0] && b[0] == c[0] {
        lemma_before_is_transitive(a.drop_first(), b.drop_first(), c.drop_first());
    }
}

/// Whether `a` comes before `b` in dictionary order.
fn comes_before(a: &str, b: &str) -> (r: bool)
    ensures
        r == before(a@, b@),
{
    let x = to_chars(a);
    let y = to_chars(b);
    let mut i: usize = 0;
    assert(x@.skip(0) =~= x@ && y@.skip(0) =~= y@);
    while i < x.len() && i < y.len()
        invariant
            x@ == a@,
            y@ == b@,
            i <= x@.len(),
            i <= y@.len(),
            before(x@, y@) == before(x@.skip(i as int), y@.skip(i as int)),
        decreases x@.len() - i,
    {
        let c = x[i];
        let d = y[i];
        assert(x@.skip(i as int)[0] == c && y@.skip(i as int)[0] == d);
        if c != d {
            return c < d;
        }
        assert(x@.skip(i as int).drop_first() =~= x@.skip(i + 1));
        assert(y@.skip(i as int).drop_first() =~= y@.skip(i + 1));
        i = i + 1;
    }
    i < y.len()
}

// ── Recording ─────────────────────────────────────────────────────────────────

/// The fingerprint of a result, with the file that it came from.
pub open spec fn fingerprint_in(q: QueryResult, files: Seq<String>) -> Seq<char> {
    result_fingerprint(q, source_of(files, q.line))
}

/// The entry that records a finding.
pub open spec fn entry_of(q: QueryResult, files: Seq<String>) -> EntryView {
    EntryView {
        fingerprint: fingerprint_in(q, files),
        file: source_of(files, q.line),
        rule_code: opt_view(q.rule_code),
        status: Some(q.status@),
    }
}

/// Adds an entry to a list in order, unless its fingerprint is there already.
pub open spec fn with_entry(sorted: Seq<EntryView>, e: EntryView) -> Seq<EntryView>
    decreases sorted.len(),
{
    if sorted.len() == 0 || before(sorted.last().fingerprint, e.fingerprint) {
        sorted.push(e)
    } else if sorted.last().fingerprint == e.fingerprint {
        sorted
    } else {
        with_entry(sorted.drop_last(), e).push(sorted.last())
    }
}

/// The entries for some findings: in order of their fingerprints, each recorded once,
/// from the first finding that has it.
pub open spec fn recorded(fs: Seq<QueryResult>, files: Seq<String>) -> Seq<EntryView>
    decreases fs.len(),
{
    if fs.len() == 0 {
        seq![]
    } else {
        with_entry(recorded(fs.drop_last(), files), entry_of(fs.last(), files))
    }
}

fn add_entry(entries: &mut Vec<Entry>, e: Entry)
    ensures
        entry_views(final(entries)@) == with_entry(entry_views(old(entries)@), e@),
{
    let ghost all = entry_views(entries@);
    let mut k: usize = entries.len();
    proof {
        assert(all.take(k as int) =~= all);
        assert(with_entry(all, e@) =~= with_entry(all, e@) + all.skip(k as int));
    }
    while k > 0 && !comes_before(entries[k - 1].fingerprint.as_str(), e.fingerprint.as_str())
        invariant
            k <= entries@.len(),
            all == entry_views(entries@),
            with_entry(all, e@) == with_entry(all.take(k as int), e@) + all.skip(k as int),
        decreases k,
    {
        proof {
            assert(all.take(k as int).last() == entries@[k - 1]@);
            assert(all.take(k as int).drop_last() =~= all.take(k - 1));
        }
        if same_text(entries[k - 1].fingerprint.as_str(), e.fingerprint.as_str()) {
            proof {
                lemma_before_is_strict(entries@[k - 1]@.fingerprint, e@.fingerprint);
                assert(all.take(k as int) + all.skip(k as int) =~= all);
            }
            return ;
        }
        proof {
            assert(with_entry(all.take(k as int), e@) =~= with_entry(all.take(k - 1), e@).push(
                all[k - 1],
            ));
            assert(with_entry(all.take(k - 1), e@) + all.skip(k - 1) =~= with_entry(
                all.take(k as int),
                e@,
            ) + all.skip(k as int));
        }
        k = k - 1;
    }
    let ghost before_insert = entries@;
    entries.insert(k, e);
    proof {
        assert(with_entry(all.take(k as int), e@) =~= all.take(k as int).push(e@)) by {
            if k > 0 {
                assert(all.take(k as int).last() == before_insert[k - 1]@);
            }
        }
        assert(entry_views(entries@) =~= all.take(k as int).push(e@) + all.skip(k as int));
    }
}

/// A set of fingerprints.
#[derive(Debug)]
pub struct FingerprintSet {
    items: Vec<String>,
}

impl View for FingerprintSet {
    type V = Set<Seq<char>>;

    closed spec fn view(&self) -> Set<Seq<char>> {
        text_views(self.items@).to_set()
    }
}

impl FingerprintSet {
    /// The empty set.
    pub fn new() -> (r: FingerprintSet)
        ensures
            r@ == Set::<Seq<char>>::empty(),
    {
        let r = FingerprintSet { items: Vec::new() };
        assert(r@ =~= Set::<Seq<char>>::empty());
        r
    }

    pub fn contains(&self, fingerprint: &str) -> (r: bool)
        ensures
            r == self@.contains(fingerprint@),
    {
        let mut i: usize = 0;
        while i < self.items.len()
            invariant
                i <= self.items@.len(),
                forall|k: int| 0 <= k < i ==> (#[trigger] self.items@[k])@ != fingerprint@,
            decreases self.items@.len() - i,
        {
            if same_text(self.items[i].as_str(), fingerprint) {
                assert(text_views(self.items@)[i as int] == fingerprint@);
                return true;
            }
            i = i + 1;
        }
        assert(!self@.contains(fingerprint@)) by {
            let all = text_views(self.items@);
            if all.contains(fingerprint@) {
                let k = choose|k: int| 0 <= k < all.len() && all[k] == fingerprint@;
                assert(self.items@[k]@ == fingerprint@);
            }
        }
        false
    }

    pub fn insert(&mut self, fingerprint: String)
        ensures
            final(self)@ == old(self)@.insert(fingerprint@),
    {
        let ghost old_texts = text_views(self.items@);
        self.items.push(fingerprint);
        proof {
            let all = text_views(self.items@);
            assert(all =~= old_texts.push(fingerprint@));
            assert(all.to_set() =~= old_texts.to_set().insert(fingerprint@)) by {
                assert forall|x: Seq<char>| #[trigger] all.to_set().contains(x)
                    <==> old_texts.to_set().insert(fingerprint@).contains(x) by {
                    if all.contains(x) {
                        let k = choose|k: int| 0 <= k < all.len() && all[k] == x;
                        if k < old_texts.len() {
                            assert(old_texts[k] == x);
                        }
                    }
                    if old_texts.contains(x) {
                        let k = choose|k: int| 0 <= k < old_texts.len() && old_texts[k] == x;
                        assert(all[k] == x);
                    }
                    if x == fingerprint@ {
                        assert(all[all.len() - 1] == x);
                    }
                }
            }
        }
    }
}

/// The fingerprints that a list of entries holds.
pub open spec fn entry_fingerprints(entries: Seq<Entry>) -> Set<Seq<char>> {
    entries.map_values(|e: Entry| e.fingerprint@).to_set()
}

/// The fingerprints of some findings.
pub open spec fn finding_fingerprints(fs: Seq<QueryResult>, files: Seq<String>) -> Set<Seq<char>>
    decreases fs.len(),
{
    if fs.len() == 0 {
        Set::empty()
    } else {
        finding_fingerprints(fs.drop_last(), files).insert(fingerprint_in(fs.last(), files))
    }
}

impl Baseline {
    /// Records every finding of a response.
    pub fn from_response(resp: &CheckResponse, files: &[String]) -> (r: Baseline)
        ensures
            r.version == 1,
            entry_views(r.entries@) == recorded(findings(resp.queries@), files@),
    {
        let ghost qs = resp.queries@;
        let mut entries: Vec<Entry> = Vec::new();
        let mut i: usize = 0;
        assert(entry_views(entries@) =~= seq![]);
        while i < resp.queries.len()
            invariant
                qs == resp.queries@,
                i <= qs.len(),
                entry_views(entries@) == recorded(findings(qs.take(i as int)), files@),
            decreases qs.len() - i,
        {
            let q = &resp.queries[i];
            let ghost fs = findings(qs.take(i as int));
            assert(qs.take(i + 1).drop_last() =~= qs.take(i as int));
            if is_finding(q) {
                assert(fs.push(*q).drop_last() =~= fs);
                let file = file_for(files, q.line);
                let entry = Entry {
                    fingerprint: fingerprint(q, file.as_str()),
                    file,
                    rule_code: copy_text(&q.rule_code),
                    status: Some(q.status.clone()),
                };
                add_entry(&mut entries, entry);
            }
            i = i + 1;
        }
        assert(qs.take(i as int) =~= qs);
        Baseline { version: 1, entries }
    }

    /// The set of baselined fingerprints.
    pub fn set(&self) -> (r: FingerprintSet)
        ensures
            r@ == entry_fingerprints(self.entries@),
    {
        let mut out = FingerprintSet::new();
        let mut i: usize = 0;
        let ghost all = self.entries@.map_values(|e: Entry| e.fingerprint@);
        assert(all.take(0).to_set() =~= Set::<Seq<char>>::empty());
        while i < self.entries.len()
            invariant
                i <= self.entries@.len(),
                all == self.entries@.map_values(|e: Entry| e.fingerprint@),
                out@ == all.take(i as int).to_set(),
            decreases self.entries@.len() - i,
        {
            out.insert(self.entries[i].fingerprint.clone());
            proof {
                lemma_push_to_set(all.take(i as int), all[i as int]);
                assert(all.take(i + 1) =~= all.take(i as int).push(all[i as int]));
            }
            i = i + 1;
        }
        assert(all.take(i as int) =~= all);
        out
    }
}

proof fn lemma_push_to_set(s: Seq<Seq<char>>, x: Seq<char>)
    ensures
        s.push(x).to_set() == s.to_set().insert(x),
{
    let all = s.push(x);
    assert forall|y: Seq<char>| #[trigger] all.to_set().contains(y) <==> s.to_set().insert(
        x,
    ).contains(y) by {
        if all.contains(y) {
            let k = choose|k: int| 0 <= k < all.len() && all[k] == y;
            if k < s.len() {
                assert(s[k] == y);
            }
        }
        if s.contains(y) {
            let k = choose|k: int| 0 <= k < s.len() && s[k] == y;
            assert(all[k] == y);
        }
        if y == x {
            assert(all[all.len() - 1] == y);
        }
    }
    assert(all.to_set() =~= s.to_set().insert(x));
}

/// Whether a result is a finding with one of the fingerprints.
pub open spec fn is_covered(q: QueryResult, files: Seq<String>, baselined: Set<Seq<char>>) -> bool {
    finding(q) && baselined.contains(fingerprint_in(q, files))
}

/// Whether a finding is covered by a baseline. A clean verdict never is.
pub fn is_baselined(q: &QueryResult, files: &[String], baselined: &FingerprintSet) -> (r: bool)
    ensures
        r == is_covered(*q, files@, baselined@),
{
    if !is_finding(q) {
        return false;
    }
    let file = file_for(files, q.line);
    baselined.contains(fingerprint(q, file.as_str()).as_str())
}

/// The fingerprints of all findings of a response.
pub fn current_fingerprints(resp: &CheckResponse, files: &[String]) -> (r: FingerprintSet)
    ensures
        r@ == finding_fingerprints(findings(resp.queries@), files@),
{
    let ghost qs = resp.queries@;
    let mut out = FingerprintSet::new();
    let mut i: usize = 0;
    while i < resp.queries.len()
        invariant
            qs == resp.queries@,
            i <= qs.len(),
            out@ == finding_fingerprints(findings(qs.take(i as int)), files@),
        decreases qs.len() - i,
    {
        let q = &resp.queries[i];
        let ghost fs = findings(qs.take(i as int));
        assert(qs.take(i + 1).drop_last() =~= qs.take(i as int));
        if is_finding(q) {
            assert(fs.push(*q).drop_last() =~= fs);
            out.insert(fingerprint(q, file_for(files, q.line).as_str()));
        }
        i = i + 1;
    }
    assert(qs.take(i as int) =~= qs);
    out
}

/// The entries whose fingerprint is not among `current`, in order.
pub open spec fn stale(entries: Seq<Entry>, current: Set<Seq<char>>) -> Seq<Entry>
    decreases entries.len(),
{
    if entries.len() == 0 {
        seq![]
    } else if current.contains(entries.last().fingerprint@) {
        stale(entries.drop_last(), current)
    } else {
        stale(entries.drop_last(), current).push(entries.last())
    }
}

/// The entries whose fingerprint is among `current`, in order.
pub open spec fn matching(entries: Seq<Entry>, current: Set<Seq<char>>) -> Seq<Entry>
    decreases entries.len(),
{
    if entries.len() == 0 {
        seq![]
    } else if current.contains(entries.last().fingerprint@) {
        matching(entries.drop_last(), current).push(entries.last())
    } else {
        matching(entries.drop_last(), current)
    }
}

pub open spec fn referred(es: Seq<&Entry>) -> Seq<Entry> {
    es.map_values(|e: &Entry| *e)
}

/// The entries of a baseline that no finding of the response matches any more.
pub fn drifted<'a>(baseline: &'a Baseline, resp: &CheckResponse, files: &[String]) -> (r: Vec<
    &'a Entry,
>)
    ensures
        referred(r@) == stale(
            baseline.entries@,
            finding_fingerprints(findings(resp.queries@), files@),
        ),
{
    let current = current_fingerprints(resp, files);
    let ghost all = baseline.entries@;
    let mut out: Vec<&'a Entry> = Vec::new();
    let mut i: usize = 0;
    assert(referred(out@) =~= seq![]);
    while i < baseline.entries.len()
        invariant
            all == baseline.entries@,
            i <= all.len(),
            referred(out@) == stale(all.take(i as int), current@),
        decreases all.len() - i,
    {
        assert(all.take(i + 1).drop_last() =~= all.take(i as int));
        let e = &baseline.entries[i];
        let ghost kept = out@;
        if !current.contains(e.fingerprint.as_str()) {
            out.push(e);
            assert(referred(out@) =~= referred(kept).push(*e));
        }
        i = i + 1;
    }
    assert(all.take(i as int) =~= all);
    out
}

/// A baseline without the entries that no finding of the response matches any more.
pub fn pruned(baseline: Baseline, resp: &CheckResponse, files: &[String]) -> (r: Baseline)
    ensures
        r.version == baseline.version,
        r.entries@ == matching(
            baseline.entries@,
            finding_fingerprints(findings(resp.queries@), files@),
        ),
{
    let current = current_fingerprints(resp, files);
    let ghost all = baseline.entries@;
    let version: u32 = baseline.version;
    let mut entries: Vec<Entry> = Vec::new();
    for e in it: baseline.entries.into_iter()
        invariant
            it.seq() == all,
            entries@ == matching(all.take(it.index()), current@),
    {
        proof {
            let i = it.index();
            assert(all.take(i + 1).drop_last() =~= all.take(i));
            assert(all.take(i + 1).last() == e);
        }
        if current.contains(e.fingerprint.as_str()) {
            entries.push(e);
        }
    }
    assert(all.take(all.len() as int) =~= all);
    Baseline { version, entries }
}

// ── Inline suppressions ───────────────────────────────────────────────────────

/// The reason that a directive in a comment gives for ignoring `code`. The directive is
/// `marker`, a rule code, `]` and a reason; marker and code are read without regard to
/// case, and a directive without a reason does not count.
pub open spec fn directive_reason(line: Seq<char>, marker: Seq<char>, code: Seq<char>) -> Option<
    Seq<char>,
> {
    match find_seq(lowered(line), 0, marker) {
        Some(p) => {
            let start = p + marker.len();
            let close = skip_until(line, start, ']');
            if close >= line.len() {
                None
            } else if lowered(trim(line.subrange(start, close))) != lowered(code) {
                None
            } else {
                let reason = trim(line.subrange(close + 1, line.len() as int));
                if reason.len() == 0 {
                    None
                } else {
                    Some(reason)
                }
            }
        },
        None => None,
    }
}

/// The reason that a comment gives for ignoring `code`, by either spelling of the
/// directive.
pub open spec fn line_reason(line: Seq<char>, code: Seq<char>) -> Option<Seq<char>> {
    match directive_reason(line, "vetro:ignore["@, code) {
        Some(r) => Some(r),
        None => directive_reason(line, "vericto:ignore["@, code),
    }
}

/// The reason of the first comment that gives one.
pub open spec fn first_reason(ls: Seq<Seq<char>>, code: Seq<char>) -> Option<Seq<char>>
    decreases ls.len(),
{
    if ls.len() == 0 {
        None
    } else {
        match line_reason(ls[0], code) {
            Some(r) => Some(r),
            None => first_reason(ls.drop_first(), code),
        }
    }
}

/// The reason for which a SQL text ignores a rule, if it does: that of the first line whose
/// comment gives one.
pub open spec fn suppression(sql: Seq<char>, code: Seq<char>) -> Option<Seq<char>> {
    first_reason(comments(sql), code)
}

/// Reads a directive in the comment `from..to` of a text: where its reason stands.
fn scan_directive(cs: &[char], from: usize, to: usize, marker: &str, code: &[char]) -> (r: Option<
    (usize, usize),
>)
    requires
        from <= to <= cs@.len(),
    ensures
        match r {
            Some((a, b)) => from <= a <= b <= to && directive_reason(
                cs@.subrange(from as int, to as int),
                marker@,
                code@,
            ) == Some(cs@.subrange(a as int, b as int)),
            None => directive_reason(
                cs@.subrange(from as int, to as int),
                marker@,
                code@,
            ) is None,
        },
{
    let line = vstd::slice::slice_subrange(cs, from, to);
    let low = lower_chars(line);
    let mark = to_chars(marker);
    assert(low@.len() == line@.len());
    match find_from(low.as_slice(), 0, mark.as_slice()) {
        Some(p) => {
            let start: usize = p + mark.len();
            let close = scan_until(line, start, ']');
            if close >= line.len() {
                return None;
            }
            let (ca, cb) = trim_span(line, start, close);
            let found = vstd::slice::slice_subrange(line, ca, cb);
            if !same_chars_ignoring_case(found, code) {
                return None;
            }
            let (a, b) = trim_span(line, close + 1, line.len());
            if a == b {
                return None;
            }
            assert(cs@.subrange(from + a, from + b) =~= line@.subrange(a as int, b as int));
            Some((from + a, from + b))
        },
        None => None,
    }
}

/// Whether `sql` holds an inline suppression for `rule_code`: a comment
/// `-- vericto:ignore[RULE] reason`, or the older spelling `vetro:ignore`. It counts
/// wherever one of the dialects reads its `--` outside a quote; the same text in a string
/// literal does not count. A reason is required, so that a suppression is always
/// accountable; it is what is returned.
pub fn inline_suppression<'a>(sql: &'a str, rule_code: &str) -> (r: Option<&'a str>)
    ensures
        match r {
            Some(reason) => suppression(sql@, rule_code@) == Some(reason@),
            None => suppression(sql@, rule_code@) is None,
        },
{
    let chars = to_chars(sql);
    let cs = chars.as_slice();
    let code = to_chars(rule_code);
    let spans = comment_spans(cs);
    let ghost all = span_texts(cs@, spans@);
    assert(all.skip(0) =~= all);
    let mut i: usize = 0;
    while i < spans.len()
        invariant
            i <= spans@.len(),
            cs@ == sql@,
            code@ == rule_code@,
            all == span_texts(cs@, spans@),
            all == comments(sql@),
            forall|k: int|
                0 <= k < spans@.len() ==> (#[trigger] spans@[k]).0 <= spans@[k].1 <= cs@.len(),
            suppression(sql@, rule_code@) == first_reason(all.skip(i as int), rule_code@),
        decreases spans@.len() - i,
    {
        let (from, to) = spans[i];
        assert(all.skip(i as int)[0] == cs@.subrange(from as int, to as int));
        assert(all.skip(i as int).drop_first() =~= all.skip(i + 1));
        let found = match scan_directive(cs, from, to, "vetro:ignore[", code.as_slice()) {
            Some(span) => Some(span),
            None => scan_directive(cs, from, to, "vericto:ignore[", code.as_slice()),
        };
        if let Some((a, b)) = found {
            return Some(sql.substring_char(a, b));
        }
        i = i + 1;
    }
    None
}

// ── Laws ──────────────────────────────────────────────────────────────────────

pub open spec fn rising(es: Seq<EntryView>) -> bool {
    forall|i: int, j: int|
        0 <= i < j < es.len() ==> before((#[trigger] es[i]).fingerprint, (#[trigger] es[j]).fingerprint)
}

/// The fingerprints of some entries.
pub open spec fn fingerprints(es: Seq<EntryView>) -> Seq<Seq<char>> {
    es.map_values(|e: EntryView| e.fingerprint)
}

proof fn lemma_with_entry(sorted: Seq<EntryView>, e: EntryView)
    requires
        rising(sorted),
    ensures
        rising(with_entry(sorted, e)),
        fingerprints(with_entry(sorted, e)).to_set() == fingerprints(sorted).to_set().insert(
            e.fingerprint,
        ),
        forall|k: int|
            0 <= k < with_entry(sorted, e).len() ==> sorted.contains(
                #[trigger] with_entry(sorted, e)[k],
            ) || (with_entry(sorted, e)[k] == e && !fingerprints(sorted).contains(e.fingerprint)),
    decreases sorted.len(),
{
    let out = with_entry(sorted, e);
    if sorted.len() == 0 || before(sorted.last().fingerprint, e.fingerprint) {
        assert forall|i: int, j: int| 0 <= i < j < out.len() implies before(
            (#[trigger] out[i]).fingerprint,
            (#[trigger] out[j]).fingerprint,
        ) by {
            if j == sorted.len() {
                if i < sorted.len() - 1 {
                    assert(before(sorted[i].fingerprint, sorted[sorted.len() - 1].fingerprint));
                    lemma_before_is_transitive(
                        sorted[i].fingerprint,
                        sorted.last().fingerprint,
                        e.fingerprint,
                    );
                }
            } else {
                assert(out[i] == sorted[i] && out[j] == sorted[j]);
            }
        }
        assert(fingerprints(out) =~= fingerprints(sorted).push(e.fingerprint));
        lemma_push_to_set(fingerprints(sorted), e.fingerprint);
        assert(!fingerprints(sorted).contains(e.fingerprint)) by {
            if fingerprints(sorted).contains(e.fingerprint) {
                let k = choose|k: int|
                    0 <= k < sorted.len() && fingerprints(sorted)[k] == e.fingerprint;
                assert(sorted[k].fingerprint == e.fingerprint);
                lemma_before_is_strict(sorted.last().fingerprint, e.fingerprint);
                if k < sorted.len() - 1 {
                    assert(before(sorted[k].fingerprint, sorted[sorted.len() - 1].fingerprint));
                }
            }
        }
        assert forall|k: int| 0 <= k < out.len() implies sorted.contains(#[trigger] out[k]) || (
        out[k] == e && !fingerprints(sorted).contains(e.fingerprint)) by {
            if k < sorted.len() {
                assert(sorted[k] == out[k]);
            }
        }
    } else if sorted.last().fingerprint == e.fingerprint {
        assert(fingerprints(sorted)[sorted.len() - 1] == e.fingerprint);
        assert(fingerprints(sorted).to_set() =~= fingerprints(sorted).to_set().insert(
            e.fingerprint,
        ));
    } else {
        let rest = sorted.drop_last();
        let last = sorted.last();
        let head = with_entry(rest, e);
        assert(forall|k: int| 0 <= k < rest.len() ==> rest[k] == sorted[k]);
        lemma_with_entry(rest, e);
        lemma_before_is_strict(last.fingerprint, e.fingerprint);
        assert(before(e.fingerprint, last.fingerprint));
        assert(fingerprints(out) =~= fingerprints(head).push(last.fingerprint));
        assert(fingerprints(sorted) =~= fingerprints(rest).push(last.fingerprint));
        lemma_push_to_set(fingerprints(head), last.fingerprint);
        lemma_push_to_set(fingerprints(rest), last.fingerprint);
        assert(fingerprints(out).to_set() =~= fingerprints(sorted).to_set().insert(e.fingerprint));
        assert(fingerprints(sorted).contains(e.fingerprint) ==> fingerprints(rest).contains(
            e.fingerprint,
        )) by {
            if fingerprints(sorted).contains(e.fingerprint) {
                let k = choose|k: int|
                    0 <= k < sorted.len() && fingerprints(sorted)[k] == e.fingerprint;
                assert(fingerprints(rest)[k] == e.fingerprint);
            }
        }
        assert forall|k: int| 0 <= k < out.len() implies sorted.contains(#[trigger] out[k]) || (
        out[k] == e && !fingerprints(sorted).contains(e.fingerprint)) by {
            if k < head.len() {
                assert(out[k] == head[k]);
                if rest.contains(head[k]) {
                    let m = choose|m: int| 0 <= m < rest.len() && rest[m] == head[k];
                    assert(sorted[m] == out[k]);
                }
            } else {
                assert(sorted[sorted.len() - 1] == out[k]);
            }
        }
        assert forall|i: int, j: int| 0 <= i < j < out.len() implies before(
            (#[trigger] out[i]).fingerprint,
            (#[trigger] out[j]).fingerprint,
        ) by {
            if j == head.len() {
                assert(out[i] == head[i]);
                if rest.contains(head[i]) {
                    let m = choose|m: int| 0 <= m < rest.len() && rest[m] == head[i];
                    assert(before(sorted[m].fingerprint, sorted[sorted.len() - 1].fingerprint));
                }
            } else {
                assert(out[i] == head[i] && out[j] == head[j]);
            }
        }
    }
}

/// The entries of a recorded baseline stand in order of their fingerprints, no two with
/// the same one, and their fingerprints are those of the findings.
pub proof fn law_recorded_entries(fs: Seq<QueryResult>, files: Seq<String>)
    ensures
        rising(recorded(fs, files)),
        fingerprints(recorded(fs, files)).to_set() == finding_fingerprints(fs, files),
    decreases fs.len(),
{
    if fs.len() == 0 {
        assert(fingerprints(recorded(fs, files)).to_set() =~= finding_fingerprints(fs, files));
    } else {
        law_recorded_entries(fs.drop_last(), files);
        lemma_with_entry(recorded(fs.drop_last(), files), entry_of(fs.last(), files));
    }
}

/// Whether `e` records the first finding of `fs` that has its fingerprint.
pub open spec fn records_first(fs: Seq<QueryResult>, files: Seq<String>, e: EntryView) -> bool {
    exists|j: int|
        0 <= j < fs.len() && e == entry_of(#[trigger] fs[j], files) && (forall|i: int|
            0 <= i < j ==> fingerprint_in(#[trigger] fs[i], files) != e.fingerprint)
}

proof fn lemma_finding_fingerprints(fs: Seq<QueryResult>, files: Seq<String>, i: int)
    requires
        0 <= i < fs.len(),
    ensures
        finding_fingerprints(fs, files).contains(fingerprint_in(fs[i], files)),
    decreases fs.len(),
{
    if i < fs.len() - 1 {
        lemma_finding_fingerprints(fs.drop_last(), files, i);
    }
}

/// Each entry of a recorded baseline describes the first finding with its fingerprint.
pub proof fn law_recorded_entries_describe_the_first(
    fs: Seq<QueryResult>,
    files: Seq<String>,
    k: int,
)
    requires
        0 <= k < recorded(fs, files).len(),
    ensures
        records_first(fs, files, recorded(fs, files)[k]),
    decreases fs.len(),
{
    if fs.len() > 0 {
        let rest = fs.drop_last();
        let sorted = recorded(rest, files);
        let e = entry_of(fs.last(), files);
        law_recorded_entries(rest, files);
        lemma_with_entry(sorted, e);
        let x = recorded(fs, files)[k];
        if sorted.contains(x) {
            let m = choose|m: int| 0 <= m < sorted.len() && sorted[m] == x;
            law_recorded_entries_describe_the_first(rest, files, m);
            let j = choose|j: int|
                0 <= j < rest.len() && x == entry_of(#[trigger] rest[j], files) && (forall|i: int|
                    0 <= i < j ==> fingerprint_in(#[trigger] rest[i], files) != x.fingerprint);
            assert(fs[j] == rest[j]);
            assert forall|i: int| 0 <= i < j implies fingerprint_in(#[trigger] fs[i], files)
                != x.fingerprint by {
                assert(rest[i] == fs[i]);
            }
        } else {
            let j = fs.len() - 1;
            assert(x == entry_of(fs[j], files));
            assert forall|i: int| 0 <= i < j implies fingerprint_in(#[trigger] fs[i], files)
                != x.fingerprint by {
                assert(rest[i] == fs[i]);
                lemma_finding_fingerprints(rest, files, i);
                assert(fingerprints(sorted).to_set().contains(fingerprint_in(fs[i], files)));
            }
        }
    }
}

/// A baseline covers the run that it was recorded from: whatever list of entries holds
/// what was recorded, every finding of the run is among its fingerprints.
pub proof fn law_baseline_covers_its_own_run(
    entries: Seq<Entry>,
    qs: Seq<QueryResult>,
    files: Seq<String>,
    q: QueryResult,
)
    requires
        entry_views(entries) == recorded(findings(qs), files),
        qs.contains(q),
        finding(q),
    ensures
        entry_fingerprints(entries).contains(fingerprint_in(q, files)),
{
    let fs = findings(qs);
    crate::output::law_findings_are_the_results_worth_reporting(qs, q);
    let i = choose|i: int| 0 <= i < fs.len() && fs[i] == q;
    lemma_finding_fingerprints(fs, files, i);
    law_recorded_entries(fs, files);
    assert(entries.map_values(|e: Entry| e.fingerprint@) =~= fingerprints(entry_views(entries)));
}

/// The reports and the baseline name a finding alike: the fingerprint in a Code Quality
/// issue and the identifier in a SAST report are the fingerprint that is recorded.
pub proof fn law_reports_name_findings_as_the_baseline_does(q: QueryResult, files: Seq<String>)
    ensures
        member(cq_issue(q, files), "fingerprint"@) == Some(
            JsonView::Text(entry_of(q, files).fingerprint),
        ),
        member(sast_finding(q, files), "id"@) == Some(
            JsonView::Text(entry_of(q, files).fingerprint),
        ),
{
    reveal_strlit("fingerprint");
    reveal_strlit("severity");
    reveal_strlit("location");
    reveal_strlit("id");
    reveal_strlit("category");
    reveal_strlit("name");
    reveal_strlit("message");
    reveal_strlit("identifiers");
    let file = source_of(files, q.line);
    let rule = text_or(q.rule_code, "VERICTO"@);
    let issue = seq![
        text_field("description"@, message_of(q)),
        text_field("check_name"@, rule),
        text_field("fingerprint"@, result_fingerprint(q, file)),
        text_field("severity"@, cq_severity_of(q.status@, opt_view(q.severity))),
        (
            "location"@,
            object(seq![text_field("path"@, file), ("lines"@, object(seq![("begin"@, number(1))]))]),
        ),
    ];
    assert("fingerprint"@.len() == 11 && "severity"@.len() == 8 && "location"@.len() == 8);
    assert(issue[2].0 == "fingerprint"@ && issue[3].0 == "severity"@ && issue[4].0 == "location"@);
    lemma_member(issue, 2);
    let found = seq![
        text_field("id"@, result_fingerprint(q, file)),
        text_field("category"@, "sast"@),
        text_field("name"@, rule),
        text_field("message"@, message_of(q)),
        text_field("severity"@, sast_severity_of(q.status@, opt_view(q.severity))),
        ("location"@, object(seq![text_field("file"@, file), ("start_line"@, number(1))])),
        ("identifiers"@, JsonView::Array(seq![sast_identifier(rule)])),
    ];
    assert("id"@.len() == 2 && "category"@.len() == 8 && "name"@.len() == 4 && "message"@.len() == 7
        && "identifiers"@.len() == 11);
    assert(found[0].0 == "id"@ && found[1].0 == "category"@ && found[2].0 == "name"@ && found[3].0
        == "message"@ && found[4].0 == "severity"@ && found[5].0 == "location"@ && found[6].0
        == "identifiers"@);
    lemma_member(found, 0);
}

proof fn lemma_stale_empty(entries: Seq<Entry>, current: Set<Seq<char>>)
    requires
        forall|k: int| 0 <= k < entries.len() ==> current.contains((#[trigger] entries[k]).fingerprint@),
    ensures
        stale(entries, current) == Seq::<Entry>::empty(),
        matching(entries, current) == entries,
    decreases entries.len(),
{
    if entries.len() > 0 {
        assert(current.contains(entries[entries.len() - 1].fingerprint@));
        assert forall|k: int| 0 <= k < entries.drop_last().len() implies current.contains(
            (#[trigger] entries.drop_last()[k]).fingerprint@,
        ) by {
            assert(entries.drop_last()[k] == entries[k]);
        }
        lemma_stale_empty(entries.drop_last(), current);
        assert(entries.drop_last().push(entries.last()) =~= entries);
    }
}

/// Nothing of a baseline is stale right after it was recorded, and pruning it then
/// changes nothing.
pub proof fn law_fresh_baseline_does_not_drift(
    entries: Seq<Entry>,
    qs: Seq<QueryResult>,
    files: Seq<String>,
)
    requires
        entry_views(entries) == recorded(findings(qs), files),
    ensures
        stale(entries, finding_fingerprints(findings(qs), files)) == Seq::<Entry>::empty(),
        matching(entries, finding_fingerprints(findings(qs), files)) == entries,
{
    let fs = findings(qs);
    let current = finding_fingerprints(fs, files);
    law_recorded_entries(fs, files);
    assert forall|k: int| 0 <= k < entries.len() implies current.contains(
        (#[trigger] entries[k]).fingerprint@,
    ) by {
        assert(fingerprints(entry_views(entries))[k] == entries[k].fingerprint@);
        assert(fingerprints(recorded(fs, files)).contains(entries[k].fingerprint@));
    }
    lemma_stale_empty(entries, current);
}

/// Pruning removes the stale entries and no others: what it keeps and what is stale
/// are the whole baseline, and pruned once more it stays as it is.
pub proof fn law_pruning_keeps_what_matches(entries: Seq<Entry>, current: Set<Seq<char>>)
    ensures
        matching(entries, current).to_multiset().add(stale(entries, current).to_multiset())
            == entries.to_multiset(),
        forall|k: int|
            0 <= k < matching(entries, current).len() ==> current.contains(
                (#[trigger] matching(entries, current)[k]).fingerprint@,
            ),
        forall|k: int|
            0 <= k < stale(entries, current).len() ==> !current.contains(
                (#[trigger] stale(entries, current)[k]).fingerprint@,
            ),
        matching(matching(entries, current), current) == matching(entries, current),
    decreases entries.len(),
{
    broadcast use vstd::seq_lib::group_to_multiset_ensures;

    let kept = matching(entries, current).to_multiset();
    let left = stale(entries, current).to_multiset();
    if entries.len() > 0 {
        let rest = entries.drop_last();
        law_pruning_keeps_what_matches(rest, current);
        assert(entries =~= rest.push(entries.last()));
    }
    assert(kept.add(left) =~= entries.to_multiset());
    lemma_stale_empty(matching(entries, current), current);
}

proof fn lemma_line_reason(line: Seq<char>, code: Seq<char>)
    ensures
        line_reason(line, code) matches Some(r) ==> r.len() > 0,
{
}

/// A suppression is always accountable: there is none without a reason.
pub proof fn law_suppression_has_a_reason(ls: Seq<Seq<char>>, code: Seq<char>)
    ensures
        first_reason(ls, code) matches Some(r) ==> r.len() > 0,
    decreases ls.len(),
{
    if ls.len() > 0 {
        lemma_line_reason(ls[0], code);
        law_suppression_has_a_reason(ls.drop_first(), code);
    }
}

proof fn lemma_first_reason_at(ls: Seq<Seq<char>>, code: Seq<char>, k: int)
    requires
        0 <= k < ls.len(),
        forall|j: int| 0 <= j < k ==> line_reason(#[trigger] ls[j], code) is None,
        line_reason(ls[k], code) is Some,
    ensures
        first_reason(ls, code) == line_reason(ls[k], code),
    decreases k,
{
    if k > 0 {
        assert(line_reason(ls[0], code) is None);
        assert(forall|j: int| 0 <= j < k ==> ls.drop_first()[j] == ls[j + 1]);
        lemma_first_reason_at(ls.drop_first(), code, k - 1);
    }
}

/// In a text without quotation marks every line with a directive behind `--` gives its
/// reason: the first of them is what is returned, and lines before it that hold none, or
/// none that counts, do not stop the search.
pub proof fn law_directives_behind_dashes_count(sql: Seq<char>, code: Seq<char>, k: int)
    requires
        forall|i: int| 0 <= i < sql.len() ==> (#[trigger] sql[i]) != '\'' && sql[i] != '"',
        0 <= k < lines(sql).len(),
        line_reason(behind_dashes(lines(sql)[k]), code) is Some,
        forall|j: int|
            0 <= j < k ==> line_reason(behind_dashes(#[trigger] lines(sql)[j]), code) is None,
    ensures
        suppression(sql, code) == line_reason(behind_dashes(lines(sql)[k]), code),
{
    law_unquoted_dashes_are_comments(sql);
    let ls = comments(sql);
    assert forall|j: int| 0 <= j < k implies line_reason(#[trigger] ls[j], code) is None by {
        assert(ls[j] == behind_dashes(lines(sql)[j]));
    }
    lemma_first_reason_at(ls, code, k);
}

/// A suppression stands behind a `--`: in a text without quotation marks there is one only
/// where some line gives its reason.
pub proof fn law_suppressions_stand_behind_dashes(sql: Seq<char>, code: Seq<char>)
    requires
        forall|i: int| 0 <= i < sql.len() ==> (#[trigger] sql[i]) != '\'' && sql[i] != '"',
        forall|j: int|
            0 <= j < lines(sql).len() ==> line_reason(
                behind_dashes(#[trigger] lines(sql)[j]),
                code,
            ) is None,
    ensures
        suppression(sql, code) is None,
{
    law_unquoted_dashes_are_comments(sql);
    let ls = comments(sql);
    assert forall|j: int| 0 <= j < ls.len() implies line_reason(#[trigger] ls[j], code) is None by {
        assert(ls[j] == behind_dashes(lines(sql)[j]));
    }
    lemma_no_reason(ls, code);
}

proof fn lemma_no_reason(ls: Seq<Seq<char>>, code: Seq<char>)
    requires
        forall|j: int| 0 <= j < ls.len() ==> line_reason(#[trigger] ls[j], code) is None,
    ensures
        first_reason(ls, code) is None,
    decreases ls.len(),
{
    if ls.len() > 0 {
        assert(line_reason(ls[0], code) is None);
        assert(forall|j: int| 0 <= j < ls.len() - 1 ==> ls.drop_first()[j] == ls[j + 1]);
        lemma_no_reason(ls.drop_first(), code);
    }
}

/// A directive in a string literal suppresses nothing.
pub proof fn law_literals_suppress_nothing(head: Seq<char>, body: Seq<char>, code: Seq<char>)
    requires
        forall|i: int| 0 <= i < head.len() ==> is_plain_code(#[trigger] head[i]),
        forall|i: int| 0 <= i < body.len() ==> (#[trigger] body[i]) != '\'' && body[i] != '\\',
    ensures
        suppression(literal_behind(head, body), code) is None,
{
    let ls = comments(literal_behind(head, body));
    assert forall|j: int| 0 <= j < ls.len() implies line_reason(#[trigger] ls[j], code) is None by {
        law_literals_hold_no_comment(head, body, j);
        reveal_strlit("vetro:ignore[");
        reveal_strlit("vericto:ignore[");
        reveal_with_fuel(find_seq, 2);
    }
    lemma_no_reason(ls, code);
}

} // verus!
