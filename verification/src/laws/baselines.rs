//! Baselines record the findings of a run, and only those; what is new is not covered.
use vstd::prelude::*;
use crate::api::{CheckResponse, QueryResult};
use crate::baseline::{before, entry_views, finding_fingerprints, fingerprint_in, law_recorded_entries, law_recorded_entries_describe_the_first, matching, recorded, stale, Baseline, Entry, EntryView};
use crate::baseline_run::{with_response, BaselineActionView, BaselineGoal};
use crate::laws::fingerprints::{law_fingerprint_is_the_hash, law_hexadecimal_digits, seed};
use crate::output::{findings, fnv1a, source_of};
use crate::text::{hex_padded, opt_view};

verus! {

/// The findings of a run are its results with any status but `ALLOWED`, in order.
pub proof fn law_findings_are_what_is_not_allowed(qs: Seq<QueryResult>)
    ensures
        findings(qs) == qs.filter(|q: QueryResult| q.status@ != "ALLOWED"@),
    decreases qs.len(),
{
    reveal(Seq::filter);
    if qs.len() > 0 {
        law_findings_are_what_is_not_allowed(qs.drop_last());
    }
}

/// A result comes from the file at its place in the list, counted from one; standard input
/// and places that name no file are shown as `<stdin>`.
pub proof fn law_results_name_their_file(files: Seq<String>, k: int)
    requires
        0 <= k < u32::MAX,
    ensures
        k < files.len() && files[k]@ != "-"@ ==> source_of(files, (k + 1) as u32) == files[k]@,
        k < files.len() && files[k]@ == "-"@ ==> source_of(files, (k + 1) as u32) == "<stdin>"@,
        k >= files.len() ==> source_of(files, (k + 1) as u32) == "<stdin>"@,
        source_of(files, 0) == "<stdin>"@,
{
}

/// The file of a result: that at its place in the list, or standard input.
pub open spec fn file_of(q: QueryResult, files: Seq<String>) -> Seq<char> {
    if 0 < q.line && q.line <= files.len() && files[q.line as int - 1]@ != "-"@ {
        files[q.line as int - 1]@
    } else {
        "<stdin>"@
    }
}

/// The fingerprint of a result: the hash of its rule, its file and its syntax path.
pub open spec fn print_of(q: QueryResult, files: Seq<String>) -> Seq<char> {
    hex_padded(fnv1a(seed(q, file_of(q, files))) as nat, 16)
}

/// A finding is known by its own rule, file and syntax path.
pub proof fn law_findings_are_known_by_rule_file_and_path(q: QueryResult, files: Seq<String>)
    ensures
        source_of(files, q.line) == file_of(q, files),
        fingerprint_in(q, files) == print_of(q, files),
        print_of(q, files).len() == 16,
{
    law_fingerprint_is_the_hash(q, file_of(q, files));
    law_hexadecimal_digits(fnv1a(seed(q, file_of(q, files))) as nat, 16);
}

/// A fingerprint is among those of a run exactly where a finding of the run has it.
pub proof fn law_fingerprints_of_a_run(qs: Seq<QueryResult>, files: Seq<String>, fp: Seq<char>)
    ensures
        finding_fingerprints(findings(qs), files).contains(fp) <==> exists|i: int|
            0 <= i < qs.len() && (#[trigger] qs[i]).status@ != "ALLOWED"@ && print_of(qs[i], files)
                == fp,
    decreases qs.len(),
{
    if qs.len() > 0 {
        let rest = qs.drop_last();
        let q = qs.last();
        law_fingerprints_of_a_run(rest, files, fp);
        law_findings_are_known_by_rule_file_and_path(q, files);
        assert(findings(rest).push(q).drop_last() =~= findings(rest));
        if exists|i: int|
            0 <= i < rest.len() && (#[trigger] rest[i]).status@ != "ALLOWED"@ && print_of(
                rest[i],
                files,
            ) == fp {
            let i = choose|i: int|
                0 <= i < rest.len() && (#[trigger] rest[i]).status@ != "ALLOWED"@ && print_of(
                    rest[i],
                    files,
                ) == fp;
            assert(qs[i] == rest[i]);
        }
        if exists|i: int|
            0 <= i < qs.len() && (#[trigger] qs[i]).status@ != "ALLOWED"@ && print_of(qs[i], files)
                == fp {
            let i = choose|i: int|
                0 <= i < qs.len() && (#[trigger] qs[i]).status@ != "ALLOWED"@ && print_of(
                    qs[i],
                    files,
                ) == fp;
            if i < rest.len() {
                assert(rest[i] == qs[i]);
            }
        }
        if q.status@ != "ALLOWED"@ && print_of(q, files) == fp {
            assert(qs[qs.len() - 1] == q);
        }
    }
}

proof fn lemma_findings_hold(qs: Seq<QueryResult>, j: int) -> (i: int)
    requires
        0 <= j < findings(qs).len(),
    ensures
        0 <= i < qs.len(),
        qs[i] == findings(qs)[j],
        qs[i].status@ != "ALLOWED"@,
    decreases qs.len(),
{
    if j < findings(qs.drop_last()).len() {
        let i = lemma_findings_hold(qs.drop_last(), j);
        i
    } else {
        qs.len() - 1
    }
}

/// What a baseline records: an entry for every finding of the run, each entry the words of
/// a finding that has its fingerprint.
pub proof fn law_baselines_record_the_findings(qs: Seq<QueryResult>, files: Seq<String>)
    ensures
        forall|i: int|
            0 <= i < qs.len() && (#[trigger] qs[i]).status@ != "ALLOWED"@ ==> exists|k: int|
                0 <= k < recorded(findings(qs), files).len() && (#[trigger] recorded(
                    findings(qs),
                    files,
                )[k]).fingerprint == print_of(qs[i], files),
        forall|k: int|
            0 <= k < recorded(findings(qs), files).len() ==> exists|i: int|
                0 <= i < qs.len() && (#[trigger] qs[i]).status@ != "ALLOWED"@ && (
                #[trigger] recorded(findings(qs), files)[k]) == (EntryView {
                    fingerprint: print_of(qs[i], files),
                    file: file_of(qs[i], files),
                    rule_code: (match qs[i].rule_code {
                        Some(c) => Some(c@),
                        None => None,
                    }),
                    status: Some(qs[i].status@),
                }),
{
    let fs = findings(qs);
    let es = recorded(fs, files);
    law_recorded_entries(fs, files);
    let prints = crate::baseline::fingerprints(es);
    assert forall|i: int| 0 <= i < qs.len() && (#[trigger] qs[i]).status@ != "ALLOWED"@ implies exists|
        k: int,
    |
        0 <= k < es.len() && (#[trigger] es[k]).fingerprint == print_of(qs[i], files) by {
        law_fingerprints_of_a_run(qs, files, print_of(qs[i], files));
        assert(prints.to_set().contains(print_of(qs[i], files)));
        let k = choose|k: int| 0 <= k < prints.len() && prints[k] == print_of(qs[i], files);
        assert(es[k].fingerprint == print_of(qs[i], files));
    }
    assert forall|k: int| 0 <= k < es.len() implies exists|i: int|
        0 <= i < qs.len() && (#[trigger] qs[i]).status@ != "ALLOWED"@ && (#[trigger] es[k]) == (
        EntryView {
            fingerprint: print_of(qs[i], files),
            file: file_of(qs[i], files),
            rule_code: (match qs[i].rule_code {
                Some(c) => Some(c@),
                None => None,
            }),
            status: Some(qs[i].status@),
        }) by {
        law_recorded_entries_describe_the_first(fs, files, k);
        let j = choose|j: int|
            0 <= j < fs.len() && es[k] == crate::baseline::entry_of(#[trigger] fs[j], files) && (
            forall|i: int|
                0 <= i < j ==> fingerprint_in(#[trigger] fs[i], files) != es[k].fingerprint);
        let i = lemma_findings_hold(qs, j);
        law_findings_are_known_by_rule_file_and_path(qs[i], files);
    }
}

proof fn lemma_first_difference(a: Seq<char>, b: Seq<char>) -> (p: int)
    requires
        before(a, b),
        a.len() == b.len(),
    ensures
        0 <= p < a.len(),
        a[p] < b[p],
        forall|r: int| 0 <= r < p ==> a[r] == b[r],
    decreases a.len(),
{
    if a[0] != b[0] {
        0
    } else {
        let p = lemma_first_difference(a.drop_first(), b.drop_first());
        assert forall|r: int| 0 <= r < p + 1 implies a[r] == b[r] by {
            if r > 0 {
                assert(a.drop_first()[r - 1] == b.drop_first()[r - 1]);
            }
        }
        p + 1
    }
}

/// The entries of a baseline stand in the order of their fingerprints, each of them once:
/// of two entries the later has the greater digit where they differ first.
pub proof fn law_baselines_are_in_order(qs: Seq<QueryResult>, files: Seq<String>, i: int, j: int)
    requires
        0 <= i < j < recorded(findings(qs), files).len(),
    ensures
        exists|p: int|
            0 <= p < 16 && recorded(findings(qs), files)[i].fingerprint[p] < recorded(
                findings(qs),
                files,
            )[j].fingerprint[p] && (forall|r: int|
                0 <= r < p ==> recorded(findings(qs), files)[i].fingerprint[r] == recorded(
                    findings(qs),
                    files,
                )[j].fingerprint[r]),
{
    let es = recorded(findings(qs), files);
    law_recorded_entries(findings(qs), files);
    law_baselines_record_the_findings(qs, files);
    let a = es[i];
    let b = es[j];
    assert(before(a.fingerprint, b.fingerprint));
    assert(a.fingerprint.len() == 16 && b.fingerprint.len() == 16) by {
        let x = choose|x: int|
            0 <= x < qs.len() && (#[trigger] qs[x]).status@ != "ALLOWED"@ && a.fingerprint
                == print_of(qs[x], files);
        let y = choose|y: int|
            0 <= y < qs.len() && (#[trigger] qs[y]).status@ != "ALLOWED"@ && b.fingerprint
                == print_of(qs[y], files);
        law_findings_are_known_by_rule_file_and_path(qs[x], files);
        law_findings_are_known_by_rule_file_and_path(qs[y], files);
    }
    let p = lemma_first_difference(a.fingerprint, b.fingerprint);
}

/// Of the entries of a baseline those are stale whose fingerprint no finding has, and those
/// are kept that one has, in order.
pub proof fn law_entries_are_parted_by_fingerprint(entries: Seq<Entry>, current: Set<Seq<char>>)
    ensures
        stale(entries, current) == entries.filter(
            |e: Entry| !current.contains(e.fingerprint@),
        ),
        matching(entries, current) == entries.filter(|e: Entry| current.contains(e.fingerprint@)),
    decreases entries.len(),
{
    reveal(Seq::filter);
    if entries.len() > 0 {
        law_entries_are_parted_by_fingerprint(entries.drop_last(), current);
    }
}

/// Whether some finding of a run has the fingerprint of an entry.
pub open spec fn still_found(e: Entry, qs: Seq<QueryResult>, files: Seq<String>) -> bool {
    exists|i: int|
        0 <= i < qs.len() && (#[trigger] qs[i]).status@ != "ALLOWED"@ && print_of(qs[i], files)
            == e.fingerprint@
}

/// Pruning drops an entry exactly where no finding of the run has its fingerprint. Where
/// nothing is dropped, or in a dry run, nothing is written.
pub proof fn law_pruning_drops_what_is_gone(
    path: String,
    baseline: Baseline,
    dry_run: bool,
    files: Seq<String>,
    resp: CheckResponse,
)
    ensures
        ({
            let kept = baseline.entries@.filter(|e: Entry| still_found(e, resp.queries@, files));
            let action = with_response(
                BaselineGoal::Prune { path, baseline, dry_run },
                files,
                resp,
            );
            if kept.len() < baseline.entries@.len() && !dry_run {
                action matches BaselineActionView::Save { version, entries, path: to, .. } && version
                    == baseline.version && entries == entry_views(kept) && to == path@
            } else {
                action matches BaselineActionView::Exit(s) && s.code == 0
            }
        }),
{
    let qs = resp.queries@;
    let current = finding_fingerprints(findings(qs), files);
    let entries = baseline.entries@;
    let keep = |e: Entry| still_found(e, qs, files);
    let has = |e: Entry| current.contains(e.fingerprint@);
    assert forall|e: Entry| #[trigger] keep(e) == has(e) by {
        law_fingerprints_of_a_run(qs, files, e.fingerprint@);
    }
    assert(keep =~= has);
    law_entries_are_parted_by_fingerprint(entries, current);
    lemma_parts_add_up(entries, current);
    assert(crate::exit::OK == 0);
}

proof fn lemma_parts_add_up(entries: Seq<Entry>, current: Set<Seq<char>>)
    ensures
        stale(entries, current).len() + matching(entries, current).len() == entries.len(),
    decreases entries.len(),
{
    if entries.len() > 0 {
        lemma_parts_add_up(entries.drop_last(), current);
    }
}

/// Recording writes the findings of the run, under the current version, to the named file.
pub proof fn law_recording_writes_the_findings(out: String, files: Seq<String>, resp: CheckResponse)
    ensures
        with_response(BaselineGoal::Record { out }, files, resp) matches BaselineActionView::Save {
            version,
            entries,
            path,
            ..
        } && version == 1 && path == out@ && entries == recorded(findings(resp.queries@), files),
{
}

/// Each entry describes a finding that is the first with its fingerprint: its file, its rule
/// and its status are those of that finding.
pub proof fn law_entries_describe_the_first_finding(
    qs: Seq<QueryResult>,
    files: Seq<String>,
    k: int,
)
    requires
        0 <= k < recorded(findings(qs), files).len(),
    ensures
        ({
            let fs = qs.filter(|q: QueryResult| q.status@ != "ALLOWED"@);
            let e = recorded(findings(qs), files)[k];
            exists|j: int|
                0 <= j < fs.len() && describes(e, #[trigger] fs[j], files) && forall|i: int|
                    0 <= i < j ==> print_of(#[trigger] fs[i], files) != e.fingerprint
        }),
{
    let fs = findings(qs);
    law_findings_are_what_is_not_allowed(qs);
    law_recorded_entries_describe_the_first(fs, files, k);
    let e = recorded(fs, files)[k];
    let j = choose|j: int|
        0 <= j < fs.len() && e == crate::baseline::entry_of(#[trigger] fs[j], files) && (forall|
            i: int,
        |
            0 <= i < j ==> fingerprint_in(#[trigger] fs[i], files) != e.fingerprint);
    law_findings_are_known_by_rule_file_and_path(fs[j], files);
    assert(describes(e, fs[j], files));
    assert forall|i: int| 0 <= i < j implies print_of(#[trigger] fs[i], files) != e.fingerprint by {
        law_findings_are_known_by_rule_file_and_path(fs[i], files);
        assert(fingerprint_in(fs[i], files) != e.fingerprint);
    }
}

/// Whether an entry holds what there is to hold of a finding.
pub open spec fn describes(e: EntryView, q: QueryResult, files: Seq<String>) -> bool {
    &&& e.fingerprint == print_of(q, files)
    &&& e.file == file_of(q, files)
    &&& e.rule_code == opt_view(q.rule_code)
    &&& e.status == Some(q.status@)
}

} // verus!
