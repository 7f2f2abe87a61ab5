//! A run that was sent in parts gives back what its parts gave, all of it and in order.
use vstd::prelude::*;
use crate::api::{all_done, chunked, fact_in, fault, first_fact, in_order, is_merge, is_outcome, is_request, law_chunk_order_is_restored, law_chunks_are_the_list, max_exit_code, min_remaining, queries_of, receipts_of, responses, sum_of, ApiErrorView, CheckParams, CheckRequest, CheckResponse, ChunkOutcome, Count, Fact, QueryInput, QueryResult, MAX_QUERIES_PER_CALL};
use crate::text::opt_view;

verus! {

/// The sum of some numbers.
pub open spec fn total(ns: Seq<int>) -> int {
    ns.fold_left(0int, |a: int, n: int| a + n)
}

/// The results of the parts, one behind the other.
pub open spec fn all_results(parts: Seq<CheckResponse>) -> Seq<QueryResult> {
    parts.map_values(|p: CheckResponse| p.queries@).flatten()
}

proof fn lemma_queries(parts: Seq<CheckResponse>)
    ensures
        queries_of(parts) == all_results(parts),
    decreases parts.len(),
{
    if parts.len() > 0 {
        let rest = parts.drop_last();
        lemma_queries(rest);
        let lists = rest.map_values(|p: CheckResponse| p.queries@);
        lists.lemma_flatten_push(parts.last().queries@);
        assert(parts.map_values(|p: CheckResponse| p.queries@) =~= lists.push(
            parts.last().queries@,
        ));
    }
}

proof fn lemma_receipts(parts: Seq<CheckResponse>)
    ensures
        receipts_of(parts) == parts.filter(|p: CheckResponse| p.receipt is Some).map_values(
            |p: CheckResponse| p.receipt->Some_0,
        ),
    decreases parts.len(),
{
    reveal(Seq::filter);
    let has = |p: CheckResponse| p.receipt is Some;
    let its = |p: CheckResponse| p.receipt->Some_0;
    if parts.len() > 0 {
        let rest = parts.drop_last();
        lemma_receipts(rest);
        if has(parts.last()) {
            assert(parts.filter(has) == rest.filter(has).push(parts.last()));
            assert(rest.filter(has).push(parts.last()).map_values(its) =~= rest.filter(
                has,
            ).map_values(its).push(its(parts.last())));
        }
    } else {
        assert(parts.filter(has).map_values(its) =~= seq![]);
    }
}

proof fn lemma_total_push(ns: Seq<int>, n: int)
    ensures
        total(ns.push(n)) == total(ns) + n,
{
    assert(ns.push(n).drop_last() =~= ns);
}

proof fn lemma_sum(parts: Seq<CheckResponse>, f: spec_fn(CheckResponse) -> int, c: Count)
    requires
        forall|p: CheckResponse| #[trigger] f(p) == crate::api::count_in(p.summary, c),
    ensures
        sum_of(parts, c) == total(parts.map_values(f)),
    decreases parts.len(),
{
    if parts.len() > 0 {
        let rest = parts.drop_last();
        lemma_sum(rest, f, c);
        lemma_total_push(rest.map_values(f), f(parts.last()));
        assert(parts.map_values(f) =~= rest.map_values(f).push(f(parts.last())));
    }
}

proof fn lemma_one(parts: Seq<CheckResponse>, f: spec_fn(CheckResponse) -> int)
    requires
        parts.len() == 1,
    ensures
        total(parts.map_values(f)) == f(parts[0]),
{
    let none = Seq::<int>::empty();
    lemma_total_push(none, f(parts[0]));
    assert(parts.map_values(f) =~= none.push(f(parts[0])));
    assert(total(none) == 0);
}

/// The results of a run are those of its parts, none left out, in order.
pub proof fn law_merged_results_are_all_results(r: CheckResponse, parts: Seq<CheckResponse>)
    requires
        is_merge(r, parts),
    ensures
        r.queries@ == parts.map_values(|p: CheckResponse| p.queries@).flatten(),
{
    lemma_queries(parts);
    if parts.len() == 1 {
        assert(parts.map_values(|p: CheckResponse| p.queries@) =~= seq![r.queries@]);
        seq![r.queries@].lemma_flatten_one_element();
    }
}

/// A run has as many results as its parts have together, and every result of every part is
/// among them.
pub proof fn law_no_result_is_lost(r: CheckResponse, parts: Seq<CheckResponse>, k: int, i: int)
    requires
        is_merge(r, parts),
        0 <= k < parts.len(),
        0 <= i < parts[k].queries@.len(),
    ensures
        r.queries@.len() == total(parts.map_values(|p: CheckResponse| p.queries@.len() as int)),
        all_results(parts.take(k)).len() + i < r.queries@.len(),
        r.queries@[all_results(parts.take(k)).len() + i] == parts[k].queries@[i],
{
    law_merged_results_are_all_results(r, parts);
    lemma_lengths(parts);
    lemma_result_at(parts, k, i);
}

proof fn lemma_lengths(parts: Seq<CheckResponse>)
    ensures
        all_results(parts).len() == total(
            parts.map_values(|p: CheckResponse| p.queries@.len() as int),
        ),
    decreases parts.len(),
{
    let f = |p: CheckResponse| p.queries@.len() as int;
    if parts.len() > 0 {
        let rest = parts.drop_last();
        lemma_lengths(rest);
        lemma_queries(rest);
        lemma_queries(parts);
        lemma_total_push(rest.map_values(f), f(parts.last()));
        assert(parts.map_values(f) =~= rest.map_values(f).push(f(parts.last())));
    }
}

proof fn lemma_result_at(parts: Seq<CheckResponse>, k: int, i: int)
    requires
        0 <= k < parts.len(),
        0 <= i < parts[k].queries@.len(),
    ensures
        all_results(parts.take(k)).len() + i < all_results(parts).len(),
        all_results(parts)[all_results(parts.take(k)).len() + i] == parts[k].queries@[i],
    decreases parts.len(),
{
    let rest = parts.drop_last();
    lemma_queries(parts);
    lemma_queries(rest);
    if k < rest.len() {
        lemma_result_at(rest, k, i);
        assert(rest.take(k) =~= parts.take(k));
    } else {
        assert(parts.take(k) =~= rest);
    }
}

/// The counts of a run are the sums of its parts' counts.
pub proof fn law_merged_counts_add_up(r: CheckResponse, parts: Seq<CheckResponse>)
    requires
        is_merge(r, parts),
    ensures
        r.summary.total == total(parts.map_values(|p: CheckResponse| p.summary.total as int)),
        r.summary.blocked == total(parts.map_values(|p: CheckResponse| p.summary.blocked as int)),
        r.summary.allowed == total(parts.map_values(|p: CheckResponse| p.summary.allowed as int)),
        r.summary.flagged == total(parts.map_values(|p: CheckResponse| p.summary.flagged as int)),
        r.summary.monitored == total(
            parts.map_values(|p: CheckResponse| p.summary.monitored as int),
        ),
        r.summary.parse_errors == total(
            parts.map_values(|p: CheckResponse| p.summary.parse_errors as int),
        ),
{
    let a = |p: CheckResponse| p.summary.total as int;
    let b = |p: CheckResponse| p.summary.blocked as int;
    let c = |p: CheckResponse| p.summary.allowed as int;
    let d = |p: CheckResponse| p.summary.flagged as int;
    let e = |p: CheckResponse| p.summary.monitored as int;
    let f = |p: CheckResponse| p.summary.parse_errors as int;
    if parts.len() == 1 {
        lemma_one(parts, a);
        lemma_one(parts, b);
        lemma_one(parts, c);
        lemma_one(parts, d);
        lemma_one(parts, e);
        lemma_one(parts, f);
    } else {
        lemma_sum(parts, a, Count::Total);
        lemma_sum(parts, b, Count::Blocked);
        lemma_sum(parts, c, Count::Allowed);
        lemma_sum(parts, d, Count::Flagged);
        lemma_sum(parts, e, Count::Monitored);
        lemma_sum(parts, f, Count::ParseErrors);
    }
}

proof fn lemma_max(parts: Seq<CheckResponse>)
    ensures
        max_exit_code(parts) >= 0,
        forall|k: int| 0 <= k < parts.len() ==> (#[trigger] parts[k]).exit_code <= max_exit_code(
            parts,
        ),
        max_exit_code(parts) == 0 || exists|k: int|
            0 <= k < parts.len() && (#[trigger] parts[k]).exit_code == max_exit_code(parts),
    decreases parts.len(),
{
    if parts.len() > 0 {
        let rest = parts.drop_last();
        lemma_max(rest);
        assert forall|k: int| 0 <= k < parts.len() implies (#[trigger] parts[k]).exit_code
            <= max_exit_code(parts) by {
            if k < rest.len() {
                assert(rest[k].exit_code <= max_exit_code(rest));
            }
        }
        if max_exit_code(rest) < parts.last().exit_code {
            assert(parts[parts.len() - 1].exit_code == max_exit_code(parts));
        } else if max_exit_code(rest) != 0 {
            let k = choose|k: int|
                0 <= k < rest.len() && (#[trigger] rest[k]).exit_code == max_exit_code(rest);
            assert(parts[k].exit_code == max_exit_code(parts));
        }
    }
}

/// The exit code of a run in several parts is the largest among its parts and zero.
pub proof fn law_merged_exit_code_is_the_largest(r: CheckResponse, parts: Seq<CheckResponse>)
    requires
        is_merge(r, parts),
    ensures
        forall|k: int| 0 <= k < parts.len() ==> (#[trigger] parts[k]).exit_code <= r.exit_code,
        parts.len() != 1 ==> r.exit_code >= 0,
        (r.exit_code == 0 && parts.len() != 1) || exists|k: int|
            0 <= k < parts.len() && (#[trigger] parts[k]).exit_code == r.exit_code,
{
    lemma_max(parts);
    if parts.len() == 1 {
        assert(parts[0].exit_code == r.exit_code);
    }
}

proof fn lemma_min(parts: Seq<CheckResponse>)
    ensures
        min_remaining(parts) is None <==> forall|k: int|
            0 <= k < parts.len() ==> (#[trigger] parts[k]).ci_checks_remaining is None,
        min_remaining(parts) matches Some(m) ==> (forall|k: int|
            0 <= k < parts.len() ==> ((#[trigger] parts[k]).ci_checks_remaining matches Some(n)
                ==> m <= n)) && (exists|k: int|
            0 <= k < parts.len() && (#[trigger] parts[k]).ci_checks_remaining == Some(m)),
    decreases parts.len(),
{
    if parts.len() > 0 {
        let rest = parts.drop_last();
        let n = parts.len() - 1;
        lemma_min(rest);
        assert(parts[n] == parts.last());
        assert(forall|k: int| 0 <= k < rest.len() ==> rest[k] == parts[k]);
        if min_remaining(rest) is Some && min_remaining(parts) == min_remaining(rest) {
            let k = choose|k: int|
                0 <= k < rest.len() && (#[trigger] rest[k]).ci_checks_remaining == min_remaining(
                    rest,
                );
            assert(parts[k].ci_checks_remaining == min_remaining(parts));
        }
        if min_remaining(parts) is None {
            assert forall|k: int| 0 <= k < parts.len() implies (
            #[trigger] parts[k]).ci_checks_remaining is None by {
                if k < n {
                    assert(rest[k].ci_checks_remaining is None);
                }
            }
        } else {
            let m = min_remaining(parts)->Some_0;
            assert forall|k: int| 0 <= k < parts.len() implies ((
            #[trigger] parts[k]).ci_checks_remaining matches Some(x) ==> m <= x) by {
                if k < n {
                    assert(rest[k].ci_checks_remaining == parts[k].ci_checks_remaining);
                }
            }
        }
    }
}

/// The allowance that a run reports is the smallest that one of its parts reported.
pub proof fn law_merged_allowance_is_the_smallest(r: CheckResponse, parts: Seq<CheckResponse>)
    requires
        is_merge(r, parts),
    ensures
        r.ci_checks_remaining is None <==> forall|k: int|
            0 <= k < parts.len() ==> (#[trigger] parts[k]).ci_checks_remaining is None,
        r.ci_checks_remaining matches Some(m) ==> (forall|k: int|
            0 <= k < parts.len() ==> ((#[trigger] parts[k]).ci_checks_remaining matches Some(n)
                ==> m <= n)) && (exists|k: int|
            0 <= k < parts.len() && (#[trigger] parts[k]).ci_checks_remaining == Some(m)),
{
    lemma_min(parts);
    if parts.len() == 1 {
        assert(parts[0].ci_checks_remaining == r.ci_checks_remaining);
        if r.ci_checks_remaining is None {
            assert forall|k: int| 0 <= k < parts.len() implies (
            #[trigger] parts[k]).ci_checks_remaining is None by {}
        }
    }
}

/// Whether `v` is the first of the texts that is present.
pub open spec fn is_first(v: Option<Seq<char>>, texts: Seq<Option<Seq<char>>>) -> bool {
    match v {
        None => forall|k: int| 0 <= k < texts.len() ==> (#[trigger] texts[k]) is None,
        Some(_) => exists|k: int|
            0 <= k < texts.len() && #[trigger] texts[k] == v && forall|j: int|
                0 <= j < k ==> (#[trigger] texts[j]) is None,
    }
}

proof fn lemma_first(
    parts: Seq<CheckResponse>,
    f: Fact,
    texts: Seq<Option<Seq<char>>>,
)
    requires
        texts.len() == parts.len(),
        forall|k: int| 0 <= k < parts.len() ==> #[trigger] texts[k] == fact_in(parts[k], f),
    ensures
        is_first(first_fact(parts, f), texts),
    decreases parts.len(),
{
    if parts.len() > 0 {
        let rest = parts.drop_last();
        let n = parts.len() - 1;
        lemma_first(rest, f, texts.drop_last());
        assert(forall|k: int| 0 <= k < n ==> texts.drop_last()[k] == texts[k]);
        assert(texts[n] == fact_in(parts[n], f));
        match first_fact(rest, f) {
            Some(v) => {
                let k = choose|k: int|
                    0 <= k < n && #[trigger] texts.drop_last()[k] == first_fact(rest, f)
                        && forall|j: int|
                        0 <= j < k ==> (#[trigger] texts.drop_last()[j]) is None;
                assert(texts[k] == first_fact(parts, f));
                assert forall|j: int| 0 <= j < k implies (#[trigger] texts[j]) is None by {
                    assert(texts.drop_last()[j] is None);
                }
            },
            None => {
                assert forall|j: int| 0 <= j < n implies (#[trigger] texts[j]) is None by {
                    assert(texts.drop_last()[j] is None);
                }
                if first_fact(parts, f) is Some {
                    assert(texts[n] == first_fact(parts, f));
                }
            },
        }
    }
}

/// What holds of the whole workspace is taken from the first part that says it, and the
/// version of the rules from the first part.
pub proof fn law_merged_facts_come_from_the_first(r: CheckResponse, parts: Seq<CheckResponse>)
    requires
        is_merge(r, parts),
    ensures
        is_first(
            opt_view(r.telemetry_query_mode),
            parts.map_values(|p: CheckResponse| opt_view(p.telemetry_query_mode)),
        ),
        is_first(
            opt_view(r.min_cli_version),
            parts.map_values(|p: CheckResponse| opt_view(p.min_cli_version)),
        ),
        is_first(
            opt_view(r.api_version_header),
            parts.map_values(|p: CheckResponse| opt_view(p.api_version_header)),
        ),
        parts.len() > 0 ==> r.summary.ruleset_version@ == parts[0].summary.ruleset_version@,
{
    let modes = parts.map_values(|p: CheckResponse| opt_view(p.telemetry_query_mode));
    let minima = parts.map_values(|p: CheckResponse| opt_view(p.min_cli_version));
    let versions = parts.map_values(|p: CheckResponse| opt_view(p.api_version_header));
    if parts.len() == 1 {
        assert(modes[0] == opt_view(r.telemetry_query_mode));
        assert(minima[0] == opt_view(r.min_cli_version));
        assert(versions[0] == opt_view(r.api_version_header));
        assert(forall|k: int| 0 <= k < 1 ==> #[trigger] modes[k] == modes[0]);
        assert(forall|k: int| 0 <= k < 1 ==> #[trigger] minima[k] == minima[0]);
        assert(forall|k: int| 0 <= k < 1 ==> #[trigger] versions[k] == versions[0]);
    } else {
        lemma_first(parts, Fact::QueryMode, modes);
        lemma_first(parts, Fact::MinCliVersion, minima);
        lemma_first(parts, Fact::ApiVersion, versions);
    }
}

/// Every receipt that a part returned is among those of the run, in order.
pub proof fn law_merged_receipts_are_all_receipts(r: CheckResponse, parts: Seq<CheckResponse>)
    requires
        is_merge(r, parts),
        parts.len() != 1,
    ensures
        r.receipts() == parts.filter(|p: CheckResponse| p.receipt is Some).map_values(
            |p: CheckResponse| p.receipt->Some_0,
        ),
{
    lemma_receipts(parts);
}

/// Chunks finish in any order. Where each of them is done, the results of the run are those
/// of the first chunk, then those of the second, and so on; none is left out.
pub proof fn law_runs_give_every_result_in_order(
    r: CheckResponse,
    outcomes: Seq<ChunkOutcome>,
    chunks: Seq<CheckResponse>,
)
    requires
        is_outcome(Some(Ok(r)), outcomes, chunks.len()),
        all_done(outcomes),
        outcomes.len() == chunks.len(),
        forall|j: int|
            0 <= j < outcomes.len() ==> (#[trigger] outcomes[j])->Done_index < chunks.len()
                && outcomes[j]->Done_response == chunks[outcomes[j]->Done_index as int],
    ensures
        r.queries@ == chunks.map_values(|p: CheckResponse| p.queries@).flatten(),
{
    let n = chunks.len();
    if n == 1 {
        assert(outcomes[0]->Done_response == chunks[0]);
        assert(chunks.map_values(|p: CheckResponse| p.queries@) =~= seq![r.queries@]);
        seq![r.queries@].lemma_flatten_one_element();
    } else {
        let parts = responses(in_order(outcomes));
        crate::api::law_runs_fail_closed(outcomes);
        crate::api::law_partial_runs_give_no_response(Some(Ok(r)), outcomes, n);
        assert forall|k: int| 0 <= k < n implies #[trigger] parts[k] == chunks[k] by {
            law_chunk_order_is_restored(outcomes, k);
            let done = ChunkOutcome::Done { index: k as usize, response: parts[k] };
            let j = choose|j: int| 0 <= j < outcomes.len() && outcomes[j] == done;
            assert(outcomes[j]->Done_response == chunks[outcomes[j]->Done_index as int]);
            assert(outcomes[j]->Done_index < n);
        }
        if n > 0 {
            law_chunk_order_is_restored(outcomes, 0);
        }
        assert(parts =~= chunks);
        law_merged_results_are_all_results(r, parts);
    }
}

proof fn lemma_fault(outcomes: Seq<ChunkOutcome>)
    ensures
        fault(outcomes) matches Some((i, e)) ==> {
            &&& forall|k: int|
                0 <= k < outcomes.len() ==> ((#[trigger] outcomes[k]) matches ChunkOutcome::Failed {
                    index,
                    ..
                } ==> i <= index)
            &&& exists|k: int|
                0 <= k < outcomes.len() && ((#[trigger] outcomes[k]) matches ChunkOutcome::Failed {
                    index,
                    error,
                } && index == i && error@ == e) || (outcomes[k] matches ChunkOutcome::Lost(m) && i
                    == usize::MAX && e == ApiErrorView::Transport(m@) && 0 <= k < outcomes.len())
        },
    decreases outcomes.len(),
{
    if outcomes.len() > 0 {
        let rest = outcomes.drop_last();
        let n = outcomes.len() - 1;
        lemma_fault(rest);
        crate::api::law_runs_fail_closed(rest);
        assert(forall|k: int| 0 <= k < n ==> rest[k] == outcomes[k]);
        if let Some((i, e)) = fault(outcomes) {
            if fault(rest) is Some && fault(outcomes) == fault(rest) {
                let k = choose|k: int|
                    0 <= k < rest.len() && ((#[trigger] rest[k]) matches ChunkOutcome::Failed {
                        index,
                        error,
                    } && index == i && error@ == e) || (rest[k] matches ChunkOutcome::Lost(m) && i
                        == usize::MAX && e == ApiErrorView::Transport(m@) && 0 <= k < rest.len());
                assert(outcomes[k] == rest[k]);
            } else {
                assert(outcomes[n] == outcomes.last());
            }
            assert forall|k: int| 0 <= k < outcomes.len() implies ((#[trigger] outcomes[k])
                matches ChunkOutcome::Failed { index, .. } ==> i <= index) by {
                if k < n {
                    assert(rest[k] == outcomes[k]);
                    assert(fault(rest) is None ==> rest[k] is Done);
                }
            }
        }
    }
}

/// The failure that ends a run is that of a chunk that failed, and no chunk before it failed;
/// a chunk that was lost counts as the last of all.
pub proof fn law_runs_name_their_first_failure(outcomes: Seq<ChunkOutcome>)
    ensures
        fault(outcomes) matches Some((i, e)) ==> {
            &&& forall|k: int|
                0 <= k < outcomes.len() ==> ((#[trigger] outcomes[k]) matches ChunkOutcome::Failed {
                    index,
                    ..
                } ==> i <= index)
            &&& exists|k: int|
                0 <= k < outcomes.len() && ((#[trigger] outcomes[k]) matches ChunkOutcome::Failed {
                    index,
                    error,
                } && index == i && error@ == e) || (outcomes[k] matches ChunkOutcome::Lost(m) && i
                    == usize::MAX && e == ApiErrorView::Transport(m@) && 0 <= k < outcomes.len())
        },
        fault(outcomes) is None <==> forall|k: int|
            0 <= k < outcomes.len() ==> (#[trigger] outcomes[k]) is Done,
{
    lemma_fault(outcomes);
    crate::api::law_runs_fail_closed(outcomes);
}

/// A request carries its share of the queries and all that the run says of them: the
/// dialect, the file, the provenance and the wish for a receipt.
pub proof fn law_requests_carry_the_run(
    req: CheckRequest,
    p: CheckParams,
    chunk: Seq<QueryInput>,
)
    requires
        is_request(req, p, chunk),
    ensures
        req.queries@ == chunk,
        req.dialect@ == p.dialect@,
        req.receipt == p.receipt,
        req.output_format@ == "json"@,
        req.file_name is Some == p.file_name is Some,
        p.file_name matches Some(f) ==> req.file_name->Some_0@ == f@,
        req.provenance is Some == p.provenance is Some,
        p.provenance matches Some(v) ==> {
            let w = req.provenance->Some_0;
            &&& opt_view(w.git_sha) == opt_view(v.git_sha)
            &&& opt_view(w.git_ref) == opt_view(v.git_ref)
            &&& w.ci_provider@ == v.ci_provider@
            &&& opt_view(w.ci_run_url) == opt_view(v.ci_run_url)
            &&& opt_view(w.actor) == opt_view(v.actor)
        },
{
}

/// The requests of a run hold its queries, each of them once and in order, at most five
/// hundred in one request, and as few requests as that allows.
pub proof fn law_requests_hold_the_queries(queries: Seq<QueryInput>, k: int)
    requires
        0 <= k < chunked(queries, MAX_QUERIES_PER_CALL as nat).len(),
    ensures
        chunked(queries, MAX_QUERIES_PER_CALL as nat).flatten() == queries,
        chunked(queries, MAX_QUERIES_PER_CALL as nat)[k].len() <= 500,
        k < chunked(queries, MAX_QUERIES_PER_CALL as nat).len() - 1 ==> chunked(
            queries,
            MAX_QUERIES_PER_CALL as nat,
        )[k].len() == 500,
        queries.len() == 0 ==> chunked(queries, MAX_QUERIES_PER_CALL as nat).len() == 1,
{
    law_chunks_are_the_list(queries, MAX_QUERIES_PER_CALL as nat);
    if k < chunked(queries, 500).len() - 1 {
        lemma_full_chunks(queries, k);
    }
}

proof fn lemma_full_chunks(queries: Seq<QueryInput>, k: int)
    requires
        0 <= k < chunked(queries, 500).len() - 1,
    ensures
        chunked(queries, 500)[k].len() == 500,
    decreases queries.len(),
{
    if queries.len() > 500 && k > 0 {
        lemma_full_chunks(queries.skip(500), k - 1);
    }
}

} // verus!
