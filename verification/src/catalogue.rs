//! Listing rules and keys.
use vstd::prelude::*;
use crate::api::{error_text, ApiError, ApiErrorView, ApiKeyInfo, RuleSummary};
use crate::auth::{exit_code_of, failure_code};
use crate::exit::{error_stop, stop_with, Stop, USAGE};
use crate::output::{keys_report, render_keys};

verus! {

/// The rules to list: all of them, or those that are active, in order.
pub open spec fn listed_rules(rules: Seq<RuleSummary>, active_only: bool) -> Seq<RuleSummary>
    decreases rules.len(),
{
    if rules.len() == 0 {
        seq![]
    } else if !active_only || rules.last().is_active {
        listed_rules(rules.drop_last(), active_only).push(rules.last())
    } else {
        listed_rules(rules.drop_last(), active_only)
    }
}

pub open spec fn rules_at(rules: Seq<&RuleSummary>) -> Seq<RuleSummary> {
    rules.map_values(|r: &RuleSummary| *r)
}

/// Chooses the rules to list.
pub fn select_rules<'a>(rules: &'a [RuleSummary], active_only: bool) -> (r: Vec<&'a RuleSummary>)
    ensures
        rules_at(r@) == listed_rules(rules@, active_only),
{
    let mut out: Vec<&'a RuleSummary> = Vec::new();
    let mut i: usize = 0;
    assert(rules_at(out@) =~= seq![]);
    assert(rules@.take(0) =~= seq![]);
    while i < rules.len()
        invariant
            i <= rules@.len(),
            rules_at(out@) == listed_rules(rules@.take(i as int), active_only),
        decreases rules@.len() - i,
    {
        assert(rules@.take(i + 1).drop_last() =~= rules@.take(i as int));
        let ghost so_far = out@;
        if !active_only || rules[i].is_active {
            out.push(&rules[i]);
            assert(rules_at(out@) =~= rules_at(so_far).push(rules@[i as int]));
        }
        i = i + 1;
    }
    assert(rules@.take(i as int) =~= rules@);
    out
}

/// Ends a command whose call failed: a refused key is told from a backend that fails.
pub fn call_failed(e: &ApiError) -> (r: Stop)
    ensures
        r@ == error_stop(failure_code(e@), error_text(e@)),
{
    stop_with(exit_code_of(e), e.message().as_str())
}

/// The exit code for a rule that could not be shown: one that does not exist is an error
/// of usage.
pub open spec fn rule_failure_code(e: ApiErrorView) -> u8 {
    match e {
        ApiErrorView::Backend { status, .. } => if status == 404 {
            USAGE
        } else {
            failure_code(e)
        },
        _ => failure_code(e),
    }
}

/// Ends a command that could not show a rule.
pub fn rule_failed(e: &ApiError) -> (r: Stop)
    ensures
        r@ == error_stop(rule_failure_code(e@), error_text(e@)),
{
    let code = match e {
        ApiError::Backend { status, .. } => if *status == 404 {
            USAGE
        } else {
            exit_code_of(e)
        },
        _ => exit_code_of(e),
    };
    stop_with(code, e.message().as_str())
}

/// What is shown for a list of keys.
pub open spec fn keys_shown(keys: Seq<ApiKeyInfo>) -> Seq<char> {
    if keys.len() == 0 {
        "No API keys found for this workspace.\n"@
    } else {
        keys_report(keys)
    }
}

/// The list of keys as it is shown.
pub fn keys_text(keys: &[ApiKeyInfo]) -> (r: String)
    ensures
        r@ == keys_shown(keys@),
{
    if keys.len() == 0 {
        return "No API keys found for this workspace.\n".to_owned();
    }
    render_keys(keys)
}

/// The rules that are listed are those of the workspace, without the inactive ones where
/// only active ones are asked for.
pub proof fn law_listed_rules(rules: Seq<RuleSummary>, active_only: bool, rule: RuleSummary)
    ensures
        listed_rules(rules, active_only).contains(rule) <==> rules.contains(rule) && (!active_only
            || rule.is_active),
    decreases rules.len(),
{
    if rules.len() > 0 {
        let rest = rules.drop_last();
        law_listed_rules(rest, active_only, rule);
        assert(rules.contains(rule) <==> rest.contains(rule) || rule == rules.last()) by {
            if rest.contains(rule) {
                let i = choose|i: int| 0 <= i < rest.len() && rest[i] == rule;
                assert(rules[i] == rule);
            }
            if rule == rules.last() {
                assert(rules[rules.len() - 1] == rule);
            }
            if rules.contains(rule) && rule != rules.last() {
                let i = choose|i: int| 0 <= i < rules.len() && rules[i] == rule;
                assert(rest[i] == rule);
            }
        }
        let kept = listed_rules(rest, active_only);
        let more = kept.push(rules.last());
        assert(more.contains(rule) <==> kept.contains(rule) || rule == rules.last()) by {
            if kept.contains(rule) {
                let i = choose|i: int| 0 <= i < kept.len() && kept[i] == rule;
                assert(more[i] == rule);
            }
            if rule == rules.last() {
                assert(more[kept.len() as int] == rule);
            }
            if more.contains(rule) && rule != rules.last() {
                let i = choose|i: int| 0 <= i < more.len() && more[i] == rule;
                assert(kept[i] == rule);
            }
        }
    }
}

} // verus!
