//! What a whole walk over a route's legs does, for every sequence of leg
//! outcomes: legs run in order, the first answer wins, retryable failures
//! advance, the first non-retryable one aborts, and an exhausted chain
//! reports every failure.
use vstd::prelude::*;

use crate::error::{GatewayErrorView, LegFailureView};
use crate::routing::executor::{
    awaiting, circuit_open_message, exhausted_verdict, failure_retryable, initial_walk, settle,
    spec_advance, unbuilt_provider_message, CompletionView, UpstreamFailure, LegOutcomeView, StepView, WalkView,
};
use crate::routing::table::LegView;

verus! {

/// Feeds outcomes to a walk one at a time while it awaits a leg; outcomes
/// left over once it has finished are not looked at.
pub open spec fn run_from(s: WalkView, step: StepView, outcomes: Seq<LegOutcomeView>) -> (
    WalkView,
    StepView,
)
    decreases outcomes.len(),
{
    if outcomes.len() == 0 || !awaiting(s) {
        (s, step)
    } else {
        let next = spec_advance(s, outcomes[0]);
        run_from(next.0, next.1, outcomes.drop_first())
    }
}

/// Walks `legs` for `route`, the legs going as `outcomes` says.
pub open spec fn run_chain(route: Seq<char>, legs: Seq<LegView>, outcomes: Seq<LegOutcomeView>) -> (
    WalkView,
    StepView,
) {
    let start = settle(initial_walk(route, legs));
    run_from(start.0, start.1, outcomes)
}

/// A failure the walk moves past: an open circuit, or a retryable error.
pub open spec fn passes_on(o: LegOutcomeView) -> bool {
    match o {
        LegOutcomeView::CircuitOpen { .. } => true,
        LegOutcomeView::Exhausted { failure, .. } => failure_retryable(failure),
        _ => false,
    }
}

/// A leg exhausted by a 5xx status, a timeout or a failed connection is moved
/// past; one exhausted by any other status, or by any other failure, is not.
pub proof fn law_what_moves_on(s: u16, timeout: bool, connect: bool, m: Seq<char>, name: Seq<char>)
    ensures
        passes_on(
            LegOutcomeView::Exhausted { failure: UpstreamFailure::Status(s), message: m },
        ) <==> 500 <= s <= 599,
        passes_on(
            LegOutcomeView::Exhausted {
                failure: UpstreamFailure::Transport { timeout, connect },
                message: m,
            },
        ) <==> (timeout || connect),
        !passes_on(LegOutcomeView::Exhausted { failure: UpstreamFailure::Other, message: m }),
        passes_on(LegOutcomeView::CircuitOpen { name }),
{
}

/// The failure that an outcome records against leg `leg`.
pub open spec fn failure_record(leg: LegView, o: LegOutcomeView) -> LegFailureView {
    LegFailureView {
        provider: leg.provider,
        model: leg.model,
        message: match o {
            LegOutcomeView::CircuitOpen { name } => circuit_open_message(name),
            LegOutcomeView::Exhausted { message, .. } => message,
            _ => Seq::empty(),
        },
    }
}

/// The failures recorded for outcomes `os` on the legs from position `from`.
pub open spec fn failure_records(legs: Seq<LegView>, from: int, os: Seq<LegOutcomeView>) -> Seq<
    LegFailureView,
> {
    Seq::new(os.len(), |i: int| failure_record(legs[from + i], os[i]))
}

/// The walk after the awaited legs failed as `os` says and it moved on.
pub open spec fn after_failures(s: WalkView, os: Seq<LegOutcomeView>) -> WalkView {
    WalkView {
        next: s.next + os.len(),
        failures: s.failures + failure_records(s.legs, s.next as int, os),
        all_circuit_open: s.all_circuit_open && (forall|i: int|
            0 <= i < os.len() ==> (#[trigger] os[i]) is CircuitOpen),
        ..s
    }
}

/// Running `os.len()` legs that all fail in a way the walk moves past.
proof fn lemma_pass_on(s: WalkView, os: Seq<LegOutcomeView>, rest: Seq<LegOutcomeView>)
    requires
        !s.done,
        0 < os.len(),
        s.next + os.len() <= s.legs.len(),
        forall|i: int| 0 <= i < os.len() ==> passes_on(#[trigger] os[i]),
    ensures
        ({
            let t = after_failures(s, os);
            run_from(s, StepView::RunLeg(s.next), os + rest) == if t.next < t.legs.len() {
                run_from(t, StepView::RunLeg(t.next), rest)
            } else {
                (WalkView { done: true, ..t }, StepView::Finished(exhausted_verdict(t)))
            }
        }),
    decreases os.len(),
{
    let all = os + rest;
    assert(all[0] == os[0]);
    assert(passes_on(os[0]));
    let one = os.take(1);
    let s1 = after_failures(s, one);
    assert(failure_records(s.legs, s.next as int, one) =~= seq![failure_record(s.legs[s.next as int], os[0])]);
    assert(one[0] == os[0]);
    assert((forall|i: int| 0 <= i < one.len() ==> (#[trigger] one[i]) is CircuitOpen) == (os[0] is CircuitOpen));
    let adv = spec_advance(s, os[0]);
    assert(s1.failures =~= s.failures.push(failure_record(s.legs[s.next as int], os[0])));
    match os[0] {
        LegOutcomeView::CircuitOpen { name } => {
            assert(adv == settle(s1));
        },
        LegOutcomeView::Exhausted { failure, message } => {
            assert(!s1.all_circuit_open);
            assert(adv == settle(s1));
        },
        _ => {},
    }
    assert(adv == settle(s1));
    if os.len() == 1 {
        assert(os =~= one);
        if s1.next >= s1.legs.len() {
            assert(!awaiting(adv.0));
            assert(run_from(adv.0, adv.1, all.drop_first()) == adv);
        } else {
            assert(all.drop_first() =~= rest);
        }
    } else {
        let tail = os.drop_first();
        assert(all.drop_first() =~= tail + rest);
        assert forall|i: int| 0 <= i < tail.len() implies passes_on(#[trigger] tail[i]) by {
            assert(tail[i] == os[i + 1]);
        }
        lemma_pass_on(s1, tail, rest);
        let t1 = after_failures(s1, tail);
        let t = after_failures(s, os);
        assert(t1.failures =~= t.failures) by {
            assert forall|i: int| 0 <= i < t.failures.len() implies t1.failures[i] == t.failures[i] by {
                if i >= s.failures.len() + 1 {
                    assert(tail[i - s.failures.len() - 1] == os[i - s.failures.len()]);
                }
            }
        }
        assert(t1.all_circuit_open == t.all_circuit_open) by {
            if t.all_circuit_open {
                assert forall|i: int| 0 <= i < tail.len() implies (#[trigger] tail[i]) is CircuitOpen by {
                    assert(tail[i] == os[i + 1]);
                }
            }
            if t1.all_circuit_open {
                assert forall|i: int| 0 <= i < os.len() implies (#[trigger] os[i]) is CircuitOpen by {
                    if i > 0 {
                        assert(tail[i - 1] == os[i]);
                    }
                }
            }
        }
        assert(t1 == t);
    }
}

/// A route with legs first asks for its first leg.
proof fn lemma_start(route: Seq<char>, legs: Seq<LegView>)
    requires
        legs.len() > 0,
    ensures
        settle(initial_walk(route, legs)) == (initial_walk(route, legs), StepView::RunLeg(0)),
{
}

/// Legs run in order: after `k` legs failed in a way the walk moves past,
/// it asks for leg `k`, with one failure recorded per leg so far.
pub proof fn law_legs_run_in_order(
    route: Seq<char>,
    legs: Seq<LegView>,
    outcomes: Seq<LegOutcomeView>,
)
    requires
        outcomes.len() < legs.len(),
        forall|i: int| 0 <= i < outcomes.len() ==> passes_on(#[trigger] outcomes[i]),
    ensures
        run_chain(route, legs, outcomes).1 == StepView::RunLeg(outcomes.len()),
        run_chain(route, legs, outcomes).0.failures == failure_records(legs, 0, outcomes),
{
    lemma_start(route, legs);
    if outcomes.len() > 0 {
        let empty = Seq::<LegOutcomeView>::empty();
        assert(outcomes + empty =~= outcomes);
        lemma_pass_on(initial_walk(route, legs), outcomes, empty);
        assert(Seq::<LegFailureView>::empty() + failure_records(legs, 0, outcomes) =~= failure_records(
            legs,
            0,
            outcomes,
        ));
    } else {
        assert(failure_records(legs, 0, outcomes) =~= Seq::<LegFailureView>::empty());
    }
}

/// The first answer wins: when legs before `k` failed in a way the walk moves
/// past and leg `k` answered, the chain returns that answer, whatever comes after.
pub proof fn law_first_success_wins(
    route: Seq<char>,
    legs: Seq<LegView>,
    outcomes: Seq<LegOutcomeView>,
    k: int,
    c: CompletionView,
)
    requires
        0 <= k < legs.len(),
        k < outcomes.len(),
        forall|i: int| 0 <= i < k ==> passes_on(#[trigger] outcomes[i]),
        outcomes[k] == LegOutcomeView::Succeeded(c),
    ensures
        run_chain(route, legs, outcomes).1 == StepView::Finished(Ok(c)),
{
    lemma_stops_at(route, legs, outcomes, k);
}

/// After `k` legs that failed in a way the walk moves past, the outcome of
/// leg `k` ends or continues the walk exactly as one step would.
proof fn lemma_stops_at(route: Seq<char>, legs: Seq<LegView>, outcomes: Seq<LegOutcomeView>, k: int)
    requires
        0 <= k < legs.len(),
        k < outcomes.len(),
        forall|i: int| 0 <= i < k ==> passes_on(#[trigger] outcomes[i]),
        !passes_on(outcomes[k]),
    ensures
        ({
            let s = after_failures(initial_walk(route, legs), outcomes.take(k));
            run_chain(route, legs, outcomes) == spec_advance(s, outcomes[k])
        }),
{
    lemma_start(route, legs);
    let s0 = initial_walk(route, legs);
    let pre = outcomes.take(k);
    let rest = outcomes.skip(k);
    assert(outcomes =~= pre + rest);
    let s = after_failures(s0, pre);
    if k > 0 {
        assert forall|i: int| 0 <= i < pre.len() implies passes_on(#[trigger] pre[i]) by {
            assert(pre[i] == outcomes[i]);
        }
        lemma_pass_on(s0, pre, rest);
    } else {
        assert(pre.len() == 0);
        assert(s.failures =~= s0.failures);
        assert(s == s0);
        assert(rest =~= outcomes);
    }
    assert(rest[0] == outcomes[k]);
    let adv = spec_advance(s, rest[0]);
    assert(!awaiting(adv.0));
    assert(run_from(adv.0, adv.1, rest.drop_first()) == adv);
}

/// A non-retryable failure aborts: the chain ends with every failure so far
/// (including this one) listed, though legs remain.
pub proof fn law_non_retryable_aborts(
    route: Seq<char>,
    legs: Seq<LegView>,
    outcomes: Seq<LegOutcomeView>,
    k: int,
)
    requires
        0 <= k < legs.len(),
        k < outcomes.len(),
        forall|i: int| 0 <= i < k ==> passes_on(#[trigger] outcomes[i]),
        outcomes[k] is Exhausted,
        !failure_retryable(outcomes[k]->failure),
    ensures
        run_chain(route, legs, outcomes).1 == StepView::Finished(
            Err(
                GatewayErrorView::AllLegsFailed {
                    route,
                    failures: failure_records(legs, 0, outcomes.take(k + 1)),
                },
            ),
        ),
{
    lemma_stops_at(route, legs, outcomes, k);
    assert(Seq::<LegFailureView>::empty() + failure_records(legs, 0, outcomes.take(k)).push(
        failure_record(legs[k], outcomes[k]),
    ) =~= failure_records(legs, 0, outcomes.take(k + 1)));
}

/// An unbuilt provider ends the chain at once with a bad-request error.
pub proof fn law_unbuilt_provider_rejects(
    route: Seq<char>,
    legs: Seq<LegView>,
    outcomes: Seq<LegOutcomeView>,
    k: int,
)
    requires
        0 <= k < legs.len(),
        k < outcomes.len(),
        forall|i: int| 0 <= i < k ==> passes_on(#[trigger] outcomes[i]),
        outcomes[k] is ProviderMissing,
    ensures
        run_chain(route, legs, outcomes).1 == StepView::Finished(
            Err(GatewayErrorView::BadRequest(unbuilt_provider_message(route, legs[k].provider))),
        ),
{
    lemma_stops_at(route, legs, outcomes, k);
}

/// When every leg fails in a way the walk moves past, the chain reports all
/// providers unavailable if every failure was an open circuit, and otherwise
/// that all legs failed, listing one failure per leg in leg order.
pub proof fn law_exhausted_chain(route: Seq<char>, legs: Seq<LegView>, outcomes: Seq<LegOutcomeView>)
    requires
        legs.len() > 0,
        outcomes.len() >= legs.len(),
        forall|i: int| 0 <= i < legs.len() ==> passes_on(#[trigger] outcomes[i]),
    ensures
        (forall|i: int| 0 <= i < legs.len() ==> (#[trigger] outcomes[i]) is CircuitOpen)
            ==> run_chain(route, legs, outcomes).1 == StepView::Finished(
            Err(GatewayErrorView::AllCircuitsOpen(route)),
        ),
        !(forall|i: int| 0 <= i < legs.len() ==> (#[trigger] outcomes[i]) is CircuitOpen)
            ==> run_chain(route, legs, outcomes).1 == StepView::Finished(
            Err(
                GatewayErrorView::AllLegsFailed {
                    route,
                    failures: failure_records(legs, 0, outcomes.take(legs.len() as int)),
                },
            ),
        ),
{
    lemma_start(route, legs);
    let s0 = initial_walk(route, legs);
    let pre = outcomes.take(legs.len() as int);
    let rest = outcomes.skip(legs.len() as int);
    assert(outcomes =~= pre + rest);
    assert forall|i: int| 0 <= i < pre.len() implies passes_on(#[trigger] pre[i]) by {
        assert(pre[i] == outcomes[i]);
    }
    lemma_pass_on(s0, pre, rest);
    let t = after_failures(s0, pre);
    assert(t.failures =~= failure_records(legs, 0, pre));
    assert(t.failures.len() > 0);
    assert((forall|i: int| 0 <= i < pre.len() ==> (#[trigger] pre[i]) is CircuitOpen) == (forall|
        i: int,
    |
        0 <= i < legs.len() ==> (#[trigger] outcomes[i]) is CircuitOpen)) by {
        assert forall|i: int| 0 <= i < pre.len() implies pre[i] == outcomes[i] by {}
    }
}

/// A route without legs ends at once: all legs failed, none listed.
pub proof fn law_empty_route(route: Seq<char>, outcomes: Seq<LegOutcomeView>)
    ensures
        run_chain(route, Seq::empty(), outcomes).1 == StepView::Finished(
            Err(GatewayErrorView::AllLegsFailed { route, failures: Seq::empty() }),
        ),
{
}

} // verus!
