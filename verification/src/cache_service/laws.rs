//! What follows from the orchestrator's steps, for every state and event.

use super::{step_of, Action, Event, ServiceState, Stage};
use crate::in_memory_cache::model::Entry;
use crate::kv_cache::KvError;
use crate::CacheServiceError;
use vstd::prelude::*;

verus! {

/// How far a resolve has come: the number of steps since the request.
pub open spec fn rank(stage: Stage<Seq<char>>) -> nat {
    match stage {
        Stage::Idle => 0,
        Stage::AwaitStoreValue { .. } => 1,
        Stage::AwaitComputed { .. } => 2,
        Stage::AwaitStoreWritten { .. } => 3,
    }
}

/// One step of a run: the event, and the clock reading of the step.
pub struct Step {
    pub event: Event<Seq<char>>,
    pub now: nat,
}

/// The state that `steps`, taken in order from `state`, lead to.
pub open spec fn state_after(state: ServiceState, steps: Seq<Step>) -> ServiceState
    decreases steps.len(),
{
    if steps.len() == 0 {
        state
    } else {
        step_of(state_after(state, steps.drop_last()), steps.last().event, steps.last().now).0
    }
}

/// The actions that the orchestrator asks for on the way, in order. An event
/// that is turned down adds none.
pub open spec fn actions(state: ServiceState, steps: Seq<Step>) -> Seq<Action<Seq<char>>>
    decreases steps.len(),
{
    if steps.len() == 0 {
        Seq::empty()
    } else {
        match step_of(state_after(state, steps.drop_last()), steps.last().event, steps.last().now).1 {
            Some(asked) => actions(state, steps.drop_last()).push(asked),
            None => actions(state, steps.drop_last()),
        }
    }
}

/// Every event of the run answers what was asked before it.
pub open spec fn well_driven(state: ServiceState, steps: Seq<Step>) -> bool
    decreases steps.len(),
{
    steps.len() == 0 || (well_driven(state, steps.drop_last()) && state_after(
        state,
        steps.drop_last(),
    ).expects(steps.last().event))
}

/// The number of times that `asked` asks for the computation.
pub open spec fn computations(asked: Seq<Action<Seq<char>>>) -> nat
    decreases asked.len(),
{
    if asked.len() == 0 {
        0
    } else if asked.last() is Compute {
        computations(asked.drop_last()) + 1
    } else {
        computations(asked.drop_last())
    }
}

/// The steps of exactly one resolve: a run from an idle orchestrator in which
/// the last action, and no action before it, ends the resolve.
pub open spec fn one_resolve(state: ServiceState, steps: Seq<Step>) -> bool {
    &&& state.stage is Idle
    &&& steps.len() > 0
    &&& well_driven(state, steps)
    &&& actions(state, steps).last() is Finish
    &&& forall|i: int| 0 <= i < steps.len() - 1 ==> !(#[trigger] actions(state, steps)[i] is Finish)
}

/// The events that are expected are those for which there is a step.
pub proof fn lemma_next_iff_expected(state: ServiceState, event: Event<Seq<char>>, now: nat)
    ensures
        state.next(event, now) is Some <==> state.expects(event),
{
}

/// Every step either ends the resolve, leaving the orchestrator idle, or
/// takes it one stage further. It asks for the computation at one place
/// only: when the persistent store has answered that it holds no value.
pub proof fn lemma_step_advances(state: ServiceState, event: Event<Seq<char>>, now: nat)
    requires
        state.expects(event),
    ensures
        ({
            let (after, asked) = state.next(event, now).unwrap();
            &&& asked is Finish ==> after.stage is Idle
            &&& !(asked is Finish) ==> rank(after.stage) == rank(state.stage) + 1
            &&& asked is Compute <==> state.stage is AwaitStoreValue && event == Event::<
                Seq<char>,
            >::StoreValue(None)
            &&& after.ttl == state.ttl
        }),
{
}

/// A request for a key with a live entry in the in-process store ends at
/// once with that entry's value: the persistent store is not asked, nothing
/// is computed, and the in-process store is left as it is.
pub proof fn lemma_hit_in_memory(state: ServiceState, key: Seq<char>, now: nat)
    requires
        state.stage is Idle,
        state.cache.entries.contains_key(key),
        state.cache.entries[key].is_live(now),
    ensures
        state.next(Event::Requested { key }, now) == Some(
            (state, Action::<Seq<char>>::Finish(Ok(state.cache.entries[key].value))),
        ),
{
}

/// A request for a key without a live entry in the in-process store, be it
/// absent or stale, goes on to the persistent store.
pub proof fn lemma_miss_in_memory(state: ServiceState, key: Seq<char>, now: nat)
    requires
        state.stage is Idle,
        !(state.cache.entries.contains_key(key) && state.cache.entries[key].is_live(now)),
    ensures
        state.next(Event::Requested { key }, now) == Some(
            (state.at(Stage::AwaitStoreValue { key }), Action::<Seq<char>>::QueryStore { key }),
        ),
{
}

/// A value found in the persistent store is returned as it is, without a
/// computation, and is not written to the in-process store: after the
/// resolve that store is what it was before.
pub proof fn lemma_hit_in_store(
    state: ServiceState,
    key: Seq<char>,
    value: Seq<char>,
    requested_at: nat,
    answered_at: nat,
)
    requires
        state.stage is Idle,
        state.cache.lookup(key, requested_at) is None,
    ensures
        ({
            let (asked, first) = state.next(Event::Requested { key }, requested_at).unwrap();
            let (done, second) = asked.next(Event::StoreValue(Some(value)), answered_at).unwrap();
            &&& first == Action::<Seq<char>>::QueryStore { key }
            &&& second == Action::<Seq<char>>::Finish(Ok(value))
            &&& done == state
        }),
{
}

/// When both tiers miss, the computation is asked for once, its value is
/// written to the persistent store with the service's time to live, and only
/// after that write has succeeded to the in-process store; the resolve then
/// returns the computed value, and the in-process store holds an entry for
/// the key.
pub proof fn lemma_miss_computes_and_stores(
    state: ServiceState,
    key: Seq<char>,
    value: Seq<char>,
    written: Seq<char>,
    requested_at: nat,
    stored_at: nat,
)
    requires
        state.stage is Idle,
        key.len() > 0,
        state.cache.lookup(key, requested_at) is None,
    ensures
        ({
            let (asked, first) = state.next(Event::Requested { key }, requested_at).unwrap();
            let (missed, second) = asked.next(Event::StoreValue(None), requested_at).unwrap();
            let (computed, third) = missed.next(Event::Computed(value), requested_at).unwrap();
            let (done, fourth) = computed.next(
                Event::StoreWritten(Ok(written)),
                stored_at,
            ).unwrap();
            &&& first == Action::<Seq<char>>::QueryStore { key }
            &&& second == Action::<Seq<char>>::Compute
            &&& third == Action::<Seq<char>>::WriteStore { key, value, ttl: state.ttl }
            &&& fourth == Action::<Seq<char>>::Finish(Ok(value))
            &&& computed.cache == state.cache
            &&& done.stage is Idle
            &&& done.cache == state.cache.after(key, value, state.ttl as nat, stored_at)
            &&& done.cache.entries.contains_key(key)
            &&& !state.cache.entries.contains_key(key) ==> done.cache.entries[key] == (Entry {
                value,
                inserted_at: stored_at,
                ttl: state.ttl as nat,
            })
        }),
{
}

/// When the write to the persistent store fails, the resolve fails with that
/// failure and the in-process store is not written: the persistent store
/// never lacks an entry that the in-process store has from this resolve.
pub proof fn lemma_failed_write(
    state: ServiceState,
    key: Seq<char>,
    value: Seq<char>,
    error: KvError,
    now: nat,
)
    requires
        state.stage == (Stage::<Seq<char>>::AwaitStoreWritten { key, value }),
    ensures
        state.next(Event::StoreWritten(Err(error)), now) == Some(
            (
                state.at(Stage::Idle),
                Action::<Seq<char>>::Finish(Err(CacheServiceError::KvCacheError(error))),
            ),
        ),
{
}

/// A run that is well driven asks for one action per step.
proof fn lemma_actions_len(state: ServiceState, steps: Seq<Step>)
    requires
        well_driven(state, steps),
    ensures
        actions(state, steps).len() == steps.len(),
    decreases steps.len(),
{
    if steps.len() > 0 {
        lemma_actions_len(state, steps.drop_last());
    }
}

/// While a resolve has not ended, each step has taken it one stage further,
/// and the computation was asked for on the second step and on no other.
proof fn lemma_unfinished_run(state: ServiceState, steps: Seq<Step>)
    requires
        state.stage is Idle,
        well_driven(state, steps),
        forall|i: int| 0 <= i < steps.len() ==> !(#[trigger] actions(state, steps)[i] is Finish),
    ensures
        actions(state, steps).len() == steps.len(),
        rank(state_after(state, steps).stage) == steps.len(),
        computations(actions(state, steps)) == (if steps.len() >= 2 {
            1nat
        } else {
            0nat
        }),
        steps.len() >= 2 ==> actions(state, steps)[1] is Compute,
    decreases steps.len(),
{
    lemma_actions_len(state, steps);
    if steps.len() > 0 {
        let earlier = steps.drop_last();
        let before = state_after(state, earlier);
        let asked = actions(state, steps);
        lemma_actions_len(state, earlier);
        assert(asked.drop_last() == actions(state, earlier));
        assert forall|i: int| 0 <= i < earlier.len() implies !(#[trigger] actions(
            state,
            earlier,
        )[i] is Finish) by {
            assert(actions(state, earlier)[i] == asked[i]);
        }
        lemma_unfinished_run(state, earlier);
        lemma_step_advances(before, steps.last().event, steps.last().now);
        assert(asked.last() == asked[steps.len() - 1]);
    }
}

/// One resolve asks for the computation at most once, however it is driven:
/// it takes one, two or four steps, and the computation is the second of
/// four, asked for when both tiers have missed and never otherwise.
pub proof fn lemma_computes_at_most_once(state: ServiceState, steps: Seq<Step>)
    requires
        one_resolve(state, steps),
    ensures
        steps.len() == 1 || steps.len() == 2 || steps.len() == 4,
        actions(state, steps).len() == steps.len(),
        computations(actions(state, steps)) <= 1,
        computations(actions(state, steps)) == 1 <==> steps.len() == 4,
        steps.len() == 4 ==> actions(state, steps)[1] is Compute,
        state_after(state, steps).stage is Idle,
{
    let earlier = steps.drop_last();
    let asked = actions(state, steps);
    lemma_actions_len(state, steps);
    lemma_actions_len(state, earlier);
    assert(asked.drop_last() == actions(state, earlier));
    assert forall|i: int| 0 <= i < earlier.len() implies !(#[trigger] actions(
        state,
        earlier,
    )[i] is Finish) by {
        assert(actions(state, earlier)[i] == asked[i]);
    }
    lemma_unfinished_run(state, earlier);
    let before = state_after(state, earlier);
    lemma_step_advances(before, steps.last().event, steps.last().now);
    if steps.len() == 4 {
        assert(asked[1] == actions(state, earlier)[1]);
    }
}

} // verus!
