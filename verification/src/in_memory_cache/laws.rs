//! What follows from the rule of a resolve, for every store and every call.

use super::model::{CacheState, Entry, SWEEP_INTERVAL};
use super::CacheError;
use vstd::prelude::*;

verus! {

/// One resolve call: its key, value and time to live, and the clock reading
/// it ran at.
pub struct Call {
    pub key: Seq<char>,
    pub value: Seq<char>,
    pub ttl: nat,
    pub now: nat,
}

/// The state of a store, created empty, after the calls of `calls` in order.
pub open spec fn run(calls: Seq<Call>) -> CacheState
    decreases calls.len(),
{
    if calls.len() == 0 {
        CacheState::empty()
    } else {
        let call = calls.last();
        run(calls.drop_last()).after(call.key, call.value, call.ttl, call.now)
    }
}

/// The number of calls in `calls` that the store accepts: those with a
/// non-empty key.
pub open spec fn accepted(calls: Seq<Call>) -> nat
    decreases calls.len(),
{
    if calls.len() == 0 {
        0
    } else if calls.last().key.len() == 0 {
        accepted(calls.drop_last())
    } else {
        accepted(calls.drop_last()) + 1
    }
}

/// A resolve leaves a well-formed store well-formed.
pub proof fn lemma_after_well_formed(
    state: CacheState,
    key: Seq<char>,
    value: Seq<char>,
    ttl: nat,
    now: nat,
)
    requires
        state.well_formed(),
    ensures
        state.after(key, value, ttl, now).well_formed(),
{
    let kept = state.kept(key, now);
    assert(kept.dom().subset_of(state.entries.dom()));
    vstd::set_lib::lemma_len_subset(kept.dom(), state.entries.dom());
}

/// A resolve of a key that the store does not hold returns the value it was
/// given, and stores it with the clock reading and the time to live of the
/// call.
pub proof fn lemma_absent_key_is_stored(
    state: CacheState,
    key: Seq<char>,
    value: Seq<char>,
    ttl: nat,
    now: nat,
)
    requires
        key.len() > 0,
        !state.entries.contains_key(key),
    ensures
        state.answer(key, value, now) == Ok::<Seq<char>, CacheError>(value),
        state.after(key, value, ttl, now).entries.contains_key(key),
        state.after(key, value, ttl, now).entries[key] == (Entry { value, inserted_at: now, ttl }),
{
}

/// After any accepted resolve the store holds an entry for the key, and the
/// call returned that entry's value.
pub proof fn lemma_resolve_returns_stored_value(
    state: CacheState,
    key: Seq<char>,
    value: Seq<char>,
    ttl: nat,
    now: nat,
)
    requires
        key.len() > 0,
    ensures
        state.after(key, value, ttl, now).entries.contains_key(key),
        state.answer(key, value, now) == Ok::<Seq<char>, CacheError>(
            state.after(key, value, ttl, now).entries[key].value,
        ),
        state.after(key, value, ttl, now).entries[key].is_live(now) || ttl == 0,
{
}

/// A resolve returns either the value it was given or the value of an entry
/// that is live at the clock reading of this very call.
pub proof fn lemma_no_stale_hit(state: CacheState, key: Seq<char>, value: Seq<char>, now: nat)
    requires
        key.len() > 0,
    ensures
        state.answer(key, value, now) == Ok::<Seq<char>, CacheError>(value) || (
        state.entries.contains_key(key) && state.entries[key].is_live(now) && state.answer(
            key,
            value,
            now,
        ) == Ok::<Seq<char>, CacheError>(state.entries[key].value)),
{
}

/// A second resolve of a key, made while the entry that the first one left is
/// live, returns what the first returned, whatever value and time to live it
/// is given, and leaves that entry as it is: a hit does not renew it.
pub proof fn lemma_repeat_before_expiry(
    state: CacheState,
    key: Seq<char>,
    first: Call,
    second: Call,
)
    requires
        key.len() > 0,
        first.key == key,
        second.key == key,
        state.after(key, first.value, first.ttl, first.now).entries[key].is_live(second.now),
    ensures
        state.after(key, first.value, first.ttl, first.now).answer(key, second.value, second.now)
            == state.answer(key, first.value, first.now),
        state.after(key, first.value, first.ttl, first.now).after(
            key,
            second.value,
            second.ttl,
            second.now,
        ).entries[key] == state.after(key, first.value, first.ttl, first.now).entries[key],
{
}

/// A second resolve of a key, made when the entry that the first one left is
/// stale, returns the value it is given itself and stores it anew.
pub proof fn lemma_repeat_after_expiry(
    state: CacheState,
    key: Seq<char>,
    first: Call,
    second: Call,
)
    requires
        key.len() > 0,
        first.key == key,
        second.key == key,
        !state.after(key, first.value, first.ttl, first.now).entries[key].is_live(second.now),
    ensures
        state.after(key, first.value, first.ttl, first.now).answer(key, second.value, second.now)
            == Ok::<Seq<char>, CacheError>(second.value),
        state.after(key, first.value, first.ttl, first.now).after(
            key,
            second.value,
            second.ttl,
            second.now,
        ).entries[key] == (Entry {
            value: second.value,
            inserted_at: second.now,
            ttl: second.ttl,
        }),
{
}

/// A resolve of the empty key fails with `EmptyKey` and changes nothing: the
/// store has as many entries as before.
pub proof fn lemma_empty_key_rejected(state: CacheState, value: Seq<char>, ttl: nat, now: nat)
    ensures
        state.answer(Seq::<char>::empty(), value, now) == Err::<Seq<char>, CacheError>(
            CacheError::EmptyKey,
        ),
        state.after(Seq::<char>::empty(), value, ttl, now) == state,
        state.after(Seq::<char>::empty(), value, ttl, now).entries.len() == state.entries.len(),
{
}

/// A resolve touches no key but its own, except to remove stale entries:
/// under any other key the store afterwards holds what it held before, or
/// nothing; and it holds nothing there only if the entry was stale.
pub proof fn lemma_other_keys(
    state: CacheState,
    key: Seq<char>,
    value: Seq<char>,
    ttl: nat,
    now: nat,
    other: Seq<char>,
)
    requires
        other != key,
    ensures
        state.after(key, value, ttl, now).entries.contains_key(other) ==> state.entries.contains_key(
            other,
        ) && state.after(key, value, ttl, now).entries[other] == state.entries[other],
        state.entries.contains_key(other) && state.entries[other].is_live(now) ==> state.after(
            key,
            value,
            ttl,
            now,
        ).entries.contains_key(other),
        state.entries.contains_key(other) && !(key.len() > 0 && state.sweep_due()) ==> state.after(
            key,
            value,
            ttl,
            now,
        ).entries.contains_key(other),
{
}

/// A resolve on which the sweep is due leaves no entry that is stale at its
/// clock reading, under its own key or any other: what the store holds
/// afterwards is live, or is the entry that this call has just stored.
pub proof fn lemma_sweep_removes_all_stale(
    state: CacheState,
    key: Seq<char>,
    value: Seq<char>,
    ttl: nat,
    now: nat,
    other: Seq<char>,
)
    requires
        key.len() > 0,
        state.sweep_due(),
        state.after(key, value, ttl, now).entries.contains_key(other),
    ensures
        state.after(key, value, ttl, now).entries[other].is_live(now) || (other == key
            && state.after(key, value, ttl, now).entries[other] == (Entry {
            value,
            inserted_at: now,
            ttl,
        })),
{
}

/// The counter only grows: a resolve that is accepted leaves it one higher,
/// on the call that sweeps as on any other, and a resolve that is turned
/// down leaves it as it was.
pub proof fn lemma_counter_counts_accepted_calls(
    state: CacheState,
    key: Seq<char>,
    value: Seq<char>,
    ttl: nat,
    now: nat,
)
    ensures
        key.len() > 0 ==> state.after(key, value, ttl, now).hits == state.hits + 1,
        key.len() == 0 ==> state.after(key, value, ttl, now).hits == state.hits,
        state.sweep_due() <==> (state.hits + 1) % (SWEEP_INTERVAL as nat) == 0,
{
}

/// The counter of a store is the number of calls it has accepted since it
/// was created.
pub proof fn lemma_run_counts(calls: Seq<Call>)
    ensures
        run(calls).well_formed(),
        run(calls).hits == accepted(calls),
    decreases calls.len(),
{
    if calls.len() > 0 {
        let call = calls.last();
        lemma_run_counts(calls.drop_last());
        lemma_after_well_formed(run(calls.drop_last()), call.key, call.value, call.ttl, call.now);
    }
}

/// The sweep runs on every `SWEEP_INTERVAL`-th accepted call of a store,
/// counted from its creation: after the 50,000th, the 100,000th and so on,
/// the store holds no entry that is stale at that call's clock reading,
/// whatever keys the calls before it were for. What it holds is live, or is
/// the entry that this call has just stored.
pub proof fn lemma_periodic_sweep(calls: Seq<Call>, other: Seq<char>)
    requires
        calls.len() > 0,
        calls.last().key.len() > 0,
        accepted(calls) % (SWEEP_INTERVAL as nat) == 0,
        run(calls).entries.contains_key(other),
    ensures
        run(calls).entries[other].is_live(calls.last().now) || (other == calls.last().key
            && run(calls).entries[other] == (Entry {
            value: calls.last().value,
            inserted_at: calls.last().now,
            ttl: calls.last().ttl,
        })),
{
    let call = calls.last();
    let before = run(calls.drop_last());
    lemma_run_counts(calls.drop_last());
    assert(before.sweep_due());
    lemma_sweep_removes_all_stale(before, call.key, call.value, call.ttl, call.now, other);
}

} // verus!
