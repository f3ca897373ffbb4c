//! The in-process entry store: a map from key to value with TTL expiry,
//! checked lazily on each resolve and by a full sweep every
//! `SWEEP_INTERVAL` calls.

pub mod laws;
pub mod model;
mod store;

use crate::cache_service::ResolvePayload;
use crate::clock::{SystemTimeSource, TimeSource};
use model::{answer_view, value_view, CacheState};
use store::Store;
use vstd::pervasive::unreached;
use vstd::prelude::*;

verus! {

/// Why the entry store turned a request down.
#[derive(Debug, PartialEq, Eq)]
pub enum CacheError {
    /// The key was the empty string.
    EmptyKey,
}

/// The entry store, with the clock it reads the time from.
///
/// A call takes the store by `&mut`, so each resolve runs alone on it: the
/// counter, the sweep, the lookup and the insert of one call are seen by the
/// next call as one step.
pub struct InMemoryCache<T: TimeSource = SystemTimeSource> {
    store: Store,
    time_source: T,
}

impl<T: TimeSource> View for InMemoryCache<T> {
    type V = CacheState;

    closed spec fn view(&self) -> CacheState {
        self.store.state()
    }
}

impl<T: TimeSource> InMemoryCache<T> {
    /// What every entry store keeps, from `new` on and through every call.
    #[verifier::type_invariant]
    pub closed spec fn inv(self) -> bool {
        self.store.inv()
    }

    /// The clock of this store.
    pub closed spec fn clock(self) -> T {
        self.time_source
    }

    /// Every entry store is well-formed: it has finitely many entries, and
    /// none under the empty key.
    pub proof fn lemma_well_formed(self)
        requires
            self.inv(),
        ensures
            self@.well_formed(),
    {
        self.store.lemma_well_formed();
    }

    /// An empty store that reads the time from `time_source`.
    pub fn new_with_time_source(time_source: T) -> (cache: InMemoryCache<T>)
        ensures
            cache@ == CacheState::empty(),
            cache.clock() == time_source,
    {
        InMemoryCache { store: Store::new(), time_source }
    }

    /// Resolves `payload.key` as of the clock reading `now`.
    ///
    /// The empty key fails with `EmptyKey` and leaves the store as it was.
    /// Any other key succeeds: the call is counted; if the counter is then a
    /// multiple of `SWEEP_INTERVAL` every entry stale at `now` is removed,
    /// else only a stale entry of this key; then the value of the key's live
    /// entry is returned, or, where there is none, `payload.value` is stored
    /// with `now` and `payload.ttl` and returned.
    pub fn resolve_at(&mut self, payload: ResolvePayload, now: u64) -> (result: Result<
        String,
        CacheError,
    >)
        ensures
            final(self).clock() == old(self).clock(),
            final(self)@ == old(self)@.after(
                payload.key@,
                payload.value@,
                payload.ttl as nat,
                now as nat,
            ),
            answer_view(result) == old(self)@.answer(payload.key@, payload.value@, now as nat),
    {
        proof {
            use_type_invariant(&*self);
        }
        let mut store = Store::new();
        std::mem::swap(&mut self.store, &mut store);
        let result = store.resolve(payload.key, payload.value, payload.ttl, now);
        self.store = store;
        result
    }

    /// Resolves `payload.key` as of now: reads the clock, unless the key is
    /// empty, and does what `resolve_at` does for that reading.
    pub fn resolve(&mut self, payload: ResolvePayload) -> (result: Result<String, CacheError>)
        ensures
            final(self).clock() == old(self).clock(),
            exists|now: u64|
                {
                    &&& final(self)@ == old(self)@.after(
                        payload.key@,
                        payload.value@,
                        payload.ttl as nat,
                        now as nat,
                    )
                    &&& answer_view(result) == #[trigger] old(self)@.answer(
                        payload.key@,
                        payload.value@,
                        now as nat,
                    )
                },
    {
        if payload.key.is_empty() {
            assert(self@ == self@.after(payload.key@, payload.value@, payload.ttl as nat, 0));
            assert(Err::<Seq<char>, CacheError>(CacheError::EmptyKey) == self@.answer(
                payload.key@,
                payload.value@,
                0,
            ));
            return Err(CacheError::EmptyKey);
        }
        let now = self.time_source.now();
        self.resolve_at(payload, now)
    }

    /// The value under `key` if its entry is live at the clock reading `now`.
    /// The store does not change: the call is not counted and evicts nothing.
    pub fn get_at(&self, key: &str, now: u64) -> (value: Option<String>)
        ensures
            value_view(value) == self@.lookup(key@, now as nat),
    {
        self.store.lookup(key, now)
    }

    /// The value under `key` if its entry is live by the clock.
    pub fn get(&self, key: &str) -> (value: Option<String>)
        ensures
            exists|now: u64| value_view(value) == #[trigger] self@.lookup(key@, now as nat),
    {
        let now = self.time_source.now();
        self.get_at(key, now)
    }

    /// Sets the call counter to `hits`.
    pub fn set_hits(&mut self, hits: u64)
        ensures
            final(self).clock() == old(self).clock(),
            final(self)@ == (CacheState {
                entries: old(self)@.entries,
                hits: hits as nat,
            }),
    {
        proof {
            use_type_invariant(&*self);
        }
        let mut store = Store::new();
        std::mem::swap(&mut self.store, &mut store);
        store.set_hits(hits);
        self.store = store;
    }

    /// The number of entries in the store, stale ones included.
    pub fn get_values_length(&self) -> (length: usize)
        ensures
            length == self@.entries.len(),
    {
        proof {
            use_type_invariant(self);
        }
        self.store.len()
    }

    /// The value stored under `key`, live or stale.
    pub fn get_value(&self, key: &str) -> (value: String)
        requires
            self@.entries.contains_key(key@),
        ensures
            value@ == self@.entries[key@].value,
    {
        match self.store.stored(key) {
            Some(value) => value,
            None => unreached(),
        }
    }

}

impl InMemoryCache<SystemTimeSource> {
    /// An empty store that reads the wall clock.
    pub fn new() -> (cache: InMemoryCache<SystemTimeSource>)
        ensures
            cache@ == CacheState::empty(),
    {
        InMemoryCache { store: Store::new(), time_source: SystemTimeSource }
    }
}

} // verus!
