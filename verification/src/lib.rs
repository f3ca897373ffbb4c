//! A tiered read-through cache: an in-process entry store with TTL expiry in
//! front of a shared key-value store.

pub mod cache_service;
pub mod clock;
pub mod in_memory_cache;
pub mod kv_cache;
pub mod request;

use cache_service::{asked_view, step_of, Action, Event, ResolvePayload, ServiceState, Stage};
use clock::{SystemTimeSource, TimeSource};
use in_memory_cache::model::{answer_view, value_view, CacheState};
use in_memory_cache::{CacheError, InMemoryCache};
use kv_cache::KvError;
use vstd::pervasive::unreached;
use vstd::prelude::*;

verus! {

/// One write to the persistent store: the key, the value, and the expiry of
/// the entry in seconds.
pub struct SetPayload<'a> {
    pub key: &'a str,
    pub value: &'a str,
    pub ttl: u64,
}

/// Why a resolve failed: the error of the tier that failed.
#[derive(Debug)]
pub enum CacheServiceError {
    InMemoryCacheError(CacheError),
    KvCacheError(KvError),
}

/// The orchestrator: the in-process store, the time to live of what it
/// writes, and the stage of the resolve under way.
pub struct CacheService<T: TimeSource = SystemTimeSource> {
    in_memory_cache: InMemoryCache<T>,
    ttl: u64,
    stage: Stage,
}

impl<T: TimeSource> View for CacheService<T> {
    type V = ServiceState;

    closed spec fn view(&self) -> ServiceState {
        ServiceState { cache: self.in_memory_cache@, ttl: self.ttl, stage: self.stage@ }
    }
}

impl<T: TimeSource> CacheService<T> {
    /// The clock of the in-process store.
    pub closed spec fn clock(self) -> T {
        self.in_memory_cache.clock()
    }

    /// An idle orchestrator over an empty in-process store that reads the
    /// time from `time_source`.
    pub fn new_with_time_source(ttl: u64, time_source: T) -> (service: CacheService<T>)
        ensures
            service@ == (ServiceState { cache: CacheState::empty(), ttl, stage: Stage::Idle }),
            service.clock() == time_source,
    {
        CacheService {
            in_memory_cache: InMemoryCache::new_with_time_source(time_source),
            ttl,
            stage: Stage::Idle,
        }
    }

    /// One step, at the clock reading `reading` or, without one, at a reading
    /// taken from the clock if the step goes to the in-process store.
    fn transition(&mut self, event: Event, reading: Option<u64>) -> (action: Action)
        requires
            old(self)@.expects(event@),
        ensures
            final(self).clock() == old(self).clock(),
            exists|now: u64|
                {
                    &&& reading matches Some(given) ==> now == given
                    &&& Some((final(self)@, action@)) == #[trigger] old(self)@.next(
                        event@,
                        now as nat,
                    )
                },
    {
        let ghost before = self@;
        let ghost given: u64 = match reading {
            Some(given) => given,
            None => 0,
        };
        let mut stage = Stage::Idle;
        std::mem::swap(&mut self.stage, &mut stage);
        match (stage, event) {
            (Stage::Idle, Event::Requested { key }) => {
                let hit = match reading {
                    Some(now) => self.in_memory_cache.get_at(key.as_str(), now),
                    None => self.in_memory_cache.get(key.as_str()),
                };
                let ghost now = choose|now: u64|
                    (reading matches Some(given) ==> now == given) && value_view(hit)
                        == before.cache.lookup(key@, now as nat);
                match hit {
                    Some(value) => {
                        let action = Action::Finish(Ok(value));
                        assert(Some((self@, action@)) == before.next(event@, now as nat));
                        action
                    },
                    None => {
                        self.stage = Stage::AwaitStoreValue { key: key.clone() };
                        let action = Action::QueryStore { key };
                        assert(Some((self@, action@)) == before.next(event@, now as nat));
                        action
                    },
                }
            },
            (Stage::AwaitStoreValue { key }, Event::StoreValue(found)) => {
                match found {
                    Some(value) => {
                        let action = Action::Finish(Ok(value));
                        assert(Some((self@, action@)) == before.next(event@, given as nat));
                        action
                    },
                    None => {
                        self.stage = Stage::AwaitComputed { key };
                        assert(Some((self@, Action::<Seq<char>>::Compute)) == before.next(
                            event@,
                            given as nat,
                        ));
                        Action::Compute
                    },
                }
            },
            (Stage::AwaitComputed { key }, Event::Computed(value)) => {
                self.stage = Stage::AwaitStoreWritten { key: key.clone(), value: value.clone() };
                let action = Action::WriteStore { key, value, ttl: self.ttl };
                assert(Some((self@, action@)) == before.next(event@, given as nat));
                action
            },
            (Stage::AwaitStoreWritten { key, value }, Event::StoreWritten(written)) => {
                match written {
                    Err(error) => {
                        let action = Action::Finish(Err(CacheServiceError::KvCacheError(error)));
                        assert(Some((self@, action@)) == before.next(event@, given as nat));
                        action
                    },
                    Ok(_) => {
                        let payload = ResolvePayload {
                            key: key.as_str(),
                            value: value.as_str(),
                            ttl: self.ttl,
                        };
                        let stored = match reading {
                            Some(now) => self.in_memory_cache.resolve_at(payload, now),
                            None => self.in_memory_cache.resolve(payload),
                        };
                        let ghost now = choose|now: u64|
                            {
                                &&& reading matches Some(given) ==> now == given
                                &&& self.in_memory_cache@ == before.cache.after(
                                    key@,
                                    value@,
                                    before.ttl as nat,
                                    now as nat,
                                )
                                &&& answer_view(stored) == before.cache.answer(
                                    key@,
                                    value@,
                                    now as nat,
                                )
                            };
                        let action = match stored {
                            Ok(_) => Action::Finish(Ok(value)),
                            Err(error) => Action::Finish(
                                Err(CacheServiceError::InMemoryCacheError(error)),
                            ),
                        };
                        assert(Some((self@, action@)) == before.next(event@, now as nat));
                        action
                    },
                }
            },
            _ => unreached(),
        }
    }

    /// One step of a resolve, as of the clock reading `now`: takes the answer
    /// to what was last asked for, and asks for what comes next.
    ///
    /// An event that answers the pending action (`expects`) is taken: the
    /// state and the action that come out are those of `ServiceState::next`.
    /// Any other event is turned down with `None`, and nothing changes.
    pub fn step_at(&mut self, event: Event, now: u64) -> (action: Option<Action>)
        ensures
            final(self).clock() == old(self).clock(),
            (final(self)@, asked_view(action)) == step_of(old(self)@, event@, now as nat),
    {
        if self.expects(&event) {
            Some(self.transition(event, Some(now)))
        } else {
            None
        }
    }

    /// One step of a resolve, as of now: what `step_at` does for a reading
    /// of the clock. The clock is read only where the step goes to the
    /// in-process store.
    pub fn step(&mut self, event: Event) -> (action: Option<Action>)
        ensures
            final(self).clock() == old(self).clock(),
            exists|now: u64|
                (final(self)@, asked_view(action)) == #[trigger] step_of(
                    old(self)@,
                    event@,
                    now as nat,
                ),
    {
        let ghost before = self@;
        if self.expects(&event) {
            let asked = self.transition(event, None);
            proof {
                let now = choose|now: u64|
                    Some((self@, asked@)) == before.next(event@, now as nat);
                assert((self@, asked_view(Some(asked))) == step_of(before, event@, now as nat));
            }
            Some(asked)
        } else {
            assert((self@, asked_view(None)) == step_of(before, event@, 0));
            None
        }
    }

    /// Whether `event` answers what this orchestrator last asked for.
    pub fn expects(&self, event: &Event) -> (expected: bool)
        ensures
            expected == self@.expects(event@),
    {
        match (&self.stage, event) {
            (Stage::Idle, Event::Requested { .. }) => true,
            (Stage::AwaitStoreValue { .. }, Event::StoreValue(_)) => true,
            (Stage::AwaitComputed { .. }, Event::Computed(_)) => true,
            (Stage::AwaitStoreWritten { .. }, Event::StoreWritten(_)) => true,
            _ => false,
        }
    }

    /// The in-process store.
    pub fn in_memory_cache(&self) -> (cache: &InMemoryCache<T>)
        ensures
            cache@ == self@.cache,
            cache.clock() == self.clock(),
    {
        &self.in_memory_cache
    }

    /// The in-process store, to change it.
    pub fn in_memory_cache_mut(&mut self) -> (cache: &mut InMemoryCache<T>)
        ensures
            cache@ == old(self)@.cache,
            cache.clock() == old(self).clock(),
            final(self)@ == (ServiceState { cache: final(cache)@, ..old(self)@ }),
            final(self).clock() == final(cache).clock(),
    {
        &mut self.in_memory_cache
    }
}

impl CacheService<SystemTimeSource> {
    /// An idle orchestrator over an empty in-process store that reads the
    /// wall clock. What it writes lives for `ttl` seconds.
    pub fn new(ttl: u64) -> (service: CacheService<SystemTimeSource>)
        ensures
            service@ == (ServiceState { cache: CacheState::empty(), ttl, stage: Stage::Idle }),
    {
        CacheService { in_memory_cache: InMemoryCache::new(), ttl, stage: Stage::Idle }
    }
}

} // verus!
