//! The orchestrator's protocol: the order in which one resolve goes through
//! the tiers, told as a machine that asks its caller for each piece of
//! outside work and is handed back what came of it.
//!
//! A resolve asks the in-process store first, then the persistent store,
//! then for the computation; a computed value is written to the persistent
//! store first and to the in-process store after it.

pub mod laws;

use crate::in_memory_cache::model::CacheState;
use crate::kv_cache::KvError;
use crate::CacheServiceError;
use vstd::prelude::*;

verus! {

/// One resolve request to the in-process store: the key, the value to store
/// if the key has no live entry, and the time to live, in seconds, of the
/// entry then created.
pub struct ResolvePayload<'a> {
    pub key: &'a str,
    pub value: &'a str,
    pub ttl: u64,
}

/// Where the orchestrator stands: idle, or in a resolve and waiting for what
/// it last asked for. Contracts read it with `Seq<char>` for `S`.
#[derive(Debug)]
pub enum Stage<S = String> {
    /// No resolve is under way.
    Idle,
    /// The in-process store missed; the persistent store was asked.
    AwaitStoreValue { key: S },
    /// Both tiers missed; the computation was asked for.
    AwaitComputed { key: S },
    /// The computed value is being written to the persistent store.
    AwaitStoreWritten { key: S, value: S },
}

/// What the caller hands to the orchestrator.
#[derive(Debug)]
pub enum Event<S = String> {
    /// A resolve of `key` is requested.
    Requested { key: S },
    /// The persistent store's answer to a get: the value, if it holds one.
    StoreValue(Option<S>),
    /// The computation's result.
    Computed(S),
    /// The persistent store's answer to a set.
    StoreWritten(Result<S, KvError>),
}

/// What the orchestrator asks of its caller.
#[derive(Debug)]
pub enum Action<S = String> {
    /// Read `key` from the persistent store.
    QueryStore { key: S },
    /// Run the computation.
    Compute,
    /// Write `value` under `key` to the persistent store, to expire after `ttl`
    /// seconds.
    WriteStore { key: S, value: S, ttl: u64 },
    /// The resolve is over, with this result.
    Finish(Result<S, CacheServiceError>),
}

impl View for Stage<String> {
    type V = Stage<Seq<char>>;

    open spec fn view(&self) -> Stage<Seq<char>> {
        match *self {
            Stage::Idle => Stage::Idle,
            Stage::AwaitStoreValue { key } => Stage::AwaitStoreValue { key: key@ },
            Stage::AwaitComputed { key } => Stage::AwaitComputed { key: key@ },
            Stage::AwaitStoreWritten { key, value } => Stage::AwaitStoreWritten {
                key: key@,
                value: value@,
            },
        }
    }
}

impl View for Event<String> {
    type V = Event<Seq<char>>;

    open spec fn view(&self) -> Event<Seq<char>> {
        match *self {
            Event::Requested { key } => Event::Requested { key: key@ },
            Event::StoreValue(Some(value)) => Event::StoreValue(Some(value@)),
            Event::StoreValue(None) => Event::StoreValue(None),
            Event::Computed(value) => Event::Computed(value@),
            Event::StoreWritten(Ok(value)) => Event::StoreWritten(Ok(value@)),
            Event::StoreWritten(Err(error)) => Event::StoreWritten(Err(error)),
        }
    }
}

impl View for Action<String> {
    type V = Action<Seq<char>>;

    open spec fn view(&self) -> Action<Seq<char>> {
        match *self {
            Action::QueryStore { key } => Action::QueryStore { key: key@ },
            Action::Compute => Action::Compute,
            Action::WriteStore { key, value, ttl } => Action::WriteStore { key: key@, value: value@, ttl },
            Action::Finish(Ok(value)) => Action::Finish(Ok(value@)),
            Action::Finish(Err(error)) => Action::Finish(Err(error)),
        }
    }
}

/// The orchestrator as contracts see it: the in-process store, the time to
/// live it gives to what it writes, and the stage it stands at.
pub struct ServiceState {
    pub cache: CacheState,
    pub ttl: u64,
    pub stage: Stage<Seq<char>>,
}

impl ServiceState {
    /// The events that answer what the orchestrator last asked for: a request
    /// when it is idle, and otherwise the outcome of the pending action.
    pub open spec fn expects(self, event: Event<Seq<char>>) -> bool {
        match (self.stage, event) {
            (Stage::Idle, Event::Requested { .. }) => true,
            (Stage::AwaitStoreValue { .. }, Event::StoreValue(_)) => true,
            (Stage::AwaitComputed { .. }, Event::Computed(_)) => true,
            (Stage::AwaitStoreWritten { .. }, Event::StoreWritten(_)) => true,
            _ => false,
        }
    }

    /// The state with another stage.
    pub open spec fn at(self, stage: Stage<Seq<char>>) -> ServiceState {
        ServiceState { stage, ..self }
    }

    /// One step: the state after `event`, and what is asked of the caller
    /// next; nothing for an event that is not expected. `now` is the clock
    /// reading of the step; only the steps that go to the in-process store
    /// depend on it.
    ///
    /// - A request is answered from the in-process store if it holds a live
    ///   entry; else the persistent store is asked.
    /// - A value from the persistent store is returned as it is, and the
    ///   in-process store is left alone; without one the computation is
    ///   asked for.
    /// - A computed value goes to the persistent store, with the service's
    ///   time to live.
    /// - A failed write ends the resolve with that failure, and the
    ///   in-process store is left alone. After a write that succeeded the
    ///   in-process store resolves the key with the computed value, and the
    ///   computed value is returned, or the store's error if it turned the
    ///   key down.
    pub open spec fn next(self, event: Event<Seq<char>>, now: nat) -> Option<
        (ServiceState, Action<Seq<char>>),
    > {
        match (self.stage, event) {
            (Stage::Idle, Event::Requested { key }) => Some(
                match self.cache.lookup(key, now) {
                    Some(value) => (self, Action::Finish(Ok(value))),
                    None => (self.at(Stage::AwaitStoreValue { key }), Action::QueryStore { key }),
                },
            ),
            (Stage::AwaitStoreValue { key }, Event::StoreValue(found)) => Some(
                match found {
                    Some(value) => (self.at(Stage::Idle), Action::Finish(Ok(value))),
                    None => (self.at(Stage::AwaitComputed { key }), Action::Compute),
                },
            ),
            (Stage::AwaitComputed { key }, Event::Computed(value)) => Some(
                (
                    self.at(Stage::AwaitStoreWritten { key, value }),
                    Action::WriteStore { key, value, ttl: self.ttl },
                ),
            ),
            (Stage::AwaitStoreWritten { key, value }, Event::StoreWritten(written)) => Some(
                match written {
                    Err(error) => (
                        self.at(Stage::Idle),
                        Action::Finish(Err(CacheServiceError::KvCacheError(error))),
                    ),
                    Ok(_) => (
                        ServiceState {
                            cache: self.cache.after(key, value, self.ttl as nat, now),
                            ttl: self.ttl,
                            stage: Stage::Idle,
                        },
                        match self.cache.answer(key, value, now) {
                            Ok(_) => Action::Finish(Ok(value)),
                            Err(error) => Action::Finish(
                                Err(CacheServiceError::InMemoryCacheError(error)),
                            ),
                        },
                    ),
                },
            ),
            _ => None,
        }
    }
}

/// What a step hands back, with its strings seen as sequences of characters.
pub open spec fn asked_view(asked: Option<Action>) -> Option<Action<Seq<char>>> {
    match asked {
        Some(action) => Some(action@),
        None => None,
    }
}

/// What a step comes to in all: the state it leaves, which is the state it
/// found where the event was not expected, and the action it asks for, if
/// any.
pub open spec fn step_of(state: ServiceState, event: Event<Seq<char>>, now: nat) -> (
    ServiceState,
    Option<Action<Seq<char>>>,
) {
    match state.next(event, now) {
        Some((after, asked)) => (after, Some(asked)),
        None => (state, None),
    }
}

} // verus!
