//! The entry store as contracts see it: a map from key to entry and a call
//! counter, with the rule by which one resolve changes them.

use super::CacheError;
use vstd::prelude::*;

verus! {

/// Every `SWEEP_INTERVAL`-th accepted resolve scans the whole store for stale
/// entries.
pub const SWEEP_INTERVAL: u64 = 50000;

/// A cached value with the time it was stored at and its time to live, both
/// in seconds.
pub struct Entry {
    pub value: Seq<char>,
    pub inserted_at: nat,
    pub ttl: nat,
}

impl Entry {
    /// An entry is live while the clock is before `inserted_at + ttl`, and
    /// stale from then on.
    pub open spec fn is_live(self, now: nat) -> bool {
        now < self.inserted_at + self.ttl
    }
}

/// The state of an entry store: its entries by key, and the number of
/// resolves that it has accepted. The counter only grows; it drives the
/// sweep and nothing else.
pub struct CacheState {
    pub entries: Map<Seq<char>, Entry>,
    pub hits: nat,
}

/// An answer of the store with its value seen as a sequence of characters.
pub open spec fn answer_view(answer: Result<String, CacheError>) -> Result<Seq<char>, CacheError> {
    match answer {
        Ok(value) => Ok(value@),
        Err(error) => Err(error),
    }
}

/// An optional value seen as a sequence of characters.
pub open spec fn value_view(value: Option<String>) -> Option<Seq<char>> {
    match value {
        Some(value) => Some(value@),
        None => None,
    }
}

/// The entries of `entries` that are live at `now`.
pub open spec fn live_entries(entries: Map<Seq<char>, Entry>, now: nat) -> Map<Seq<char>, Entry> {
    Map::new(|k: Seq<char>| entries.contains_key(k) && entries[k].is_live(now), |k: Seq<char>| entries[k])
}

impl CacheState {
    /// The state of a store that was just created.
    pub open spec fn empty() -> CacheState {
        CacheState { entries: Map::empty(), hits: 0 }
    }

    /// What holds of every store: finitely many entries, and none under the
    /// empty key.
    pub open spec fn well_formed(self) -> bool {
        &&& self.entries.dom().finite()
        &&& forall|k: Seq<char>| self.entries.contains_key(k) ==> k.len() > 0
    }

    /// The value under `key`, whether its entry is live or stale.
    pub open spec fn peek(self, key: Seq<char>) -> Option<Seq<char>> {
        if self.entries.contains_key(key) {
            Some(self.entries[key].value)
        } else {
            None
        }
    }

    /// The value under `key` if the store holds a live entry for it at `now`.
    pub open spec fn lookup(self, key: Seq<char>, now: nat) -> Option<Seq<char>> {
        if self.entries.contains_key(key) && self.entries[key].is_live(now) {
            Some(self.entries[key].value)
        } else {
            None
        }
    }

    /// Whether the next accepted resolve sweeps the store: it does when the
    /// counter, with that call counted, is a multiple of the sweep interval.
    pub open spec fn sweep_due(self) -> bool {
        (self.hits + 1) % (SWEEP_INTERVAL as nat) == 0
    }

    /// The entries that a resolve of `key` at `now` leaves of those it found:
    /// the live ones when a sweep is due, else all but a stale entry of `key`.
    pub open spec fn kept(self, key: Seq<char>, now: nat) -> Map<Seq<char>, Entry> {
        if self.sweep_due() {
            live_entries(self.entries, now)
        } else if self.entries.contains_key(key) && !self.entries[key].is_live(now) {
            self.entries.remove(key)
        } else {
            self.entries
        }
    }

    /// What a resolve of a non-empty `key` at `now` returns: the stored value
    /// if the key has a live entry, else `value`.
    pub open spec fn resolved_value(self, key: Seq<char>, value: Seq<char>, now: nat) -> Seq<char> {
        match self.lookup(key, now) {
            Some(stored) => stored,
            None => value,
        }
    }

    /// The state after a resolve of a non-empty `key` at `now`: the counter
    /// is one higher, stale entries have left as `kept` says, and a key that
    /// is then absent has the entry `(value, now, ttl)`.
    pub open spec fn resolved(self, key: Seq<char>, value: Seq<char>, ttl: nat, now: nat) -> CacheState {
        let kept = self.kept(key, now);
        CacheState {
            entries: if kept.contains_key(key) {
                kept
            } else {
                kept.insert(key, Entry { value, inserted_at: now, ttl })
            },
            hits: self.hits + 1,
        }
    }

    /// What a resolve at `now` answers: `EmptyKey` for the empty key, else
    /// the resolved value.
    pub open spec fn answer(self, key: Seq<char>, value: Seq<char>, now: nat) -> Result<Seq<char>, CacheError> {
        if key.len() == 0 {
            Err(CacheError::EmptyKey)
        } else {
            Ok(self.resolved_value(key, value, now))
        }
    }

    /// The state that a resolve at `now` leaves: unchanged for the empty key,
    /// else `resolved`.
    pub open spec fn after(self, key: Seq<char>, value: Seq<char>, ttl: nat, now: nat) -> CacheState {
        if key.len() == 0 {
            self
        } else {
            self.resolved(key, value, ttl, now)
        }
    }
}

} // verus!
