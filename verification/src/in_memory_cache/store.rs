//! The entries in memory: a hash map by key, and beside it the list of its
//! keys, which the sweep walks.

use super::model::{answer_view, live_entries, value_view, CacheState, Entry, SWEEP_INTERVAL};
use super::CacheError;
use vstd::hash_map::StringHashMap;
use vstd::prelude::*;
use vstd::seq_lib::seq_to_set_is_finite;

verus! {

/// A stored value with the clock reading it was stored at and its time to
/// live.
pub(super) struct CacheValue {
    pub(super) value: String,
    pub(super) timestamp: u64,
    pub(super) ttl: u64,
}

impl CacheValue {
    /// The entry as contracts see it.
    pub(super) closed spec fn entry(self) -> Entry {
        Entry { value: self.value@, inserted_at: self.timestamp as nat, ttl: self.ttl as nat }
    }

    /// Whether the entry is live at `now`. A sum past `u64::MAX` lies after
    /// every clock reading.
    pub(super) fn is_live(&self, now: u64) -> (live: bool)
        ensures
            live == self.entry().is_live(now as nat),
    {
        match self.timestamp.checked_add(self.ttl) {
            Some(expiry) => now < expiry,
            None => true,
        }
    }
}

/// The entries that contracts see in `values`.
pub(super) closed spec fn entries_of(values: Map<Seq<char>, CacheValue>) -> Map<Seq<char>, Entry> {
    Map::new(|k: Seq<char>| values.contains_key(k), |k: Seq<char>| values[k].entry())
}

/// `keys` lists every key of `values` once, and none of them is empty.
pub(super) closed spec fn indexed(values: Map<Seq<char>, CacheValue>, keys: Seq<String>) -> bool {
    &&& forall|i: int, j: int|
        0 <= i < j < keys.len() ==> (#[trigger] keys[i])@ != (#[trigger] keys[j])@
    &&& forall|i: int| 0 <= i < keys.len() ==> values.contains_key((#[trigger] keys[i])@)
    &&& forall|k: Seq<char>| #[trigger]
        values.contains_key(k) ==> k.len() > 0 && exists|i: int|
            0 <= i < keys.len() && (#[trigger] keys[i])@ == k
}

/// The views of the keys in a list.
spec fn key_views(keys: Seq<String>) -> Seq<Seq<char>> {
    keys.map_values(|key: String| key@)
}

/// An indexed map has as many entries as its list has keys.
proof fn lemma_indexed_len(values: Map<Seq<char>, CacheValue>, keys: Seq<String>)
    requires
        indexed(values, keys),
    ensures
        values.dom().finite(),
        values.dom().len() == keys.len(),
{
    let views = key_views(keys);
    assert(views.no_duplicates());
    assert(views.to_set() =~= values.dom()) by {
        assert forall|k: Seq<char>| values.dom().contains(k) implies views.to_set().contains(k) by {
            let i = choose|i: int| 0 <= i < keys.len() && (#[trigger] keys[i])@ == k;
            assert(views[i] == k);
        }
        assert forall|k: Seq<char>| views.to_set().contains(k) implies values.dom().contains(k) by {
            let i = choose|i: int| 0 <= i < views.len() && views[i] == k;
            assert(keys[i]@ == k);
        }
    }
    views.unique_seq_to_set();
    seq_to_set_is_finite(views);
}

/// Storing under a key that is listed keeps the list as it is.
proof fn lemma_indexed_replace(
    values: Map<Seq<char>, CacheValue>,
    keys: Seq<String>,
    key: Seq<char>,
    entry: CacheValue,
)
    requires
        indexed(values, keys),
        values.contains_key(key),
    ensures
        indexed(values.insert(key, entry), keys),
{
    let stored = values.insert(key, entry);
    assert forall|k: Seq<char>| #[trigger] stored.contains_key(k) implies k.len() > 0 && exists|
        i: int,
    | 0 <= i < keys.len() && (#[trigger] keys[i])@ == k by {
        assert(values.contains_key(k));
    }
}

/// Storing under a key that is not listed adds that key to the list.
proof fn lemma_indexed_add(
    values: Map<Seq<char>, CacheValue>,
    keys: Seq<String>,
    key: String,
    entry: CacheValue,
)
    requires
        indexed(values, keys),
        key@.len() > 0,
        !values.contains_key(key@),
    ensures
        indexed(values.insert(key@, entry), keys.push(key)),
{
    let stored = values.insert(key@, entry);
    let listed = keys.push(key);
    assert forall|i: int, j: int| 0 <= i < j < listed.len() implies (#[trigger] listed[i])@ != (
    #[trigger] listed[j])@ by {
        if j == keys.len() {
            assert(values.contains_key(keys[i]@));
        } else {
            assert(keys[i]@ != keys[j]@);
        }
    }
    assert forall|i: int| 0 <= i < listed.len() implies stored.contains_key(
        (#[trigger] listed[i])@,
    ) by {
        if i < keys.len() {
            assert(values.contains_key(keys[i]@));
        }
    }
    assert forall|k: Seq<char>| #[trigger] stored.contains_key(k) implies k.len() > 0 && exists|
        i: int,
    | 0 <= i < listed.len() && (#[trigger] listed[i])@ == k by {
        if k == key@ {
            assert(listed[keys.len() as int]@ == k);
        } else {
            assert(values.contains_key(k));
            let i = choose|i: int| 0 <= i < keys.len() && (#[trigger] keys[i])@ == k;
            assert(listed[i]@ == k);
        }
    }
}

/// Removes from `values` every entry that is stale at `now`, and its key
/// from `keys`.
fn sweep(values: &mut StringHashMap<CacheValue>, keys: &mut Vec<String>, now: u64)
    requires
        indexed(old(values)@, old(keys)@),
    ensures
        indexed(final(values)@, final(keys)@),
        entries_of(final(values)@) == live_entries(entries_of(old(values)@), now as nat),
{
    let ghost before = values@;
    let mut kept: Vec<String> = Vec::new();
    while keys.len() > 0
        invariant
            forall|i: int, j: int|
                0 <= i < j < keys@.len() ==> (#[trigger] keys@[i])@ != (#[trigger] keys@[j])@,
            forall|i: int, j: int|
                0 <= i < j < kept@.len() ==> (#[trigger] kept@[i])@ != (#[trigger] kept@[j])@,
            forall|i: int, j: int|
                0 <= i < keys@.len() && 0 <= j < kept@.len() ==> (#[trigger] keys@[i])@ != (
                #[trigger] kept@[j])@,
            forall|i: int| 0 <= i < keys@.len() ==> values@.contains_key((#[trigger] keys@[i])@),
            forall|j: int|
                0 <= j < kept@.len() ==> values@.contains_key((#[trigger] kept@[j])@)
                    && before[kept@[j]@].entry().is_live(now as nat),
            forall|k: Seq<char>| #[trigger]
                values@.contains_key(k) ==> {
                    &&& k.len() > 0
                    &&& before.contains_key(k)
                    &&& values@[k] == before[k]
                    &&& (exists|i: int| 0 <= i < keys@.len() && (#[trigger] keys@[i])@ == k)
                        || (exists|j: int| 0 <= j < kept@.len() && (#[trigger] kept@[j])@ == k)
                },
            forall|k: Seq<char>|
                before.contains_key(k) && before[k].entry().is_live(now as nat)
                    ==> #[trigger] values@.contains_key(k),
        decreases keys@.len(),
    {
        let ghost pending = keys@;
        let ghost held = values@;
        let ghost kept_before = kept@;
        let key = keys.pop().unwrap();
        let live = match values.get(key.as_str()) {
            Some(entry) => entry.is_live(now),
            None => false,
        };
        if live {
            kept.push(key);
        } else {
            values.remove(key.as_str());
        }
        proof {
            let last = pending.len() - 1;
            assert(pending[last] == key);
            assert forall|i: int| 0 <= i < keys@.len() implies keys@[i] == pending[i] by {}
            assert forall|k: Seq<char>| #[trigger] values@.contains_key(k) implies {
                &&& k.len() > 0
                &&& before.contains_key(k)
                &&& values@[k] == before[k]
                &&& (exists|i: int| 0 <= i < keys@.len() && (#[trigger] keys@[i])@ == k)
                    || (exists|j: int| 0 <= j < kept@.len() && (#[trigger] kept@[j])@ == k)
            } by {
                assert(held.contains_key(k));
                if exists|i: int| 0 <= i < pending.len() && (#[trigger] pending[i])@ == k {
                    let i = choose|i: int| 0 <= i < pending.len() && (#[trigger] pending[i])@ == k;
                    if i == last {
                        assert(live);
                        assert(kept@[kept@.len() - 1]@ == k);
                    } else {
                        assert(keys@[i]@ == k);
                    }
                } else {
                    let j = choose|j: int|
                        0 <= j < kept_before.len() && (#[trigger] kept_before[j])@ == k;
                    assert(kept@[j]@ == k);
                }
            }
        }
    }
    *keys = kept;
    proof {
        assert(entries_of(values@) =~= live_entries(entries_of(before), now as nat));
    }
}

/// The entries, the list of their keys, and the counter of accepted
/// resolves. The counter itself is kept for the proofs only; what runs keeps
/// its remainder by the sweep interval, which is all that the sweep asks
/// for and cannot overflow.
pub(super) struct Store {
    values: StringHashMap<CacheValue>,
    keys: Vec<String>,
    since_sweep: u64,
    hits: Ghost<nat>,
}

impl Store {
    /// What every store keeps: its keys are listed once each, none is empty,
    /// and `since_sweep` is the counter's remainder by the sweep interval.
    pub(super) closed spec fn inv(self) -> bool {
        indexed(self.values@, self.keys@) && self.since_sweep == self.hits@ % (
        SWEEP_INTERVAL as nat)
    }

    /// The store as contracts see it.
    pub(super) closed spec fn state(self) -> CacheState {
        CacheState { entries: entries_of(self.values@), hits: self.hits@ }
    }

    /// A store that keeps its invariant is well-formed.
    pub(super) proof fn lemma_well_formed(self)
        requires
            self.inv(),
        ensures
            self.state().well_formed(),
    {
        lemma_indexed_len(self.values@, self.keys@);
        assert(self.state().entries.dom() =~= self.values@.dom());
    }

    /// A store without entries, with its counter at zero.
    pub(super) fn new() -> (store: Store)
        ensures
            store.inv(),
            store.state() == CacheState::empty(),
    {
        let store = Store {
            values: StringHashMap::new(),
            keys: Vec::new(),
            since_sweep: 0,
            hits: Ghost(0),
        };
        assert(store.state().entries =~= Map::empty());
        store
    }

    /// The number of entries, stale ones included.
    pub(super) fn len(&self) -> (n: usize)
        requires
            self.inv(),
        ensures
            n == self.state().entries.len(),
    {
        proof {
            lemma_indexed_len(self.values@, self.keys@);
            assert(self.state().entries.dom() =~= self.values@.dom());
        }
        self.keys.len()
    }

    /// The value under `key`, live or stale.
    pub(super) fn stored(&self, key: &str) -> (value: Option<String>)
        ensures
            value_view(value) == self.state().peek(key@),
    {
        match self.values.get(key) {
            Some(entry) => Some(entry.value.clone()),
            None => None,
        }
    }

    /// The value under `key` if its entry is live at `now`.
    pub(super) fn lookup(&self, key: &str, now: u64) -> (value: Option<String>)
        ensures
            value_view(value) == self.state().lookup(key@, now as nat),
    {
        match self.values.get(key) {
            Some(entry) => if entry.is_live(now) {
                Some(entry.value.clone())
            } else {
                None
            },
            None => None,
        }
    }

    /// Sets the counter to `hits`.
    pub(super) fn set_hits(&mut self, hits: u64)
        requires
            old(self).inv(),
        ensures
            final(self).inv(),
            final(self).state() == (CacheState {
                entries: old(self).state().entries,
                hits: hits as nat,
            }),
    {
        self.since_sweep = hits % SWEEP_INTERVAL;
        self.hits = Ghost(hits as nat);
    }

    /// One resolve at `now`. The empty key is turned down and nothing changes.
    /// Any other call is counted; it sweeps if the sweep is due, and answers
    /// with the live value under `key`, or else stores `value` there and
    /// answers with it.
    pub(super) fn resolve(&mut self, key: &str, value: &str, ttl: u64, now: u64) -> (answer: Result<
        String,
        CacheError,
    >)
        requires
            old(self).inv(),
        ensures
            final(self).inv(),
            final(self).state() == old(self).state().after(key@, value@, ttl as nat, now as nat),
            answer_view(answer) == old(self).state().answer(key@, value@, now as nat),
    {
        if key.is_empty() {
            return Err(CacheError::EmptyKey);
        }
        let ghost before = self.state();
        self.since_sweep = if self.since_sweep + 1 == SWEEP_INTERVAL {
            0
        } else {
            self.since_sweep + 1
        };
        self.hits = Ghost(self.hits@ + 1);
        assert(self.since_sweep == self.hits@ % (SWEEP_INTERVAL as nat));
        if self.since_sweep == 0 {
            sweep(&mut self.values, &mut self.keys, now);
        }
        let ghost swept = self.values@;
        proof {
            if self.since_sweep == 0 {
                assert(entries_of(swept) == live_entries(before.entries, now as nat));
            } else {
                assert(entries_of(swept) == before.entries);
            }
            assert(entries_of(swept).contains_key(key@) == swept.contains_key(key@));
            if swept.contains_key(key@) {
                assert(entries_of(swept)[key@] == swept[key@].entry());
                assert(before.entries.contains_key(key@));
                assert(entries_of(swept)[key@] == before.entries[key@]);
            }
        }
        let (present, hit) = match self.values.get(key) {
            Some(entry) => (
                true,
                if entry.is_live(now) {
                    Some(entry.value.clone())
                } else {
                    None
                },
            ),
            None => (false, None),
        };
        let answer = match hit {
            Some(stored) => stored,
            None => {
                let entry = CacheValue { value: value.to_owned(), timestamp: now, ttl };
                if present {
                    proof {
                        lemma_indexed_replace(swept, self.keys@, key@, entry);
                    }
                } else {
                    let listed = key.to_owned();
                    proof {
                        lemma_indexed_add(swept, self.keys@, listed, entry);
                    }
                    self.keys.push(listed);
                }
                self.values.insert(key.to_owned(), entry);
                value.to_owned()
            },
        };
        proof {
            assert(entries_of(self.values@) =~= before.resolved(
                key@,
                value@,
                ttl as nat,
                now as nat,
            ).entries);
        }
        Ok(answer)
    }
}

} // verus!
