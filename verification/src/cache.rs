//! A bounded cache in which at most one computation per key is in flight.
//!
//! The cache decides; it never waits. A caller asks for a key and learns
//! whether the value is there, whether it has to compute the value itself,
//! or whether somebody else is computing it already. Whoever computes
//! reports the outcome, and the cache says how many callers were waiting
//! for it. A caller that gives up says so: a computation whose leader is
//! gone is taken over by one of the callers that wait, and goes only when
//! nobody is left. Entries that hold a value are kept in the order of their
//! last use, the least recently used first; an entry that is being computed
//! is never dropped to make room, nor by a sweep.

use vstd::prelude::*;
use crate::model::ComponentKey;

verus! {

/// What the cache knows of one key.
#[derive(Debug, Clone, PartialEq, Eq)]
pub enum Slot<V> {
    /// The value is being computed. `waiters` callers wait for it. A
    /// caller computes it while `led` holds; otherwise the caller that
    /// computed has given up and one of the waiting callers is to take over.
    Pending { waiters: u64, led: bool },
    /// The value, and the time of its last use in milliseconds.
    Cached { value: V, last_access: u64 },
}

/// A key of the cache with what is known of it.
#[derive(Debug, Clone, PartialEq, Eq)]
pub struct Entry<V> {
    pub key: ComponentKey,
    pub slot: Slot<V>,
}

/// The answer to a caller that asks for a key.
#[derive(Debug, Clone, Copy, PartialEq, Eq, Structural)]
pub enum Lookup {
    /// The value is in the cache and is now the most recently used.
    Hit,
    /// The value is not there and nobody computes it: the caller does. This
    /// is also the answer where the caller that computed has given up and
    /// none of the waiting callers has taken over yet.
    Lead,
    /// Somebody computes the value: the caller waits for that outcome.
    Wait,
}

/// The answer to a caller that reports the outcome of a computation.
#[derive(Debug, Clone, Copy, PartialEq, Eq, Structural)]
pub enum Completion {
    /// Nothing was being computed for the key; the cache is unchanged.
    NotPending,
    /// The computation failed: nothing is kept, and the waiting callers
    /// get the error.
    Failed { waiters: u64 },
    /// The value is kept and goes to the waiting callers. Where the cache
    /// was full, the least recently used value has left it.
    Stored { waiters: u64, evicted: Option<ComponentKey> },
}

/// The answer to a caller that gives up the computation it was leading.
#[derive(Debug, Clone, Copy, PartialEq, Eq, Structural)]
pub enum Abandon {
    /// No caller was computing a value for the key; the cache is unchanged.
    NotPending,
    /// Callers are waiting: one of them is to take the computation over.
    Promoted,
    /// Nobody was waiting: the key has left the cache.
    Dropped,
}

/// The answer to a caller that gives up waiting.
#[derive(Debug, Clone, Copy, PartialEq, Eq, Structural)]
pub enum Leave {
    /// Nobody was waiting for the key; the cache is unchanged.
    NotWaiting,
    /// The caller waits no longer.
    Left,
    /// The caller was the last to wait for a computation that nobody
    /// leads: the key has left the cache.
    Dropped,
}

/// Mathematical value of a [`Cache`]: its bounds and its entries, the
/// least recently used first.
pub struct CacheState<V> {
    pub capacity: usize,
    pub time_to_idle: u64,
    pub entries: Seq<Entry<V>>,
}

/// No key occurs twice.
pub open spec fn distinct_keys<V>(entries: Seq<Entry<V>>) -> bool {
    forall|i: int, j: int|
        0 <= i < j < entries.len() ==> (#[trigger] entries[i]).key != (#[trigger] entries[j]).key
}

/// The key has an entry.
pub open spec fn holds<V>(entries: Seq<Entry<V>>, key: ComponentKey) -> bool {
    exists|i: int| 0 <= i < entries.len() && (#[trigger] entries[i]).key == key
}

/// The place of the entry of a key that has one.
pub open spec fn index_of<V>(entries: Seq<Entry<V>>, key: ComponentKey) -> int {
    choose|i: int| 0 <= i < entries.len() && (#[trigger] entries[i]).key == key
}

/// The value of the key is being computed.
pub open spec fn is_pending<V>(entries: Seq<Entry<V>>, key: ComponentKey) -> bool {
    holds(entries, key) && entries[index_of(entries, key)].slot is Pending
}

/// A caller computes the value of the key.
pub open spec fn is_led<V>(entries: Seq<Entry<V>>, key: ComponentKey) -> bool {
    is_pending(entries, key) && entries[index_of(entries, key)].slot->led
}

/// Somebody answers for each computation: a caller computes the value, or
/// callers wait of whom one is to take over.
pub open spec fn answered_for<V>(entries: Seq<Entry<V>>) -> bool {
    forall|i: int| 0 <= i < entries.len() ==> entry_answered(#[trigger] entries[i])
}

/// Somebody answers for the entry if it is a computation.
pub open spec fn entry_answered<V>(e: Entry<V>) -> bool {
    e.slot is Pending ==> e.slot->led || e.slot->waiters > 0
}

/// The value of the key is in the cache.
pub open spec fn is_cached<V>(entries: Seq<Entry<V>>, key: ComponentKey) -> bool {
    holds(entries, key) && entries[index_of(entries, key)].slot is Cached
}

/// The number of entries that hold a value.
pub open spec fn cached_count<V>(entries: Seq<Entry<V>>) -> nat
    decreases entries.len(),
{
    if entries.len() == 0 {
        0
    } else {
        cached_count(entries.drop_last()) + if entries.last().slot is Cached {
            1nat
        } else {
            0nat
        }
    }
}

/// The place of the first entry that holds a value, which is the least
/// recently used one; the number of entries where none holds a value.
pub open spec fn first_cached<V>(entries: Seq<Entry<V>>) -> int
    decreases entries.len(),
{
    if entries.len() == 0 {
        0
    } else {
        let before = first_cached(entries.drop_last());
        if before < entries.len() - 1 {
            before
        } else if entries.last().slot is Cached {
            entries.len() - 1
        } else {
            entries.len() as int
        }
    }
}

/// The number of waiting callers after one more has come.
pub open spec fn one_more(waiters: u64) -> u64 {
    if waiters < u64::MAX {
        (waiters + 1) as u64
    } else {
        waiters
    }
}

/// An entry has not been used for longer than the cache keeps idle values.
pub open spec fn expired<V>(e: Entry<V>, time_to_idle: u64, now: u64) -> bool {
    e.slot matches Slot::Cached { last_access, .. } && last_access + time_to_idle < now
}

/// The entries that a sweep at the given time keeps, in their order.
pub open spec fn live_entries<V>(entries: Seq<Entry<V>>, time_to_idle: u64, now: u64) -> Seq<
    Entry<V>,
>
    decreases entries.len(),
{
    if entries.len() == 0 {
        entries
    } else {
        let before = live_entries(entries.drop_last(), time_to_idle, now);
        if expired(entries.last(), time_to_idle, now) {
            before
        } else {
            before.push(entries.last())
        }
    }
}

impl<V> CacheState<V> {
    /// The state is one that a cache can be in: no key occurs twice, no
    /// more values are held than the cache has room for, and no computation
    /// is orphaned.
    pub open spec fn wf(self) -> bool {
        &&& distinct_keys(self.entries)
        &&& cached_count(self.entries) <= self.capacity
        &&& answered_for(self.entries)
    }

    /// The same cache with other entries.
    pub open spec fn with(self, entries: Seq<Entry<V>>) -> CacheState<V> {
        CacheState { capacity: self.capacity, time_to_idle: self.time_to_idle, entries }
    }
}

/// An entry for a value that is being computed.
pub open spec fn pending<V>(key: ComponentKey, waiters: u64, led: bool) -> Entry<V> {
    Entry { key, slot: Slot::Pending { waiters, led } }
}

/// An entry for a value that was last used at the given time.
pub open spec fn cached<V>(key: ComponentKey, value: V, last_access: u64) -> Entry<V> {
    Entry { key, slot: Slot::Cached { value, last_access } }
}

/// A caller asks for a key at the given time.
pub open spec fn request_step<V>(s: CacheState<V>, key: ComponentKey, now: u64) -> (
    CacheState<V>,
    Lookup,
) {
    if !holds(s.entries, key) {
        (s.with(s.entries.push(pending(key, 0, true))), Lookup::Lead)
    } else {
        let i = index_of(s.entries, key);
        match s.entries[i].slot {
            Slot::Pending { waiters, led } => if led {
                (s.with(s.entries.update(i, pending(key, one_more(waiters), true))), Lookup::Wait)
            } else {
                (s.with(s.entries.update(i, pending(key, waiters, true))), Lookup::Lead)
            },
            Slot::Cached { value, last_access } => (
                s.with(s.entries.remove(i).push(cached(key, value, now))),
                Lookup::Hit,
            ),
        }
    }
}

/// The entries after a value has been added at the end: where that is one
/// value too many, the least recently used one goes.
pub open spec fn make_room<V>(entries: Seq<Entry<V>>, capacity: usize) -> (
    Seq<Entry<V>>,
    Option<ComponentKey>,
) {
    if cached_count(entries) > capacity {
        let victim = first_cached(entries);
        (entries.remove(victim), Some(entries[victim].key))
    } else {
        (entries, None)
    }
}

/// The caller that computed the value of a key reports the outcome at the
/// given time: the value, or nothing where the computation failed.
pub open spec fn complete_step<V>(
    s: CacheState<V>,
    key: ComponentKey,
    outcome: Option<V>,
    now: u64,
) -> (CacheState<V>, Completion) {
    if !is_led(s.entries, key) {
        (s, Completion::NotPending)
    } else {
        let i = index_of(s.entries, key);
        let waiters = s.entries[i].slot->waiters;
        match outcome {
            None => (s.with(s.entries.remove(i)), Completion::Failed { waiters }),
            Some(value) => {
                let stored = s.entries.remove(i).push(cached(key, value, now));
                let (kept, evicted) = make_room(stored, s.capacity);
                (s.with(kept), Completion::Stored { waiters, evicted })
            },
        }
    }
}

/// The caller that was computing the value of a key gives up. Where
/// callers wait, the computation stays, without a leader, until one of them
/// takes it over.
pub open spec fn abandon_step<V>(s: CacheState<V>, key: ComponentKey) -> (CacheState<V>, Abandon) {
    if !is_led(s.entries, key) {
        (s, Abandon::NotPending)
    } else {
        let i = index_of(s.entries, key);
        let waiters = s.entries[i].slot->waiters;
        if waiters > 0 {
            (s.with(s.entries.update(i, pending(key, waiters, false))), Abandon::Promoted)
        } else {
            (s.with(s.entries.remove(i)), Abandon::Dropped)
        }
    }
}

/// A computation of the key's value is without a leader.
pub open spec fn is_vacant<V>(entries: Seq<Entry<V>>, key: ComponentKey) -> bool {
    is_pending(entries, key) && !entries[index_of(entries, key)].slot->led && entries[index_of(
        entries,
        key,
    )].slot->waiters > 0
}

/// A caller that was waiting for the value of a key offers to take the
/// computation over. The answer says whether it leads from now on, which it
/// does exactly where the computation was without a leader.
pub open spec fn take_over_step<V>(s: CacheState<V>, key: ComponentKey) -> (CacheState<V>, bool) {
    if is_vacant(s.entries, key) {
        let i = index_of(s.entries, key);
        let waiters = s.entries[i].slot->waiters;
        (s.with(s.entries.update(i, pending(key, (waiters - 1) as u64, true))), true)
    } else {
        (s, false)
    }
}

/// A caller that was waiting for the value of a key gives up. Where it was
/// the last to wait for a computation without a leader, the computation
/// goes with it.
pub open spec fn leave_step<V>(s: CacheState<V>, key: ComponentKey) -> (CacheState<V>, Leave) {
    if is_pending(s.entries, key) && s.entries[index_of(s.entries, key)].slot->waiters > 0 {
        let i = index_of(s.entries, key);
        let waiters = s.entries[i].slot->waiters;
        let led = s.entries[i].slot->led;
        if !led && waiters == 1 {
            (s.with(s.entries.remove(i)), Leave::Dropped)
        } else {
            (s.with(s.entries.update(i, pending(key, (waiters - 1) as u64, led))), Leave::Left)
        }
    } else {
        (s, Leave::NotWaiting)
    }
}

/// The values that have been idle for too long at the given time leave
/// the cache. The answer is their number.
pub open spec fn sweep_step<V>(s: CacheState<V>, now: u64) -> (CacheState<V>, nat) {
    let kept = live_entries(s.entries, s.time_to_idle, now);
    (s.with(kept), (s.entries.len() - kept.len()) as nat)
}

/// Where no key occurs twice, the place of a key is the place of any
/// entry that has it.
pub proof fn lemma_index_of<V>(entries: Seq<Entry<V>>, key: ComponentKey, i: int)
    requires
        distinct_keys(entries),
        0 <= i < entries.len(),
        entries[i].key == key,
    ensures
        holds(entries, key),
        index_of(entries, key) == i,
{
    let j = index_of(entries, key);
    assert(0 <= j < entries.len() && entries[j].key == key);
    if j < i {
        assert(entries[j].key != entries[i].key);
    } else if i < j {
        assert(entries[i].key != entries[j].key);
    }
}

/// Adding an entry at the end adds one to the number of values, if the
/// entry holds a value, and nothing otherwise.
pub(crate) proof fn lemma_count_push<V>(entries: Seq<Entry<V>>, e: Entry<V>)
    ensures
        cached_count(entries.push(e)) == cached_count(entries) + if e.slot is Cached {
            1nat
        } else {
            0nat
        },
{
    assert(entries.push(e).drop_last() =~= entries);
}

/// Taking an entry out takes one off the number of values, if the entry
/// holds a value, and nothing otherwise.
pub(crate) proof fn lemma_count_remove<V>(entries: Seq<Entry<V>>, i: int)
    requires
        0 <= i < entries.len(),
    ensures
        cached_count(entries.remove(i)) + (if entries[i].slot is Cached {
            1nat
        } else {
            0nat
        }) == cached_count(entries),
    decreases entries.len(),
{
    if i == entries.len() - 1 {
        assert(entries.remove(i) =~= entries.drop_last());
    } else {
        assert(entries.remove(i).drop_last() =~= entries.drop_last().remove(i));
        assert(entries.remove(i).last() == entries.last());
        lemma_count_remove(entries.drop_last(), i);
    }
}

/// Replacing an entry by one of the same kind keeps the number of values.
pub(crate) proof fn lemma_count_update<V>(entries: Seq<Entry<V>>, i: int, e: Entry<V>)
    requires
        0 <= i < entries.len(),
        e.slot is Cached == entries[i].slot is Cached,
    ensures
        cached_count(entries.update(i, e)) == cached_count(entries),
    decreases entries.len(),
{
    if i == entries.len() - 1 {
        assert(entries.update(i, e).drop_last() =~= entries.drop_last());
    } else {
        assert(entries.update(i, e).drop_last() =~= entries.drop_last().update(i, e));
        lemma_count_update(entries.drop_last(), i, e);
    }
}

/// The first entry that holds a value does hold one, no entry before it
/// does, and there is such an entry whenever there is a value at all.
pub(crate) proof fn lemma_first_cached<V>(entries: Seq<Entry<V>>)
    ensures
        0 <= first_cached(entries) <= entries.len(),
        first_cached(entries) < entries.len() ==> entries[first_cached(entries)].slot is Cached,
        forall|j: int| 0 <= j < first_cached(entries) ==> !((#[trigger] entries[j]).slot is Cached),
        cached_count(entries) > 0 ==> first_cached(entries) < entries.len(),
    decreases entries.len(),
{
    if entries.len() > 0 {
        lemma_first_cached(entries.drop_last());
        assert forall|j: int| 0 <= j < first_cached(entries) implies !((#[trigger] entries[j]).slot
            is Cached) by {
            if j < entries.len() - 1 {
                assert(entries[j] == entries.drop_last()[j]);
            }
        }
    }
}

/// Taking an entry out leaves the keys distinct, removes the key of that
/// entry and leaves the entries of all other keys as they are.
pub(crate) proof fn lemma_remove_keeps_distinct<V>(entries: Seq<Entry<V>>, i: int)
    requires
        distinct_keys(entries),
        0 <= i < entries.len(),
    ensures
        distinct_keys(entries.remove(i)),
        !holds(entries.remove(i), entries[i].key),
        forall|k: ComponentKey|
            k != entries[i].key ==> (holds(entries.remove(i), k) <==> holds(entries, k)),
        forall|k: ComponentKey|
            k != entries[i].key && holds(entries, k) ==> entries.remove(i)[index_of(
                entries.remove(i),
                k,
            )] == entries[index_of(entries, k)],
        answered_for(entries) ==> answered_for(entries.remove(i)),
{
    let r = entries.remove(i);
    if answered_for(entries) {
        assert forall|a: int| 0 <= a < r.len() implies entry_answered(#[trigger] r[a]) by {
            let a0 = if a < i { a } else { a + 1 };
            assert(r[a] == entries[a0]);
        }
    }
    assert forall|a: int, b: int| 0 <= a < b < r.len() implies (#[trigger] r[a]).key != (
    #[trigger] r[b]).key by {
        let a0 = if a < i { a } else { a + 1 };
        let b0 = if b < i { b } else { b + 1 };
        assert(r[a] == entries[a0] && r[b] == entries[b0]);
    }
    if holds(r, entries[i].key) {
        let j = index_of(r, entries[i].key);
        let j0 = if j < i { j } else { j + 1 };
        assert(r[j] == entries[j0]);
        if j0 < i {
            assert(entries[j0].key != entries[i].key);
        } else {
            assert(entries[i].key != entries[j0].key);
        }
    }
    assert forall|k: ComponentKey| k != entries[i].key implies (holds(r, k) <==> holds(
        entries,
        k,
    )) by {
        if holds(r, k) {
            let j = index_of(r, k);
            let j0 = if j < i { j } else { j + 1 };
            assert(r[j] == entries[j0]);
            assert(entries[j0].key == k);
        }
        if holds(entries, k) {
            let j0 = index_of(entries, k);
            let j = if j0 < i { j0 } else { j0 - 1 };
            assert(r[j] == entries[j0]);
            assert(r[j].key == k);
        }
    }
    assert forall|k: ComponentKey| k != entries[i].key && holds(entries, k) implies r[index_of(
        r,
        k,
    )] == entries[index_of(entries, k)] by {
        let j0 = index_of(entries, k);
        let j = if j0 < i { j0 } else { j0 - 1 };
        assert(r[j] == entries[j0]);
        lemma_index_of(r, k, j);
    }
}

/// Adding an entry with a new key at the end leaves the keys distinct and
/// the entries of all other keys as they are.
pub(crate) proof fn lemma_push_keeps_distinct<V>(entries: Seq<Entry<V>>, e: Entry<V>)
    requires
        distinct_keys(entries),
        !holds(entries, e.key),
    ensures
        distinct_keys(entries.push(e)),
        holds(entries.push(e), e.key),
        index_of(entries.push(e), e.key) == entries.len(),
        forall|k: ComponentKey|
            k != e.key ==> (holds(entries.push(e), k) <==> holds(entries, k)),
        forall|k: ComponentKey|
            k != e.key && holds(entries, k) ==> entries.push(e)[index_of(entries.push(e), k)]
                == entries[index_of(entries, k)],
        answered_for(entries) && entry_answered(e) ==> answered_for(entries.push(e)),
{
    let p = entries.push(e);
    if answered_for(entries) && entry_answered(e) {
        assert forall|a: int| 0 <= a < p.len() implies entry_answered(#[trigger] p[a]) by {
            if a < entries.len() {
                assert(p[a] == entries[a]);
            }
        }
    }
    assert forall|a: int, b: int| 0 <= a < b < p.len() implies (#[trigger] p[a]).key != (
    #[trigger] p[b]).key by {
        assert(p[a] == entries[a]);
        if b < entries.len() {
            assert(p[b] == entries[b]);
        }
    }
    assert(p[entries.len() as int].key == e.key);
    lemma_index_of(p, e.key, entries.len() as int);
    assert forall|k: ComponentKey| k != e.key implies (holds(p, k) <==> holds(entries, k)) by {
        if holds(p, k) {
            let j = index_of(p, k);
            assert(p[j] == entries[j]);
            assert(entries[j].key == k);
        }
        if holds(entries, k) {
            let j = index_of(entries, k);
            assert(p[j] == entries[j]);
            assert(p[j].key == k);
        }
    }
    assert forall|k: ComponentKey| k != e.key && holds(entries, k) implies p[index_of(p, k)]
        == entries[index_of(entries, k)] by {
        let j = index_of(entries, k);
        assert(p[j] == entries[j]);
        lemma_index_of(p, k, j);
    }
}

/// Replacing an entry by one with the same key leaves the keys distinct
/// and the entries of all other keys as they are.
pub(crate) proof fn lemma_update_keeps_distinct<V>(entries: Seq<Entry<V>>, i: int, e: Entry<V>)
    requires
        distinct_keys(entries),
        0 <= i < entries.len(),
        e.key == entries[i].key,
    ensures
        distinct_keys(entries.update(i, e)),
        holds(entries.update(i, e), e.key),
        index_of(entries.update(i, e), e.key) == i,
        forall|k: ComponentKey|
            k != e.key ==> (holds(entries.update(i, e), k) <==> holds(entries, k)),
        forall|k: ComponentKey|
            k != e.key && holds(entries, k) ==> entries.update(i, e)[index_of(
                entries.update(i, e),
                k,
            )] == entries[index_of(entries, k)],
        answered_for(entries) && entry_answered(e) ==> answered_for(entries.update(i, e)),
{
    let u = entries.update(i, e);
    if answered_for(entries) && entry_answered(e) {
        assert forall|a: int| 0 <= a < u.len() implies entry_answered(#[trigger] u[a]) by {
            if a != i {
                assert(u[a] == entries[a]);
            }
        }
    }
    assert forall|a: int, b: int| 0 <= a < b < u.len() implies (#[trigger] u[a]).key != (
    #[trigger] u[b]).key by {
        assert(u[a].key == entries[a].key);
        assert(u[b].key == entries[b].key);
    }
    assert(u[i].key == e.key);
    lemma_index_of(u, e.key, i);
    assert forall|k: ComponentKey| k != e.key implies (holds(u, k) <==> holds(entries, k)) by {
        if holds(u, k) {
            let j = index_of(u, k);
            assert(u[j].key == entries[j].key);
        }
        if holds(entries, k) {
            let j = index_of(entries, k);
            assert(u[j].key == entries[j].key);
        }
    }
    assert forall|k: ComponentKey| k != e.key && holds(entries, k) implies u[index_of(u, k)]
        == entries[index_of(entries, k)] by {
        let j = index_of(entries, k);
        assert(u[j] == entries[j]);
        lemma_index_of(u, k, j);
    }
}

/// What a sweep keeps: exactly the entries that have not been idle for too
/// long, each once and in their order, so that the keys stay distinct and
/// the number of values does not grow.
pub(crate) proof fn lemma_live_entries<V>(entries: Seq<Entry<V>>, time_to_idle: u64, now: u64)
    ensures
        live_entries(entries, time_to_idle, now).len() <= entries.len(),
        cached_count(live_entries(entries, time_to_idle, now)) <= cached_count(entries),
        forall|j: int|
            0 <= j < live_entries(entries, time_to_idle, now).len() ==> exists|i: int|
                0 <= i < entries.len() && (#[trigger] entries[i]) == (#[trigger] live_entries(
                    entries,
                    time_to_idle,
                    now,
                )[j]) && !expired(entries[i], time_to_idle, now),
        forall|i: int|
            0 <= i < entries.len() && !expired(#[trigger] entries[i], time_to_idle, now)
                ==> exists|j: int|
                0 <= j < live_entries(entries, time_to_idle, now).len() && (#[trigger] live_entries(
                    entries,
                    time_to_idle,
                    now,
                )[j]) == entries[i],
        distinct_keys(entries) ==> distinct_keys(live_entries(entries, time_to_idle, now)),
    decreases entries.len(),
{
    let live = live_entries(entries, time_to_idle, now);
    if entries.len() > 0 {
        let front = entries.drop_last();
        let before = live_entries(front, time_to_idle, now);
        lemma_live_entries(front, time_to_idle, now);
        if !expired(entries.last(), time_to_idle, now) {
            lemma_count_push(before, entries.last());
        }
        assert forall|j: int| 0 <= j < live.len() implies exists|i: int|
            0 <= i < entries.len() && (#[trigger] entries[i]) == (#[trigger] live[j]) && !expired(
                entries[i],
                time_to_idle,
                now,
            ) by {
            if j < before.len() {
                assert(live[j] == before[j]);
                let i = choose|i: int|
                    0 <= i < front.len() && (#[trigger] front[i]) == before[j] && !expired(
                        front[i],
                        time_to_idle,
                        now,
                    );
                assert(entries[i] == front[i]);
            } else {
                assert(live[j] == entries[entries.len() - 1]);
            }
        }
        assert forall|i: int|
            0 <= i < entries.len() && !expired(
                #[trigger] entries[i],
                time_to_idle,
                now,
            ) implies exists|j: int| 0 <= j < live.len() && (#[trigger] live[j]) == entries[i] by {
            if i < front.len() {
                assert(entries[i] == front[i]);
                let j = choose|j: int| 0 <= j < before.len() && (#[trigger] before[j]) == front[i];
                assert(live[j] == before[j]);
            } else {
                assert(live[live.len() - 1] == entries[i]);
            }
        }
        if distinct_keys(entries) {
            assert(distinct_keys(front)) by {
                assert forall|a: int, b: int| 0 <= a < b < front.len() implies (
                #[trigger] front[a]).key != (#[trigger] front[b]).key by {
                    assert(front[a] == entries[a] && front[b] == entries[b]);
                }
            }
            assert forall|a: int, b: int| 0 <= a < b < live.len() implies (#[trigger] live[a]).key
                != (#[trigger] live[b]).key by {
                if b < before.len() {
                    assert(live[a] == before[a] && live[b] == before[b]);
                } else {
                    assert(live[a] == before[a]);
                    let i = choose|i: int|
                        0 <= i < front.len() && (#[trigger] front[i]) == before[a] && !expired(
                            front[i],
                            time_to_idle,
                            now,
                        );
                    assert(entries[i] == front[i]);
                    assert(entries[i].key != entries[entries.len() - 1].key);
                }
            }
        }
    }
}

/// A sweep orphans no computation.
pub(crate) proof fn lemma_live_entries_answered<V>(
    entries: Seq<Entry<V>>,
    time_to_idle: u64,
    now: u64,
)
    requires
        answered_for(entries),
    ensures
        answered_for(live_entries(entries, time_to_idle, now)),
{
    let live = live_entries(entries, time_to_idle, now);
    lemma_live_entries(entries, time_to_idle, now);
    assert forall|a: int| 0 <= a < live.len() implies entry_answered(#[trigger] live[a]) by {
        let i = choose|i: int|
            0 <= i < entries.len() && (#[trigger] entries[i]) == live[a] && !expired(
                entries[i],
                time_to_idle,
                now,
            );
        assert(entry_answered(entries[i]));
    }
}

/// A bounded cache in which at most one computation per key is in flight.
#[derive(Debug)]
pub struct Cache<V> {
    capacity: usize,
    time_to_idle: u64,
    entries: Vec<Entry<V>>,
}

impl<V> View for Cache<V> {
    type V = CacheState<V>;

    closed spec fn view(&self) -> CacheState<V> {
        CacheState {
            capacity: self.capacity,
            time_to_idle: self.time_to_idle,
            entries: self.entries@,
        }
    }
}

fn entry_expired<V>(e: &Entry<V>, time_to_idle: u64, now: u64) -> (r: bool)
    ensures
        r == expired(*e, time_to_idle, now),
{
    match &e.slot {
        Slot::Pending { .. } => false,
        Slot::Cached { last_access, .. } => match last_access.checked_add(time_to_idle) {
            Some(t) => t < now,
            None => false,
        },
    }
}

impl<V> Cache<V> {
    /// The cache is in a state that it can be in. Every cache that this
    /// module hands out is.
    pub open spec fn wf(&self) -> bool {
        self@.wf()
    }

    /// An empty cache with room for `capacity` values, which keeps a value
    /// that nobody uses for `time_to_idle` milliseconds.
    pub fn new(capacity: usize, time_to_idle: u64) -> (r: Self)
        ensures
            r@ == (CacheState::<V> { capacity, time_to_idle, entries: Seq::empty() }),
            r.wf(),
    {
        Cache { capacity, time_to_idle, entries: Vec::new() }
    }

    /// The number of values that the cache has room for.
    pub fn capacity(&self) -> (r: usize)
        ensures
            r == self@.capacity,
    {
        self.capacity
    }

    /// For how many milliseconds the cache keeps a value that nobody uses.
    pub fn time_to_idle(&self) -> (r: u64)
        ensures
            r == self@.time_to_idle,
    {
        self.time_to_idle
    }

    fn locate(&self, key: &ComponentKey) -> (r: Option<usize>)
        ensures
            match r {
                Some(i) => i < self@.entries.len() && self@.entries[i as int].key == *key,
                None => !holds(self@.entries, *key),
            },
    {
        let mut i: usize = 0;
        while i < self.entries.len()
            invariant
                i <= self.entries.len(),
                forall|j: int| 0 <= j < i ==> (#[trigger] self.entries@[j]).key != *key,
            decreases self.entries.len() - i,
        {
            if self.entries[i].key == *key {
                return Some(i);
            }
            i = i + 1;
        }
        None
    }

    /// The number of values in the cache.
    pub fn len(&self) -> (r: usize)
        ensures
            r == cached_count(self@.entries),
    {
        let mut n: usize = 0;
        let mut i: usize = 0;
        while i < self.entries.len()
            invariant
                i <= self.entries.len(),
                n <= i,
                n == cached_count(self.entries@.take(i as int)),
            decreases self.entries.len() - i,
        {
            proof {
                assert(self.entries@.take(i + 1).drop_last() =~= self.entries@.take(i as int));
            }
            match &self.entries[i].slot {
                Slot::Cached { .. } => {
                    n = n + 1;
                },
                Slot::Pending { .. } => {},
            }
            i = i + 1;
        }
        proof {
            assert(self.entries@.take(self.entries@.len() as int) =~= self.entries@);
        }
        n
    }

    fn oldest_value(&self) -> (r: usize)
        ensures
            r == first_cached(self@.entries),
    {
        let mut i: usize = 0;
        while i < self.entries.len()
            invariant
                i <= self.entries.len(),
                first_cached(self.entries@.take(i as int)) == i,
            decreases self.entries.len() - i,
        {
            proof {
                assert(self.entries@.take(i + 1).drop_last() =~= self.entries@.take(i as int));
            }
            match &self.entries[i].slot {
                Slot::Cached { .. } => {
                    proof {
                        Self::lemma_first_cached_extends(self.entries@, i + 1);
                    }
                    return i;
                },
                Slot::Pending { .. } => {},
            }
            i = i + 1;
        }
        proof {
            assert(self.entries@.take(self.entries@.len() as int) =~= self.entries@);
        }
        i
    }

    proof fn lemma_first_cached_extends(entries: Seq<Entry<V>>, n: int)
        requires
            0 <= n <= entries.len(),
            first_cached(entries.take(n)) < n,
        ensures
            first_cached(entries) == first_cached(entries.take(n)),
        decreases entries.len() - n,
    {
        if n == entries.len() {
            assert(entries.take(n) =~= entries);
        } else {
            assert(entries.drop_last().take(n) =~= entries.take(n));
            Self::lemma_first_cached_extends(entries.drop_last(), n);
        }
    }

    /// Whether the value of a key is in the cache. The order of use is
    /// left as it is.
    pub fn contains(&self, key: &ComponentKey) -> (r: bool)
        requires
            self.wf(),
        ensures
            r == is_cached(self@.entries, *key),
    {
        match self.locate(key) {
            Some(i) => {
                proof {
                    lemma_index_of(self@.entries, *key, i as int);
                }
                match &self.entries[i].slot {
                    Slot::Cached { .. } => true,
                    Slot::Pending { .. } => false,
                }
            },
            None => false,
        }
    }

    /// The value of a key, if it is in the cache. The order of use is
    /// left as it is.
    pub fn get(&self, key: &ComponentKey) -> (r: Option<&V>)
        requires
            self.wf(),
        ensures
            r is Some == is_cached(self@.entries, *key),
            r matches Some(v) ==> self@.entries[index_of(self@.entries, *key)].slot->value == *v,
    {
        match self.locate(key) {
            Some(i) => {
                proof {
                    lemma_index_of(self@.entries, *key, i as int);
                }
                match &self.entries[i].slot {
                    Slot::Cached { value, .. } => Some(value),
                    Slot::Pending { .. } => None,
                }
            },
            None => None,
        }
    }

    /// A caller asks for a key at the given time.
    pub fn request(&mut self, key: ComponentKey, now: u64) -> (r: Lookup)
        requires
            old(self).wf(),
        ensures
            final(self).wf(),
            (final(self)@, r) == request_step(old(self)@, key, now),
    {
        match self.locate(&key) {
            None => {
                proof {
                    lemma_push_keeps_distinct(self@.entries, pending::<V>(key, 0, true));
                    lemma_count_push(self@.entries, pending::<V>(key, 0, true));
                }
                self.entries.push(Entry { key, slot: Slot::Pending { waiters: 0, led: true } });
                Lookup::Lead
            },
            Some(i) => {
                proof {
                    lemma_index_of(self@.entries, key, i as int);
                }
                let entry = self.entries.remove(i);
                proof {
                    lemma_remove_keeps_distinct(old(self)@.entries, i as int);
                    lemma_count_remove(old(self)@.entries, i as int);
                }
                match entry.slot {
                    Slot::Pending { waiters, led } => {
                        let more = if led && waiters < u64::MAX {
                            waiters + 1
                        } else {
                            waiters
                        };
                        let updated = Entry { key, slot: Slot::Pending { waiters: more, led: true } };
                        self.entries.insert(i, updated);
                        proof {
                            assert(self@.entries =~= old(self)@.entries.update(i as int, updated));
                            lemma_update_keeps_distinct(old(self)@.entries, i as int, updated);
                            lemma_count_update(old(self)@.entries, i as int, updated);
                        }
                        if led {
                            Lookup::Wait
                        } else {
                            Lookup::Lead
                        }
                    },
                    Slot::Cached { value, .. } => {
                        let touched = Entry { key, slot: Slot::Cached { value, last_access: now } };
                        proof {
                            lemma_push_keeps_distinct(self@.entries, touched);
                            lemma_count_push(self@.entries, touched);
                        }
                        self.entries.push(touched);
                        Lookup::Hit
                    },
                }
            },
        }
    }

    /// Where the value of the key is being computed: the place of its
    /// entry, the number of callers that wait, and whether a caller leads.
    fn locate_pending(&self, key: &ComponentKey) -> (r: Option<(usize, u64, bool)>)
        requires
            self.wf(),
        ensures
            match r {
                Some((i, waiters, led)) => {
                    &&& is_pending(self@.entries, *key)
                    &&& i == index_of(self@.entries, *key)
                    &&& i < self@.entries.len()
                    &&& self@.entries[i as int].slot == (Slot::<V>::Pending { waiters, led })
                },
                None => !is_pending(self@.entries, *key),
            },
    {
        match self.locate(key) {
            Some(i) => {
                proof {
                    lemma_index_of(self@.entries, *key, i as int);
                }
                match &self.entries[i].slot {
                    Slot::Pending { waiters, led } => Some((i, *waiters, *led)),
                    Slot::Cached { .. } => None,
                }
            },
            None => None,
        }
    }

    /// Puts an entry in the place of the entry of the same key.
    fn replace(&mut self, i: usize, updated: Entry<V>)
        requires
            old(self).wf(),
            i < old(self)@.entries.len(),
            old(self)@.entries[i as int].key == updated.key,
            old(self)@.entries[i as int].slot is Pending,
            updated.slot is Pending,
            entry_answered(updated),
        ensures
            final(self).wf(),
            final(self)@ == old(self)@.with(old(self)@.entries.update(i as int, updated)),
    {
        let _ = self.entries.remove(i);
        self.entries.insert(i, updated);
        proof {
            assert(self@.entries =~= old(self)@.entries.update(i as int, updated));
            lemma_update_keeps_distinct(old(self)@.entries, i as int, updated);
            lemma_count_update(old(self)@.entries, i as int, updated);
        }
    }

    /// Takes the entry of a computation out.
    fn take_out(&mut self, i: usize)
        requires
            old(self).wf(),
            i < old(self)@.entries.len(),
            old(self)@.entries[i as int].slot is Pending,
        ensures
            final(self).wf(),
            final(self)@ == old(self)@.with(old(self)@.entries.remove(i as int)),
    {
        let _ = self.entries.remove(i);
        proof {
            lemma_remove_keeps_distinct(old(self)@.entries, i as int);
            lemma_count_remove(old(self)@.entries, i as int);
        }
    }

    /// The caller that computed the value of a key reports the outcome at
    /// the given time: the value, or nothing where the computation failed.
    pub fn complete(&mut self, key: ComponentKey, outcome: Option<V>, now: u64) -> (r: Completion)
        requires
            old(self).wf(),
        ensures
            final(self).wf(),
            (final(self)@, r) == complete_step(old(self)@, key, outcome, now),
    {
        let (i, waiters) = match self.locate_pending(&key) {
            Some((i, waiters, true)) => (i, waiters),
            _ => {
                return Completion::NotPending;
            },
        };
        self.take_out(i);
        match outcome {
            None => Completion::Failed { waiters },
            Some(value) => {
                let stored = Entry { key, slot: Slot::Cached { value, last_access: now } };
                proof {
                    lemma_remove_keeps_distinct(old(self)@.entries, i as int);
                    lemma_push_keeps_distinct(self@.entries, stored);
                    lemma_count_push(self@.entries, stored);
                }
                self.entries.push(stored);
                let ghost full = self@.entries;
                if self.len() > self.capacity {
                    let victim = self.oldest_value();
                    proof {
                        lemma_first_cached(full);
                        lemma_remove_keeps_distinct(full, victim as int);
                        lemma_count_remove(full, victim as int);
                    }
                    let gone = self.entries.remove(victim);
                    Completion::Stored { waiters, evicted: Some(gone.key) }
                } else {
                    Completion::Stored { waiters, evicted: None }
                }
            },
        }
    }

    /// The caller that was computing the value of a key gives up.
    pub fn abandon(&mut self, key: ComponentKey) -> (r: Abandon)
        requires
            old(self).wf(),
        ensures
            final(self).wf(),
            (final(self)@, r) == abandon_step(old(self)@, key),
    {
        let (i, waiters) = match self.locate_pending(&key) {
            Some((i, waiters, true)) => (i, waiters),
            _ => {
                return Abandon::NotPending;
            },
        };
        if waiters > 0 {
            self.replace(i, Entry { key, slot: Slot::Pending { waiters, led: false } });
            Abandon::Promoted
        } else {
            self.take_out(i);
            Abandon::Dropped
        }
    }

    /// A caller that was waiting for the value of a key offers to take the
    /// computation over. The answer says whether it leads from now on.
    pub fn take_over(&mut self, key: ComponentKey) -> (r: bool)
        requires
            old(self).wf(),
        ensures
            final(self).wf(),
            (final(self)@, r) == take_over_step(old(self)@, key),
    {
        match self.locate_pending(&key) {
            Some((i, waiters, false)) => {
                if waiters > 0 {
                    self.replace(
                        i,
                        Entry { key, slot: Slot::Pending { waiters: waiters - 1, led: true } },
                    );
                    true
                } else {
                    false
                }
            },
            _ => false,
        }
    }

    /// A caller that was waiting for the value of a key gives up.
    pub fn leave(&mut self, key: ComponentKey) -> (r: Leave)
        requires
            old(self).wf(),
        ensures
            final(self).wf(),
            (final(self)@, r) == leave_step(old(self)@, key),
    {
        let (i, waiters, led) = match self.locate_pending(&key) {
            Some(found) => found,
            None => {
                return Leave::NotWaiting;
            },
        };
        if waiters == 0 {
            return Leave::NotWaiting;
        }
        if !led && waiters == 1 {
            self.take_out(i);
            Leave::Dropped
        } else {
            self.replace(i, Entry { key, slot: Slot::Pending { waiters: waiters - 1, led } });
            Leave::Left
        }
    }

    /// The values that have been idle for too long at the given time
    /// leave the cache. The answer is their number.
    pub fn sweep(&mut self, now: u64) -> (r: usize)
        requires
            old(self).wf(),
        ensures
            final(self).wf(),
            (final(self)@, r as nat) == sweep_step(old(self)@, now),
    {
        let mut all: Vec<Entry<V>> = Vec::new();
        core::mem::swap(&mut self.entries, &mut all);
        let total = all.len();
        let time_to_idle = self.time_to_idle;
        let mut kept: Vec<Entry<V>> = Vec::new();
        for e in it: all
            invariant
                it.seq() == all@,
                all@ == old(self)@.entries,
                kept@ == live_entries(all@.take(it.index() as int), time_to_idle, now),
        {
            proof {
                let i = it.index() as int;
                assert(all@.take(i + 1).drop_last() =~= all@.take(i));
            }
            if !entry_expired(&e, time_to_idle, now) {
                kept.push(e);
            }
        }
        proof {
            assert(all@.take(all@.len() as int) =~= all@);
            lemma_live_entries(all@, time_to_idle, now);
            lemma_live_entries_answered(all@, time_to_idle, now);
        }
        self.entries = kept;
        total - self.entries.len()
    }
}

} // verus!
