//! What holds of the cache whatever its callers do.

use vstd::prelude::*;
use crate::cache::{
    abandon_step, cached, cached_count, complete_step, expired, first_cached, holds, index_of,
    is_cached, is_led, is_pending, is_vacant, leave_step, lemma_count_push, lemma_count_remove,
    lemma_count_update, lemma_first_cached, lemma_index_of, lemma_live_entries,
    lemma_live_entries_answered,
    lemma_push_keeps_distinct, lemma_remove_keeps_distinct, lemma_update_keeps_distinct,
    live_entries, one_more, pending, request_step, sweep_step, take_over_step, Abandon,
    CacheState, Completion, Entry, Leave, Lookup, Slot,
};
use crate::model::ComponentKey;

verus! {

/// Something that a caller of the cache does.
pub enum Event<V> {
    /// A caller asks for a key.
    Request { key: ComponentKey, now: u64 },
    /// The caller that computed a value reports the outcome.
    Complete { key: ComponentKey, outcome: Option<V>, now: u64 },
    /// The caller that was computing a value gives up.
    Abandon { key: ComponentKey },
    /// A caller that was waiting offers to take a computation over.
    TakeOver { key: ComponentKey },
    /// A caller that was waiting gives up.
    Leave { key: ComponentKey },
    /// The values that have been idle for too long are dropped.
    Sweep { now: u64 },
}

/// The cache after an event.
pub open spec fn step<V>(s: CacheState<V>, event: Event<V>) -> CacheState<V> {
    match event {
        Event::Request { key, now } => request_step(s, key, now).0,
        Event::Complete { key, outcome, now } => complete_step(s, key, outcome, now).0,
        Event::Abandon { key } => abandon_step(s, key).0,
        Event::TakeOver { key } => take_over_step(s, key).0,
        Event::Leave { key } => leave_step(s, key).0,
        Event::Sweep { now } => sweep_step(s, now).0,
    }
}

/// The key that an event is about; none for a sweep.
pub open spec fn event_key<V>(event: Event<V>) -> Option<ComponentKey> {
    match event {
        Event::Request { key, .. } => Some(key),
        Event::Complete { key, .. } => Some(key),
        Event::Abandon { key } => Some(key),
        Event::TakeOver { key } => Some(key),
        Event::Leave { key } => Some(key),
        Event::Sweep { .. } => None,
    }
}

/// The event is a request for the key that finds no value.
pub open spec fn misses<V>(s: CacheState<V>, event: Event<V>, key: ComponentKey) -> bool {
    event matches Event::Request { key: k, now } && k == key && request_step(s, k, now).1
        != Lookup::Hit
}

/// The event makes a caller compute the value of the key: a request that
/// is told to compute, or a waiting caller that takes a computation over.
pub open spec fn starts_computation<V>(
    s: CacheState<V>,
    event: Event<V>,
    key: ComponentKey,
) -> bool {
    match event {
        Event::Request { key: k, now } => k == key && request_step(s, k, now).1 == Lookup::Lead,
        Event::TakeOver { key: k } => k == key && take_over_step(s, k).1,
        _ => false,
    }
}

/// The event ends the work of the caller that computes the key's value:
/// the outcome is reported, or the caller gives up.
pub open spec fn ends_computation<V>(event: Event<V>, key: ComponentKey) -> bool {
    match event {
        Event::Complete { key: k, .. } => k == key,
        Event::Abandon { key: k } => k == key,
        _ => false,
    }
}

/// The cache after a series of events.
pub open spec fn run<V>(s: CacheState<V>, events: Seq<Event<V>>) -> CacheState<V>
    decreases events.len(),
{
    if events.len() == 0 {
        s
    } else {
        run(step(s, events[0]), events.drop_first())
    }
}

/// How often, in a series of events, a caller starts to compute the value
/// of the key.
pub open spec fn computations_started<V>(
    s: CacheState<V>,
    events: Seq<Event<V>>,
    key: ComponentKey,
) -> nat
    decreases events.len(),
{
    if events.len() == 0 {
        0
    } else {
        (if starts_computation(s, events[0], key) {
            1nat
        } else {
            0nat
        }) + computations_started(step(s, events[0]), events.drop_first(), key)
    }
}

/// How many requests of a series for the key find no value.
pub open spec fn miss_count<V>(s: CacheState<V>, events: Seq<Event<V>>, key: ComponentKey) -> nat
    decreases events.len(),
{
    if events.len() == 0 {
        0
    } else {
        (if misses(s, events[0], key) {
            1nat
        } else {
            0nat
        }) + miss_count(step(s, events[0]), events.drop_first(), key)
    }
}

/// The number of callers that wait for the value of a key.
pub open spec fn waiters_of<V>(entries: Seq<Entry<V>>, key: ComponentKey) -> nat {
    if is_pending(entries, key) {
        entries[index_of(entries, key)].slot->waiters as nat
    } else {
        0
    }
}

/// What is known of two states in which a key has the same entry, or none
/// in both.
pub open spec fn same_computation<V>(
    before: Seq<Entry<V>>,
    after: Seq<Entry<V>>,
    key: ComponentKey,
) -> bool {
    &&& is_pending(after, key) == is_pending(before, key)
    &&& is_led(after, key) == is_led(before, key)
    &&& is_vacant(after, key) == is_vacant(before, key)
    &&& waiters_of(after, key) == waiters_of(before, key)
}

/// What a request does to the cache and to the key that it asks for.
pub proof fn lemma_request<V>(s: CacheState<V>, key: ComponentKey, now: u64)
    requires
        s.wf(),
    ensures
        ({
            let (after, answer) = request_step(s, key, now);
            &&& after.wf()
            &&& answer == Lookup::Hit <==> is_cached(s.entries, key)
            &&& answer == Lookup::Wait <==> is_led(s.entries, key)
            &&& answer == Lookup::Lead <==> !is_cached(s.entries, key) && !is_led(s.entries, key)
            &&& answer == Lookup::Hit ==> is_cached(after.entries, key)
            &&& answer != Lookup::Hit ==> is_led(after.entries, key)
            &&& answer == Lookup::Lead ==> waiters_of(after.entries, key) == waiters_of(
                s.entries,
                key,
            )
            &&& answer == Lookup::Wait ==> waiters_of(after.entries, key) == one_more(
                waiters_of(s.entries, key) as u64,
            )
            &&& answer == Lookup::Hit ==> waiters_of(after.entries, key) == 0
        }),
{
    if !holds(s.entries, key) {
        let e = pending::<V>(key, 0, true);
        lemma_push_keeps_distinct(s.entries, e);
        lemma_count_push(s.entries, e);
    } else {
        let i = index_of(s.entries, key);
        match s.entries[i].slot {
            Slot::Pending { waiters, led } => {
                let e = if led {
                    pending::<V>(key, one_more(waiters), true)
                } else {
                    pending::<V>(key, waiters, true)
                };
                lemma_update_keeps_distinct(s.entries, i, e);
                lemma_count_update(s.entries, i, e);
            },
            Slot::Cached { value, last_access } => {
                let e = cached(key, value, now);
                lemma_remove_keeps_distinct(s.entries, i);
                lemma_count_remove(s.entries, i);
                lemma_push_keeps_distinct(s.entries.remove(i), e);
                lemma_count_push(s.entries.remove(i), e);
            },
        }
    }
}

/// What a reported outcome does to the cache and to the key that it is
/// about: the computation is over, and the cache holds no more values than
/// it has room for.
pub proof fn lemma_complete<V>(s: CacheState<V>, key: ComponentKey, outcome: Option<V>, now: u64)
    requires
        s.wf(),
    ensures
        ({
            let (after, answer) = complete_step(s, key, outcome, now);
            &&& after.wf()
            &&& answer is NotPending <==> !is_led(s.entries, key)
            &&& answer is NotPending ==> after == s
            &&& !(answer is NotPending) ==> !is_pending(after.entries, key)
            &&& answer is Failed <==> is_led(s.entries, key) && outcome is None
            &&& answer is Failed ==> !holds(after.entries, key)
            &&& answer matches Completion::Failed { waiters } ==> waiters == waiters_of(
                s.entries,
                key,
            )
            &&& answer matches Completion::Stored { waiters, .. } ==> waiters == waiters_of(
                s.entries,
                key,
            )
            &&& answer matches Completion::Stored { evicted, .. } ==> (evicted matches Some(
                victim,
            ) ==> !holds(after.entries, victim))
        }),
{
    if is_led(s.entries, key) {
        let i = index_of(s.entries, key);
        let rest = s.entries.remove(i);
        lemma_remove_keeps_distinct(s.entries, i);
        lemma_count_remove(s.entries, i);
        match outcome {
            None => {},
            Some(value) => {
                let e = cached(key, value, now);
                let stored = rest.push(e);
                lemma_push_keeps_distinct(rest, e);
                lemma_count_push(rest, e);
                assert(!is_pending(stored, key));
                if cached_count(stored) > s.capacity {
                    let victim = first_cached(stored);
                    lemma_first_cached(stored);
                    lemma_remove_keeps_distinct(stored, victim);
                    lemma_count_remove(stored, victim);
                }
            },
        }
    }
}

/// What giving up a computation does to the cache and to the key: callers
/// that wait keep the computation, which has no leader for now; without
/// them the key leaves the cache.
pub proof fn lemma_abandon<V>(s: CacheState<V>, key: ComponentKey)
    requires
        s.wf(),
    ensures
        ({
            let (after, answer) = abandon_step(s, key);
            &&& after.wf()
            &&& answer is NotPending <==> !is_led(s.entries, key)
            &&& answer is NotPending ==> after == s
            &&& answer is Promoted <==> is_led(s.entries, key) && waiters_of(s.entries, key) > 0
            &&& answer is Promoted ==> is_vacant(after.entries, key) && waiters_of(
                after.entries,
                key,
            ) == waiters_of(s.entries, key)
            &&& answer is Dropped ==> !holds(after.entries, key)
        }),
{
    if is_led(s.entries, key) {
        let i = index_of(s.entries, key);
        let waiters = s.entries[i].slot->waiters;
        if waiters > 0 {
            let e = pending::<V>(key, waiters, false);
            lemma_update_keeps_distinct(s.entries, i, e);
            lemma_count_update(s.entries, i, e);
        } else {
            lemma_remove_keeps_distinct(s.entries, i);
            lemma_count_remove(s.entries, i);
        }
    }
}

/// What an offer to take over does to the cache and to the key: it is
/// taken exactly where the computation had no leader, and one caller less
/// waits then.
pub proof fn lemma_take_over<V>(s: CacheState<V>, key: ComponentKey)
    requires
        s.wf(),
    ensures
        ({
            let (after, answer) = take_over_step(s, key);
            &&& after.wf()
            &&& answer == is_vacant(s.entries, key)
            &&& !answer ==> after == s
            &&& answer ==> is_led(after.entries, key) && waiters_of(after.entries, key)
                == waiters_of(s.entries, key) - 1
        }),
{
    if is_vacant(s.entries, key) {
        let i = index_of(s.entries, key);
        let waiters = s.entries[i].slot->waiters;
        let e = pending::<V>(key, (waiters - 1) as u64, true);
        lemma_update_keeps_distinct(s.entries, i, e);
        lemma_count_update(s.entries, i, e);
    }
}

/// What giving up the wait does to the cache and to the key: one caller
/// less waits, and a computation that is left without anybody leaves the
/// cache.
pub proof fn lemma_leave<V>(s: CacheState<V>, key: ComponentKey)
    requires
        s.wf(),
    ensures
        ({
            let (after, answer) = leave_step(s, key);
            &&& after.wf()
            &&& answer is NotWaiting <==> waiters_of(s.entries, key) == 0
            &&& answer is NotWaiting ==> after == s
            &&& answer is Dropped <==> is_vacant(s.entries, key) && waiters_of(s.entries, key) == 1
            &&& answer is Dropped ==> !holds(after.entries, key)
            &&& answer is Left ==> {
                &&& is_pending(after.entries, key)
                &&& is_led(after.entries, key) == is_led(s.entries, key)
                &&& waiters_of(after.entries, key) == waiters_of(s.entries, key) - 1
            }
        }),
{
    if is_pending(s.entries, key) && s.entries[index_of(s.entries, key)].slot->waiters > 0 {
        let i = index_of(s.entries, key);
        let waiters = s.entries[i].slot->waiters;
        let led = s.entries[i].slot->led;
        if !led && waiters == 1 {
            lemma_remove_keeps_distinct(s.entries, i);
            lemma_count_remove(s.entries, i);
        } else {
            let e = pending::<V>(key, (waiters - 1) as u64, led);
            lemma_update_keeps_distinct(s.entries, i, e);
            lemma_count_update(s.entries, i, e);
        }
    }
}

proof fn lemma_sweep_wf<V>(s: CacheState<V>, now: u64)
    requires
        s.wf(),
    ensures
        sweep_step(s, now).0.wf(),
{
    lemma_live_entries(s.entries, s.time_to_idle, now);
    lemma_live_entries_answered(s.entries, s.time_to_idle, now);
}

proof fn lemma_sweep_keeps_entry<V>(s: CacheState<V>, now: u64, key: ComponentKey)
    requires
        s.wf(),
    ensures
        is_pending(sweep_step(s, now).0.entries, key) == is_pending(s.entries, key),
        is_pending(s.entries, key) ==> sweep_step(s, now).0.entries[index_of(
            sweep_step(s, now).0.entries,
            key,
        )] == s.entries[index_of(s.entries, key)],
{
    let live = live_entries(s.entries, s.time_to_idle, now);
    lemma_live_entries(s.entries, s.time_to_idle, now);
    if is_pending(s.entries, key) {
        let i = index_of(s.entries, key);
        assert(!expired(s.entries[i], s.time_to_idle, now));
        let j = choose|j: int| 0 <= j < live.len() && (#[trigger] live[j]) == s.entries[i];
        lemma_index_of(live, key, j);
    }
    if is_pending(live, key) {
        let j = index_of(live, key);
        let i = choose|i: int|
            0 <= i < s.entries.len() && (#[trigger] s.entries[i]) == live[j] && !expired(
                s.entries[i],
                s.time_to_idle,
                now,
            );
        lemma_index_of(s.entries, key, i);
    }
}

/// What a sweep does to the cache: it stays in a state that it can be in,
/// and every computation stays as it is.
pub proof fn lemma_sweep<V>(s: CacheState<V>, now: u64, key: ComponentKey)
    requires
        s.wf(),
    ensures
        sweep_step(s, now).0.wf(),
        same_computation(s.entries, sweep_step(s, now).0.entries, key),
{
    lemma_sweep_wf(s, now);
    lemma_sweep_keeps_entry(s, now, key);
}

proof fn lemma_request_frame<V>(s: CacheState<V>, k: ComponentKey, now: u64, key: ComponentKey)
    requires
        s.wf(),
        k != key,
    ensures
        same_computation(s.entries, request_step(s, k, now).0.entries, key),
{
    if !holds(s.entries, k) {
        lemma_push_keeps_distinct(s.entries, pending::<V>(k, 0, true));
    } else {
        let j = index_of(s.entries, k);
        match s.entries[j].slot {
            Slot::Pending { waiters, led } => {
                let e = if led {
                    pending::<V>(k, one_more(waiters), true)
                } else {
                    pending::<V>(k, waiters, true)
                };
                lemma_update_keeps_distinct(s.entries, j, e);
            },
            Slot::Cached { value, last_access } => {
                lemma_remove_keeps_distinct(s.entries, j);
                lemma_push_keeps_distinct(s.entries.remove(j), cached(k, value, now));
            },
        }
    }
}

proof fn lemma_complete_frame<V>(
    s: CacheState<V>,
    k: ComponentKey,
    outcome: Option<V>,
    now: u64,
    key: ComponentKey,
)
    requires
        s.wf(),
        k != key,
    ensures
        same_computation(s.entries, complete_step(s, k, outcome, now).0.entries, key),
{
    if is_led(s.entries, k) {
        let j = index_of(s.entries, k);
        let rest = s.entries.remove(j);
        lemma_remove_keeps_distinct(s.entries, j);
        match outcome {
            None => {},
            Some(value) => {
                let stored = rest.push(cached(k, value, now));
                lemma_push_keeps_distinct(rest, cached(k, value, now));
                assert(same_computation(s.entries, stored, key));
                if cached_count(stored) > s.capacity {
                    let victim = first_cached(stored);
                    lemma_first_cached(stored);
                    lemma_remove_keeps_distinct(stored, victim);
                    if stored[victim].key == key {
                        lemma_index_of(stored, key, victim);
                        assert(!is_pending(stored, key));
                    }
                }
            },
        }
    }
}

proof fn lemma_abandon_frame<V>(s: CacheState<V>, k: ComponentKey, key: ComponentKey)
    requires
        s.wf(),
        k != key,
    ensures
        same_computation(s.entries, abandon_step(s, k).0.entries, key),
{
    if is_led(s.entries, k) {
        let j = index_of(s.entries, k);
        let waiters = s.entries[j].slot->waiters;
        if waiters > 0 {
            lemma_update_keeps_distinct(s.entries, j, pending::<V>(k, waiters, false));
        } else {
            lemma_remove_keeps_distinct(s.entries, j);
        }
    }
}

proof fn lemma_take_over_frame<V>(s: CacheState<V>, k: ComponentKey, key: ComponentKey)
    requires
        s.wf(),
        k != key,
    ensures
        same_computation(s.entries, take_over_step(s, k).0.entries, key),
{
    if is_vacant(s.entries, k) {
        let j = index_of(s.entries, k);
        let waiters = s.entries[j].slot->waiters;
        lemma_update_keeps_distinct(s.entries, j, pending::<V>(k, (waiters - 1) as u64, true));
    }
}

proof fn lemma_leave_frame<V>(s: CacheState<V>, k: ComponentKey, key: ComponentKey)
    requires
        s.wf(),
        k != key,
    ensures
        same_computation(s.entries, leave_step(s, k).0.entries, key),
{
    if is_pending(s.entries, k) && s.entries[index_of(s.entries, k)].slot->waiters > 0 {
        let j = index_of(s.entries, k);
        let waiters = s.entries[j].slot->waiters;
        let led = s.entries[j].slot->led;
        if !led && waiters == 1 {
            lemma_remove_keeps_distinct(s.entries, j);
        } else {
            lemma_update_keeps_distinct(s.entries, j, pending::<V>(k, (waiters - 1) as u64, led));
        }
    }
}

/// Whatever happens, the cache stays in a state that it can be in: no key
/// has two entries, no more values are held than there is room for, and no
/// computation is orphaned.
pub proof fn lemma_step_wf<V>(s: CacheState<V>, event: Event<V>)
    requires
        s.wf(),
    ensures
        step(s, event).wf(),
{
    match event {
        Event::Request { key, now } => lemma_request(s, key, now),
        Event::Complete { key, outcome, now } => lemma_complete(s, key, outcome, now),
        Event::Abandon { key } => lemma_abandon(s, key),
        Event::TakeOver { key } => lemma_take_over(s, key),
        Event::Leave { key } => lemma_leave(s, key),
        Event::Sweep { now } => lemma_sweep(s, now, arbitrary()),
    }
}

/// In every state that a cache reaches, no key has two entries, no more
/// values are held than there is room for, and no computation is orphaned.
pub proof fn lemma_run_wf<V>(s: CacheState<V>, events: Seq<Event<V>>)
    requires
        s.wf(),
    ensures
        run(s, events).wf(),
        cached_count(run(s, events).entries) <= s.capacity,
    decreases events.len(),
{
    if events.len() > 0 {
        lemma_step_wf(s, events[0]);
        lemma_run_wf(step(s, events[0]), events.drop_first());
        lemma_step_keeps_bounds(s, events[0]);
    }
}

/// No event changes the bounds of a cache.
pub proof fn lemma_step_keeps_bounds<V>(s: CacheState<V>, event: Event<V>)
    ensures
        step(s, event).capacity == s.capacity,
        step(s, event).time_to_idle == s.time_to_idle,
{
}

/// An event that is about another key, and a sweep, leave a computation
/// and its waiting callers as they are: neither a full cache nor a sweep
/// interrupts a computation.
pub proof fn lemma_other_events_keep_computation<V>(
    s: CacheState<V>,
    event: Event<V>,
    key: ComponentKey,
)
    requires
        s.wf(),
        event_key(event) != Some(key),
    ensures
        same_computation(s.entries, step(s, event).entries, key),
{
    match event {
        Event::Request { key: k, now } => lemma_request_frame(s, k, now, key),
        Event::Complete { key: k, outcome, now } => lemma_complete_frame(s, k, outcome, now, key),
        Event::Abandon { key: k } => lemma_abandon_frame(s, k, key),
        Event::TakeOver { key: k } => lemma_take_over_frame(s, k, key),
        Event::Leave { key: k } => lemma_leave_frame(s, k, key),
        Event::Sweep { now } => lemma_sweep(s, now, key),
    }
}

/// Somebody answers for every computation: a caller computes the value, or
/// the computation is without a leader and a waiting caller can take over.
pub proof fn lemma_never_orphaned<V>(s: CacheState<V>, key: ComponentKey)
    requires
        s.wf(),
        is_pending(s.entries, key),
    ensures
        is_led(s.entries, key) != is_vacant(s.entries, key),
        is_vacant(s.entries, key) ==> take_over_step(s, key).1 && is_led(
            take_over_step(s, key).0.entries,
            key,
        ),
{
    lemma_take_over(s, key);
}

/// While a caller computes the value of a key, every caller that asks for
/// the key is told to wait, and the computation goes on.
pub proof fn lemma_led_key_waits<V>(s: CacheState<V>, key: ComponentKey, now: u64)
    requires
        s.wf(),
        is_led(s.entries, key),
    ensures
        request_step(s, key, now).1 == Lookup::Wait,
        is_led(request_step(s, key, now).0.entries, key),
{
    lemma_request(s, key, now);
}

/// No event but the end of its work takes a computation away from the
/// caller that computes.
pub proof fn lemma_computation_survives<V>(s: CacheState<V>, event: Event<V>, key: ComponentKey)
    requires
        s.wf(),
        is_led(s.entries, key),
        !ends_computation(event, key),
    ensures
        is_led(step(s, event).entries, key),
{
    if event_key(event) != Some(key) {
        lemma_other_events_keep_computation(s, event, key);
    } else {
        match event {
            Event::Request { key: k, now } => lemma_request(s, key, now),
            Event::TakeOver { key: k } => lemma_take_over(s, key),
            Event::Leave { key: k } => lemma_leave(s, key),
            _ => {},
        }
    }
}

proof fn lemma_waiters_step<V>(s: CacheState<V>, event: Event<V>, key: ComponentKey)
    requires
        s.wf(),
    ensures
        (if starts_computation(s, event, key) {
            1nat
        } else {
            0nat
        }) + waiters_of(step(s, event).entries, key) <= waiters_of(s.entries, key) + (if misses(
            s,
            event,
            key,
        ) {
            1nat
        } else {
            0nat
        }),
{
    if event_key(event) != Some(key) {
        lemma_other_events_keep_computation(s, event, key);
    } else {
        match event {
            Event::Request { key: k, now } => lemma_request(s, key, now),
            Event::Complete { key: k, outcome, now } => lemma_complete(s, key, outcome, now),
            Event::Abandon { key: k } => lemma_abandon(s, key),
            Event::TakeOver { key: k } => lemma_take_over(s, key),
            Event::Leave { key: k } => lemma_leave(s, key),
            Event::Sweep { now } => {},
        }
    }
}

/// Misses collapse: in a series of events, callers start to compute the
/// value of a key at most as often as requests for the key found no value
/// or callers were waiting for it when the series began, whether a caller
/// is told to compute or takes the computation over from one that gave up.
pub proof fn lemma_computations_at_most_misses<V>(
    s: CacheState<V>,
    events: Seq<Event<V>>,
    key: ComponentKey,
)
    requires
        s.wf(),
    ensures
        computations_started(s, events, key) <= miss_count(s, events, key) + waiters_of(
            s.entries,
            key,
        ),
    decreases events.len(),
{
    if events.len() > 0 {
        lemma_step_wf(s, events[0]);
        lemma_waiters_step(s, events[0], key);
        lemma_computations_at_most_misses(step(s, events[0]), events.drop_first(), key);
    }
}

/// Single flight: as long as the caller that computes the value of a key
/// neither reports an outcome nor gives up, no other caller starts to
/// compute it, however many ask; and where nobody computes it, at most one
/// caller starts.
pub proof fn lemma_single_flight<V>(s: CacheState<V>, events: Seq<Event<V>>, key: ComponentKey)
    requires
        s.wf(),
        forall|i: int| 0 <= i < events.len() ==> !ends_computation(#[trigger] events[i], key),
    ensures
        computations_started(s, events, key) <= 1,
        is_led(s.entries, key) ==> computations_started(s, events, key) == 0,
    decreases events.len(),
{
    if events.len() > 0 {
        let first = events[0];
        let rest = events.drop_first();
        lemma_step_wf(s, first);
        assert forall|i: int| 0 <= i < rest.len() implies !ends_computation(
            #[trigger] rest[i],
            key,
        ) by {
            assert(rest[i] == events[i + 1]);
        }
        lemma_single_flight(step(s, first), rest, key);
        if is_led(s.entries, key) {
            lemma_computation_survives(s, first, key);
        }
        match first {
            Event::Request { key: k, now } => {
                if k == key {
                    lemma_request(s, key, now);
                }
            },
            Event::TakeOver { key: k } => {
                if k == key {
                    lemma_take_over(s, key);
                }
            },
            _ => {},
        }
    }
}

/// Failures are not kept: after the computation of a key's value has
/// failed, the key has no entry, and the next caller that asks for it is
/// told to compute the value again.
pub proof fn lemma_failure_not_cached<V>(s: CacheState<V>, key: ComponentKey, now: u64, later: u64)
    requires
        s.wf(),
        is_led(s.entries, key),
    ensures
        complete_step(s, key, None, now).1 == (Completion::Failed {
            waiters: waiters_of(s.entries, key) as u64,
        }),
        !holds(complete_step(s, key, None, now).0.entries, key),
        request_step(complete_step(s, key, None, now).0, key, later).1 == Lookup::Lead,
{
    lemma_complete(s, key, None, now);
    lemma_request(complete_step(s, key, None, now).0, key, later);
}

/// A value that had to leave a full cache is computed anew: the key has
/// no entry any more, and the next caller that asks for it is told to
/// compute.
pub proof fn lemma_evicted_key_leads<V>(
    s: CacheState<V>,
    key: ComponentKey,
    value: V,
    now: u64,
    victim: ComponentKey,
    later: u64,
)
    requires
        s.wf(),
        complete_step(s, key, Some(value), now).1 matches Completion::Stored { evicted, .. }
            && evicted == Some(victim),
    ensures
        !holds(complete_step(s, key, Some(value), now).0.entries, victim),
        request_step(complete_step(s, key, Some(value), now).0, victim, later).1 == Lookup::Lead,
{
    lemma_complete(s, key, Some(value), now);
    lemma_request(complete_step(s, key, Some(value), now).0, victim, later);
}

/// The value that leaves a full cache is the least recently used one: no
/// value that stays has been used less recently.
pub proof fn lemma_evicts_least_recently_used<V>(
    s: CacheState<V>,
    key: ComponentKey,
    value: V,
    now: u64,
)
    requires
        s.wf(),
        is_led(s.entries, key),
    ensures
        ({
            let i = index_of(s.entries, key);
            let stored = s.entries.remove(i).push(cached(key, value, now));
            let (after, answer) = complete_step(s, key, Some(value), now);
            &&& answer matches Completion::Stored { evicted, .. }
            &&& evicted is Some <==> cached_count(s.entries) == s.capacity
            &&& evicted is None ==> after.entries == stored
            &&& evicted matches Some(victim) ==> {
                &&& 0 <= first_cached(stored) < stored.len()
                &&& victim == stored[first_cached(stored)].key
                &&& stored[first_cached(stored)].slot is Cached
                &&& after.entries == stored.remove(first_cached(stored))
                &&& forall|j: int|
                    0 <= j < first_cached(stored) ==> (#[trigger] stored[j]).slot is Pending
            }
        }),
{
    let i = index_of(s.entries, key);
    let stored = s.entries.remove(i).push(cached(key, value, now));
    lemma_count_remove(s.entries, i);
    lemma_count_push(s.entries.remove(i), cached(key, value, now));
    lemma_first_cached(stored);
}

/// A value that has been idle for too long is computed anew: after a
/// sweep the key has no entry, and the next caller that asks for it is
/// told to compute. A value that has not been idle for too long stays.
pub proof fn lemma_idle_key_leads<V>(s: CacheState<V>, key: ComponentKey, now: u64, later: u64)
    requires
        s.wf(),
        is_cached(s.entries, key),
    ensures
        expired(s.entries[index_of(s.entries, key)], s.time_to_idle, now) ==> {
            &&& !holds(sweep_step(s, now).0.entries, key)
            &&& request_step(sweep_step(s, now).0, key, later).1 == Lookup::Lead
        },
        !expired(s.entries[index_of(s.entries, key)], s.time_to_idle, now) ==> {
            &&& is_cached(sweep_step(s, now).0.entries, key)
            &&& sweep_step(s, now).0.entries[index_of(sweep_step(s, now).0.entries, key)]
                == s.entries[index_of(s.entries, key)]
        },
{
    let live = live_entries(s.entries, s.time_to_idle, now);
    let i = index_of(s.entries, key);
    lemma_live_entries(s.entries, s.time_to_idle, now);
    lemma_sweep(s, now, key);
    if expired(s.entries[i], s.time_to_idle, now) {
        if holds(live, key) {
            let j = index_of(live, key);
            let i2 = choose|i2: int|
                0 <= i2 < s.entries.len() && (#[trigger] s.entries[i2]) == live[j] && !expired(
                    s.entries[i2],
                    s.time_to_idle,
                    now,
                );
            lemma_index_of(s.entries, key, i2);
        }
        lemma_request(sweep_step(s, now).0, key, later);
    } else {
        let j = choose|j: int| 0 <= j < live.len() && (#[trigger] live[j]) == s.entries[i];
        lemma_index_of(live, key, j);
    }
}

/// A hit hands out the value that was stored and makes it the most
/// recently used one; no other entry changes.
pub proof fn lemma_hit_keeps_value<V>(s: CacheState<V>, key: ComponentKey, now: u64)
    requires
        s.wf(),
        is_cached(s.entries, key),
    ensures
        ({
            let (after, answer) = request_step(s, key, now);
            let i = index_of(s.entries, key);
            &&& answer == Lookup::Hit
            &&& is_cached(after.entries, key)
            &&& index_of(after.entries, key) == after.entries.len() - 1
            &&& after.entries.last().slot->value == s.entries[i].slot->value
            &&& after.entries.last().slot->last_access == now
            &&& after.entries.drop_last() == s.entries.remove(i)
        }),
{
    let i = index_of(s.entries, key);
    let e = cached(key, s.entries[i].slot->value, now);
    lemma_remove_keeps_distinct(s.entries, i);
    lemma_push_keeps_distinct(s.entries.remove(i), e);
    assert(s.entries.remove(i).push(e).drop_last() =~= s.entries.remove(i));
}

/// A value that was computed is kept: unless the cache has no room at
/// all, the next caller that asks for the key gets that value.
pub proof fn lemma_stored_value_hits<V>(
    s: CacheState<V>,
    key: ComponentKey,
    value: V,
    now: u64,
    later: u64,
)
    requires
        s.wf(),
        is_led(s.entries, key),
        s.capacity > 0,
    ensures
        ({
            let after = complete_step(s, key, Some(value), now).0;
            &&& is_cached(after.entries, key)
            &&& after.entries[index_of(after.entries, key)].slot->value == value
            &&& request_step(after, key, later).1 == Lookup::Hit
        }),
{
    let i = index_of(s.entries, key);
    let e = cached(key, value, now);
    let rest = s.entries.remove(i);
    let stored = rest.push(e);
    lemma_remove_keeps_distinct(s.entries, i);
    lemma_count_remove(s.entries, i);
    lemma_push_keeps_distinct(rest, e);
    lemma_count_push(rest, e);
    if cached_count(stored) > s.capacity {
        let victim = first_cached(stored);
        lemma_first_cached(stored);
        lemma_first_cached(rest);
        assert(cached_count(rest) > 0);
        assert(victim < rest.len()) by {
            let f = first_cached(rest);
            assert(stored[f] == rest[f]);
            if victim > f {
                assert(!(stored[f].slot is Cached));
            }
        }
        lemma_remove_keeps_distinct(stored, victim);
        assert(stored[victim] == rest[victim]);
        assert(rest[victim].key != key) by {
            if rest[victim].key == key {
                assert(holds(rest, key));
            }
        }
    }
    lemma_complete(s, key, Some(value), now);
    lemma_request(complete_step(s, key, Some(value), now).0, key, later);
}

/// A computation is never orphaned by the caller that gives it up: where
/// callers wait, the first of them that offers takes over, as does the next
/// caller that asks for the key; where nobody waits, the next caller that
/// asks is told to compute.
pub proof fn lemma_abandon_never_orphans<V>(s: CacheState<V>, key: ComponentKey, later: u64)
    requires
        s.wf(),
        is_led(s.entries, key),
    ensures
        ({
            let (after, answer) = abandon_step(s, key);
            if waiters_of(s.entries, key) > 0 {
                &&& answer == Abandon::Promoted
                &&& is_vacant(after.entries, key)
                &&& take_over_step(after, key).1
                &&& is_led(take_over_step(after, key).0.entries, key)
                &&& waiters_of(take_over_step(after, key).0.entries, key) == waiters_of(
                    s.entries,
                    key,
                ) - 1
                &&& request_step(after, key, later).1 == Lookup::Lead
                &&& is_led(request_step(after, key, later).0.entries, key)
            } else {
                &&& answer == Abandon::Dropped
                &&& !holds(after.entries, key)
                &&& request_step(after, key, later).1 == Lookup::Lead
            }
        }),
{
    lemma_abandon(s, key);
    let after = abandon_step(s, key).0;
    lemma_take_over(after, key);
    lemma_request(after, key, later);
}

/// The last caller that gives up waiting for a computation without a
/// leader takes the computation along: the key has no entry afterwards,
/// and the next caller that asks for it is told to compute.
pub proof fn lemma_last_waiter_leaves<V>(s: CacheState<V>, key: ComponentKey, later: u64)
    requires
        s.wf(),
        is_vacant(s.entries, key),
        waiters_of(s.entries, key) == 1,
    ensures
        leave_step(s, key).1 == Leave::Dropped,
        !holds(leave_step(s, key).0.entries, key),
        request_step(leave_step(s, key).0, key, later).1 == Lookup::Lead,
{
    lemma_leave(s, key);
    lemma_request(leave_step(s, key).0, key, later);
}

} // verus!
