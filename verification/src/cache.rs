//! The bounded cache of recently received webhook events.
use std::collections::VecDeque;
use vstd::prelude::*;

verus! {

/// The parsed JSON body of a webhook, carried through the library as it was
/// received: the cache stores it and hands it back, but never looks inside.
#[verifier::external_type_specification]
#[verifier::external_body]
pub struct ExJsonValue(serde_json::Value);

/// `<serde_json::Value as Clone>::clone`. `Value` derives `Clone`, which copies
/// every variant with its contents, so the copy is the same JSON value.
#[verifier::external_body]
fn copy_payload(payload: &serde_json::Value) -> (copy: serde_json::Value)
    ensures
        copy == *payload,
{
    payload.clone()
}

/// A received event with the time (Unix milliseconds) at which it was cached.
pub struct TimestampedEvent {
    pub timestamp: u64,
    pub payload: serde_json::Value,
    /// The GitHub event type, for events that came in through the GitHub route.
    pub event_type: Option<String>,
}

impl Clone for TimestampedEvent {
    fn clone(&self) -> (copy: Self)
        ensures
            copy == *self,
    {
        let event_type = match &self.event_type {
            Some(name) => Some(name.clone()),
            None => None,
        };
        TimestampedEvent { timestamp: self.timestamp, payload: copy_payload(&self.payload), event_type }
    }
}

/// The `n` newest elements of `s` (all of `s` when it holds no more than `n`),
/// oldest first.
pub open spec fn newest<T>(s: Seq<T>, n: nat) -> Seq<T> {
    if s.len() <= n {
        s
    } else {
        s.skip(s.len() - n)
    }
}

/// The cache contents after adding the events of `history` one by one to an
/// empty cache of capacity `n`, each add keeping the `n` newest.
pub open spec fn replay<T>(history: Seq<T>, n: nat) -> Seq<T>
    decreases history.len(),
{
    if history.len() == 0 {
        Seq::empty()
    } else {
        newest(replay(history.drop_last(), n).push(history.last()), n)
    }
}

/// Keeping the `n` newest of what was kept plus a new element is keeping the
/// `n` newest of everything seen.
pub proof fn lemma_newest_push<T>(s: Seq<T>, x: T, n: nat)
    ensures
        newest(newest(s, n).push(x), n) == newest(s.push(x), n),
{
    if s.len() > n {
        let k = newest(s, n);
        assert(k.push(x).len() == n + 1);
        assert(newest(k.push(x), n) =~= newest(s.push(x), n));
    }
}

/// Keeping the `n` newest of `s` keeps `min(s.len(), n)` elements: the last
/// ones of `s`, in their order.
pub proof fn lemma_newest_is_suffix<T>(s: Seq<T>, n: nat)
    ensures
        newest(s, n).len() == if s.len() <= n { s.len() } else { n },
        newest(s, n) == s.subrange(s.len() - newest(s, n).len(), s.len() as int),
{
    if s.len() <= n {
        assert(s.subrange(0, s.len() as int) =~= s);
    } else {
        assert(s.skip(s.len() - n) =~= s.subrange(s.len() - n, s.len() as int));
    }
}

/// A cache that started empty and has been given no more events than its
/// capacity holds every one of them, in the order they were added; given
/// more, it holds exactly `capacity` of them, the last ones added.
pub proof fn lemma_cache_holds_all_until_full<T>(history: Seq<T>, n: nat)
    ensures
        history.len() <= n ==> replay(history, n) == history,
        history.len() > n ==> replay(history, n).len() == n && replay(history, n)
            == history.subrange(history.len() - n, history.len() as int),
{
    lemma_cache_keeps_newest(history, n);
    lemma_newest_is_suffix(history, n);
}

/// Whatever events were added, in whatever number, a cache of capacity `n`
/// that started empty holds the `n` most recently added, in the order they
/// were added.
pub proof fn lemma_cache_keeps_newest<T>(history: Seq<T>, n: nat)
    ensures
        replay(history, n) == newest(history, n),
    decreases history.len(),
{
    if history.len() > 0 {
        lemma_cache_keeps_newest(history.drop_last(), n);
        lemma_newest_push(history.drop_last(), history.last(), n);
        assert(history.drop_last().push(history.last()) =~= history);
    }
}

/// Recent events, oldest first, never more than `max_size` of them.
pub struct EventsCache {
    events: VecDeque<TimestampedEvent>,
    max_size: usize,
}

impl View for EventsCache {
    type V = Seq<TimestampedEvent>;

    closed spec fn view(&self) -> Seq<TimestampedEvent> {
        self.events@
    }
}

impl EventsCache {
    /// The most events the cache keeps.
    pub closed spec fn capacity(&self) -> nat {
        self.max_size as nat
    }

    /// The cache never holds more events than its capacity.
    #[verifier::type_invariant]
    spec fn within_capacity(&self) -> bool {
        self.events@.len() <= self.max_size
    }

    /// An empty cache that keeps at most `max_size` events.
    pub fn new(max_size: usize) -> (cache: Self)
        ensures
            cache@ == Seq::<TimestampedEvent>::empty(),
            cache.capacity() == max_size,
    {
        EventsCache { events: VecDeque::new(), max_size }
    }

    /// The capacity the cache was made with.
    pub fn max_size(&self) -> (n: usize)
        ensures
            n == self.capacity(),
    {
        self.max_size
    }

    /// The number of cached events.
    pub fn len(&self) -> (n: usize)
        ensures
            n == self@.len(),
            n <= self.capacity(),
    {
        proof {
            use_type_invariant(self);
        }
        self.events.len()
    }

    /// Records an event received at `timestamp`; when the cache is full the
    /// oldest event makes room for it.
    pub fn add(&mut self, timestamp: u64, payload: serde_json::Value, event_type: Option<String>)
        ensures
            final(self).capacity() == old(self).capacity(),
            final(self)@ == newest(
                old(self)@.push(TimestampedEvent { timestamp, payload, event_type }),
                old(self).capacity(),
            ),
    {
        proof {
            use_type_invariant(&*self);
        }
        let event = TimestampedEvent { timestamp, payload, event_type };
        let ghost pushed = self.events@.push(event);
        if self.events.len() >= self.max_size && self.max_size == 0 {
            assert(self.events@ =~= pushed.skip(pushed.len() as int));
            return;
        }
        // The events are taken out while they change, so that the cache itself
        // is never over capacity.
        let mut events: VecDeque<TimestampedEvent> = VecDeque::new();
        std::mem::swap(&mut events, &mut self.events);
        if events.len() >= self.max_size {
            // Full: the oldest event makes room before the new one goes in.
            let _ = events.pop_front();
            events.push_back(event);
            assert(events@ =~= pushed.skip(pushed.len() - self.max_size));
        } else {
            events.push_back(event);
        }
        self.events = events;
    }

    /// A copy of the cached events, oldest first.
    pub fn get_events(&self) -> (events: Vec<TimestampedEvent>)
        ensures
            events@ == self@,
    {
        let mut out: Vec<TimestampedEvent> = Vec::new();
        let n: usize = self.events.len();
        let mut i: usize = 0;
        while i < n
            invariant
                n == self.events@.len(),
                i <= n,
                out@ == self.events@.take(i as int),
            decreases n - i,
        {
            out.push(self.events[i].clone());
            assert(out@ =~= self.events@.take(i + 1));
            i = i + 1;
        }
        assert(self.events@.take(n as int) =~= self.events@);
        out
    }
}

} // verus!
