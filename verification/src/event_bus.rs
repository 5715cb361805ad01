//! The publish-subscribe bus for events: who is subscribed to what, and a
//! bounded buffer of the most recent events. Subscribers are referred to by
//! handles; delivering an event to them is up to the embedding program,
//! which asks `publish` for the handles to deliver to.

use vstd::prelude::*;
use crate::events::{Event, EventPayload, EventState, EventType, type_code, custom_name, same_type};
use crate::ids::{EventId, OperationId, ProjectId};
use crate::text_map::TextMap;
use crate::clock::unix_millis_now;

verus! {

/// The key under which subscriptions to an event type are kept: two types
/// share a key exactly when they are the same type.
pub open spec fn type_key(t: EventType) -> (int, Seq<char>) {
    (type_code(t), custom_name(t))
}

/// The handles subscribed under `k`, or none.
pub open spec fn handles_at(m: Map<(int, Seq<char>), Seq<u64>>, k: (int, Seq<char>)) -> Seq<u64> {
    if m.contains_key(k) {
        m[k]
    } else {
        Seq::empty()
    }
}

/// `m` after subscribing `h` under `k`: the key gets a list, and `h` is
/// appended to it unless it is already there.
pub open spec fn add_handle(m: Map<(int, Seq<char>), Seq<u64>>, k: (int, Seq<char>), h: u64) -> Map<
    (int, Seq<char>),
    Seq<u64>,
> {
    if handles_at(m, k).contains(h) {
        m.insert(k, handles_at(m, k))
    } else {
        m.insert(k, handles_at(m, k).push(h))
    }
}

/// `m` after subscribing `h` to each of `types`, in order.
pub open spec fn add_handles(m: Map<(int, Seq<char>), Seq<u64>>, h: u64, types: Seq<EventType>) -> Map<
    (int, Seq<char>),
    Seq<u64>,
>
    decreases types.len(),
{
    if types.len() == 0 {
        m
    } else {
        add_handle(add_handles(m, h, types.drop_last()), type_key(types.last()), h)
    }
}

/// Holds of every handle but `h`.
pub open spec fn other_than(h: u64) -> spec_fn(u64) -> bool {
    |x: u64| x != h
}

/// `m` after removing `h` from the list under `k`, where there is one.
pub open spec fn drop_handle(m: Map<(int, Seq<char>), Seq<u64>>, k: (int, Seq<char>), h: u64) -> Map<
    (int, Seq<char>),
    Seq<u64>,
> {
    if m.contains_key(k) {
        m.insert(k, m[k].filter(other_than(h)))
    } else {
        m
    }
}

/// `m` after removing `h` from the lists of each of `types`, in order.
pub open spec fn drop_handles(m: Map<(int, Seq<char>), Seq<u64>>, h: u64, types: Seq<EventType>) -> Map<
    (int, Seq<char>),
    Seq<u64>,
>
    decreases types.len(),
{
    if types.len() == 0 {
        m
    } else {
        drop_handle(drop_handles(m, h, types.drop_last()), type_key(types.last()), h)
    }
}

/// Unsubscribing `h` from `types` leaves it in none of their lists, keeps
/// every other handle where it was, and leaves the lists of all other types
/// unchanged.
pub proof fn unsubscribe_removes_from_each_type(m: Map<(int, Seq<char>), Seq<u64>>, h: u64, types: Seq<EventType>)
    ensures
        forall|i: int|
            0 <= i < types.len() ==> !(#[trigger] handles_at(drop_handles(m, h, types), type_key(types[i]))).contains(h),
        forall|k: (int, Seq<char>)|
            (forall|i: int| 0 <= i < types.len() ==> type_key(#[trigger] types[i]) != k) ==> #[trigger] handles_at(
                drop_handles(m, h, types),
                k,
            ) == handles_at(m, k),
        forall|k: (int, Seq<char>), x: u64|
            x != h ==> (#[trigger] handles_at(drop_handles(m, h, types), k).contains(x) <==> handles_at(
                m,
                k,
            ).contains(x)),
    decreases types.len(),
{
    if types.len() > 0 {
        let t = types.drop_last();
        let last = types.last();
        let n = types.len() - 1;
        assert(types[n] == last);
        unsubscribe_removes_from_each_type(m, h, t);
        let mid = drop_handles(m, h, t);
        let out = drop_handles(m, h, types);
        let kl = type_key(last);
        assert(out == drop_handle(mid, kl, h));
        assert forall|k: (int, Seq<char>), x: u64| #[trigger] handles_at(out, k).contains(x) <==> (
            handles_at(mid, k).contains(x) && !(k == kl && x == h)) by {
            if k == kl && mid.contains_key(k) {
                let l = mid[k];
                if l.filter(other_than(h)).contains(x) {
                    l.lemma_filter_contains_rev(other_than(h), x);
                }
                if l.contains(x) && x != h {
                    let c = choose|c: int| 0 <= c < l.len() && l[c] == x;
                    l.lemma_filter_contains(other_than(h), c);
                }
            }
        }
        assert forall|i: int| 0 <= i < types.len() implies !(#[trigger] handles_at(out, type_key(types[i]))).contains(
            h,
        ) by {
            if i < n {
                assert(t[i] == types[i]);
            }
        }
        assert forall|k: (int, Seq<char>)|
            (forall|i: int| 0 <= i < types.len() ==> type_key(#[trigger] types[i]) != k) implies #[trigger] handles_at(
            out,
            k,
        ) == handles_at(m, k) by {
            assert(type_key(types[n]) != k);
            assert forall|i: int| 0 <= i < t.len() implies type_key(#[trigger] t[i]) != k by {
                assert(t[i] == types[i]);
            }
            assert(handles_at(mid, k) == handles_at(m, k));
            assert(out.contains_key(k) == mid.contains_key(k));
            if mid.contains_key(k) {
                assert(out[k] == mid[k]);
            }
            assert(handles_at(out, k) == handles_at(mid, k));
        }
    }
}

/// The buffer after `e` is added to it: where it already holds `size`
/// events or more, the oldest one leaves first.
pub open spec fn buffered(buffer: Seq<Event>, size: nat, e: Event) -> Seq<Event> {
    if buffer.len() >= size {
        buffer.drop_first().push(e)
    } else {
        buffer.push(e)
    }
}

/// The buffer after each of `events` is added to it, in order.
pub open spec fn buffered_all(buffer: Seq<Event>, size: nat, events: Seq<Event>) -> Seq<Event>
    decreases events.len(),
{
    if events.len() == 0 {
        buffer
    } else {
        buffered(buffered_all(buffer, size, events.drop_last()), size, events.last())
    }
}

/// `r` holds copies of the events of `s`, in the same order.
pub open spec fn copies(r: Seq<Event>, s: Seq<Event>) -> bool {
    &&& r.len() == s.len()
    &&& forall|i: int| 0 <= i < r.len() ==> (#[trigger] r[i]).same_as(s[i])
}

/// The summed lengths of the subscription lists of `entries`.
pub open spec fn list_total(entries: Seq<(EventType, Vec<u64>)>) -> int
    decreases entries.len(),
{
    if entries.len() == 0 {
        0
    } else {
        list_total(entries.drop_last()) + entries.last().1@.len()
    }
}

/// The bus: subscriptions by event type, subscriptions to all events by
/// name, and the buffer of recent events.
pub struct EventBus {
    subscribers: Vec<(EventType, Vec<u64>)>,
    global_subscribers: TextMap<u64>,
    event_buffer: Vec<Event>,
    buffer_size: usize,
    channel_capacity: Option<usize>,
}

impl EventBus {
    /// The handles subscribed to each event type, by the type's key.
    pub closed spec fn subscriptions(self) -> Map<(int, Seq<char>), Seq<u64>> {
        Map::new(
            |k: (int, Seq<char>)|
                exists|i: int| 0 <= i < self.subscribers@.len() && type_key(self.subscribers@[i].0) == k,
            |k: (int, Seq<char>)|
                self.subscribers@[choose|i: int|
                    0 <= i < self.subscribers@.len() && type_key(self.subscribers@[i].0) == k].1@,
        )
    }

    /// The handles subscribed to all events, by name.
    pub closed spec fn globals(self) -> Map<Seq<char>, u64> {
        self.global_subscribers.view()
    }

    /// The names of the subscriptions to all events, in the order in which
    /// they were first made.
    pub closed spec fn global_names(self) -> Seq<Seq<char>> {
        self.global_subscribers.key_seq()
    }

    /// The buffered events, oldest first.
    pub closed spec fn buffer(self) -> Seq<Event> {
        self.event_buffer@
    }

    /// How many events the buffer keeps.
    pub closed spec fn capacity(self) -> nat {
        self.buffer_size as nat
    }

    /// The capacity of the channel that published events are also sent on,
    /// where the bus has one.
    pub closed spec fn channel(self) -> Option<usize> {
        self.channel_capacity
    }

    /// The summed lengths of all typed subscription lists.
    pub closed spec fn typed_total(self) -> int {
        list_total(self.subscribers@)
    }

    /// No event type has two subscription lists, no list holds a handle
    /// twice, and the buffer holds no more events than it keeps, where it
    /// keeps any.
    pub closed spec fn wf(self) -> bool {
        &&& forall|i: int, j: int|
            0 <= i < j < self.subscribers@.len() ==> type_key(#[trigger] self.subscribers@[i].0)
                != type_key(#[trigger] self.subscribers@[j].0)
        &&& forall|i: int| 0 <= i < self.subscribers@.len() ==> (#[trigger] self.subscribers@[i]).1@.no_duplicates()
        &&& (self.buffer_size > 0 ==> self.event_buffer@.len() <= self.buffer_size)
        &&& (self.buffer_size == 0 ==> self.event_buffer@.len() == 0)
    }

    /// The handles that an event of type `t` is delivered to: those
    /// subscribed to `t`, in the order they subscribed, then those
    /// subscribed to all events, in the order of their names.
    pub open spec fn recipients(self, t: EventType) -> Seq<u64> {
        handles_at(self.subscriptions(), type_key(t)) + self.global_names().map_values(
            |n: Seq<char>| self.globals()[n],
        )
    }

    proof fn lemma_entry(self, i: int)
        requires
            self.wf(),
            0 <= i < self.subscribers@.len(),
        ensures
            self.subscriptions().contains_key(type_key(self.subscribers@[i].0)),
            self.subscriptions()[type_key(self.subscribers@[i].0)] == self.subscribers@[i].1@,
    {
        let k = type_key(self.subscribers@[i].0);
        assert(self.subscriptions().contains_key(k));
        let j = choose|j: int| 0 <= j < self.subscribers@.len() && type_key(self.subscribers@[j].0) == k;
        if j != i {
            if j < i {
                assert(type_key(self.subscribers@[j].0) != type_key(self.subscribers@[i].0));
            } else {
                assert(type_key(self.subscribers@[i].0) != type_key(self.subscribers@[j].0));
            }
        }
    }

    /// A bus that keeps the given number of recent events.
    pub fn with_buffer_size(buffer_size: usize) -> (r: EventBus)
        ensures
            r.wf(),
            r.subscriptions().is_empty(),
            r.globals().is_empty(),
            r.global_names().len() == 0,
            r.buffer().len() == 0,
            r.capacity() == buffer_size,
            r.channel() is None,
            r.typed_total() == 0,
    {
        let r = EventBus {
            subscribers: Vec::new(),
            global_subscribers: TextMap::new(),
            event_buffer: Vec::new(),
            buffer_size,
            channel_capacity: None,
        };
        assert(r.subscriptions() =~= Map::empty());
        r
    }

    /// A bus that keeps the 1000 most recent events.
    pub fn new() -> (r: EventBus)
        ensures
            r.wf(),
            r.subscriptions().is_empty(),
            r.globals().is_empty(),
            r.global_names().len() == 0,
            r.buffer().len() == 0,
            r.capacity() == 1000,
            r.channel() is None,
            r.typed_total() == 0,
    {
        EventBus::with_buffer_size(1000)
    }

    /// A bus that keeps the given number of recent events and also sends
    /// each published event on a channel of that capacity.
    pub fn with_async_channel(buffer_size: usize) -> (r: EventBus)
        ensures
            r.wf(),
            r.subscriptions().is_empty(),
            r.globals().is_empty(),
            r.global_names().len() == 0,
            r.buffer().len() == 0,
            r.capacity() == buffer_size,
            r.channel() == Some(buffer_size),
            r.typed_total() == 0,
    {
        let mut r = EventBus::with_buffer_size(buffer_size);
        r.channel_capacity = Some(buffer_size);
        proof {
            assert(r.subscriptions() =~= Map::empty());
        }
        r
    }

    /// How many events the buffer keeps.
    pub fn buffer_size(&self) -> (r: usize)
        ensures
            r == self.capacity(),
    {
        self.buffer_size
    }

    /// The capacity of the channel that published events are also sent on,
    /// where the bus has one.
    pub fn channel_capacity(&self) -> (r: Option<usize>)
        ensures
            r == self.channel(),
    {
        self.channel_capacity
    }

    /// The position of the subscription list of `t`, if it has one.
    fn find_type(&self, t: &EventType) -> (r: Option<usize>)
        requires
            self.wf(),
        ensures
            match r {
                Some(i) => i < self.subscribers@.len() && type_key(self.subscribers@[i as int].0) == type_key(
                    *t,
                ),
                None => !self.subscriptions().contains_key(type_key(*t)),
            },
    {
        let mut i: usize = 0;
        while i < self.subscribers.len()
            invariant
                i <= self.subscribers@.len(),
                forall|j: int| 0 <= j < i ==> type_key(#[trigger] self.subscribers@[j].0) != type_key(*t),
            decreases self.subscribers@.len() - i,
        {
            if self.subscribers[i].0.same_as(t) {
                return Some(i);
            }
            i = i + 1;
        }
        None
    }

    /// Subscribes `h` to `t`, unless it already is.
    fn subscribe_one(&mut self, h: u64, t: EventType)
        requires
            old(self).wf(),
        ensures
            final(self).wf(),
            final(self).subscriptions() == add_handle(old(self).subscriptions(), type_key(t), h),
            final(self).globals() == old(self).globals(),
            final(self).global_names() == old(self).global_names(),
            final(self).buffer() == old(self).buffer(),
            final(self).capacity() == old(self).capacity(),
            final(self).channel() == old(self).channel(),
            final(self).typed_total() <= old(self).typed_total() + 1,
    {
        let ghost pre = *self;
        let ghost k = type_key(t);
        match self.find_type(&t) {
            Some(i) => {
                proof {
                    pre.lemma_entry(i as int);
                }
                let mut found = false;
                let mut j: usize = 0;
                while j < self.subscribers[i].1.len()
                    invariant
                        *self == pre,
                        i < self.subscribers@.len(),
                        j <= self.subscribers@[i as int].1@.len(),
                        found == self.subscribers@[i as int].1@.subrange(0, j as int).contains(h),
                    decreases self.subscribers@[i as int].1@.len() - j,
                {
                    proof {
                        let s = self.subscribers@[i as int].1@;
                        let pfx = s.subrange(0, j as int);
                        assert(s.subrange(0, j + 1) =~= pfx.push(s[j as int]));
                        assert(pfx.push(s[j as int]).contains(h) == (pfx.contains(h) || s[j as int] == h)) by {
                            if pfx.contains(h) {
                                let c = choose|c: int| 0 <= c < pfx.len() && pfx[c] == h;
                                assert(pfx.push(s[j as int])[c] == h);
                            }
                            if s[j as int] == h {
                                assert(pfx.push(s[j as int])[j as int] == h);
                            }
                            if pfx.push(s[j as int]).contains(h) {
                                let c = choose|c: int| 0 <= c < pfx.len() + 1 && pfx.push(s[j as int])[c] == h;
                                if c < pfx.len() {
                                    assert(pfx[c] == h);
                                }
                            }
                        }
                    }
                    if self.subscribers[i].1[j] == h {
                        found = true;
                    }
                    j = j + 1;
                }
                proof {
                    let s = self.subscribers@[i as int].1@;
                    assert(s.subrange(0, s.len() as int) =~= s);
                }
                if !found {
                    let mut entry = self.subscribers.remove(i);
                    entry.1.push(h);
                    self.subscribers.insert(i, entry);
                    proof {
                        lemma_total_replace(pre.subscribers@, i as int, self.subscribers@[i as int]);
                        assert(self.subscribers@ =~= pre.subscribers@.update(i as int, self.subscribers@[i as int]));
                    }
                } else {
                    assert(self.subscribers@ =~= pre.subscribers@.update(i as int, pre.subscribers@[i as int]));
                }
                proof {
                    assert forall|a: int, b: int|
                        0 <= a < b < self.subscribers@.len() implies type_key(#[trigger] self.subscribers@[a].0)
                        != type_key(#[trigger] self.subscribers@[b].0) by {
                        assert(type_key(pre.subscribers@[a].0) != type_key(pre.subscribers@[b].0));
                    }
                    self.lemma_entry(i as int);
                    assert forall|kk: (int, Seq<char>)| #[trigger]
                        self.subscriptions().contains_key(kk) == add_handle(pre.subscriptions(), k, h).contains_key(kk) by {
                        if pre.subscriptions().contains_key(kk) {
                            let a = choose|a: int|
                                0 <= a < pre.subscribers@.len() && type_key(pre.subscribers@[a].0) == kk;
                            assert(type_key(self.subscribers@[a].0) == kk);
                        }
                        if self.subscriptions().contains_key(kk) {
                            let a = choose|a: int|
                                0 <= a < self.subscribers@.len() && type_key(self.subscribers@[a].0) == kk;
                            assert(type_key(pre.subscribers@[a].0) == kk);
                        }
                    }
                    assert forall|kk: (int, Seq<char>)|
                        self.subscriptions().contains_key(kk) && kk != k implies self.subscriptions()[kk]
                        == pre.subscriptions()[kk] by {
                        let a = choose|a: int|
                            0 <= a < self.subscribers@.len() && type_key(self.subscribers@[a].0) == kk;
                        self.lemma_entry(a);
                        pre.lemma_entry(a);
                    }
                    assert(self.subscriptions() =~= add_handle(pre.subscriptions(), k, h));
                }
            },
            None => {
                let mut list: Vec<u64> = Vec::new();
                list.push(h);
                let ghost entry = (t, list);
                self.subscribers.push((t, list));
                proof {
                    let n = pre.subscribers@.len() as int;
                    assert(self.subscribers@ == pre.subscribers@.push(entry));
                    assert(self.subscribers@.drop_last() =~= pre.subscribers@);
                    assert forall|a: int, b: int|
                        0 <= a < b < self.subscribers@.len() implies type_key(#[trigger] self.subscribers@[a].0)
                        != type_key(#[trigger] self.subscribers@[b].0) by {
                        if b < n {
                            assert(type_key(pre.subscribers@[a].0) != type_key(pre.subscribers@[b].0));
                        } else {
                            assert(!pre.subscriptions().contains_key(k));
                            if type_key(pre.subscribers@[a].0) == k {
                                assert(pre.subscriptions().contains_key(k));
                            }
                        }
                    }
                    self.lemma_entry(n);
                    assert(handles_at(pre.subscriptions(), k) =~= Seq::<u64>::empty());
                    assert forall|kk: (int, Seq<char>)| #[trigger]
                        self.subscriptions().contains_key(kk) == add_handle(pre.subscriptions(), k, h).contains_key(kk) by {
                        if pre.subscriptions().contains_key(kk) {
                            let a = choose|a: int|
                                0 <= a < pre.subscribers@.len() && type_key(pre.subscribers@[a].0) == kk;
                            assert(type_key(self.subscribers@[a].0) == kk);
                        }
                        if self.subscriptions().contains_key(kk) && kk != k {
                            let a = choose|a: int|
                                0 <= a < self.subscribers@.len() && type_key(self.subscribers@[a].0) == kk;
                            assert(type_key(pre.subscribers@[a].0) == kk);
                        }
                    }
                    assert forall|kk: (int, Seq<char>)|
                        self.subscriptions().contains_key(kk) && kk != k implies self.subscriptions()[kk]
                        == pre.subscriptions()[kk] by {
                        let a = choose|a: int|
                            0 <= a < self.subscribers@.len() && type_key(self.subscribers@[a].0) == kk;
                        self.lemma_entry(a);
                        pre.lemma_entry(a);
                    }
                    assert(self.subscriptions() =~= add_handle(pre.subscriptions(), k, h));
                }
            },
        }
    }
}

impl EventBus {
    /// Subscribes `h` to each of `event_types` to which it is not yet
    /// subscribed.
    pub fn subscribe(&mut self, subscriber: u64, event_types: Vec<EventType>)
        requires
            old(self).wf(),
        ensures
            final(self).wf(),
            final(self).subscriptions() == add_handles(old(self).subscriptions(), subscriber, event_types@),
            final(self).globals() == old(self).globals(),
            final(self).global_names() == old(self).global_names(),
            final(self).buffer() == old(self).buffer(),
            final(self).capacity() == old(self).capacity(),
            final(self).channel() == old(self).channel(),
            final(self).typed_total() <= old(self).typed_total() + event_types@.len(),
    {
        let ghost pre = *self;
        let mut i: usize = 0;
        while i < event_types.len()
            invariant
                self.wf(),
                i <= event_types@.len(),
                self.subscriptions() == add_handles(pre.subscriptions(), subscriber, event_types@.take(i as int)),
                self.globals() == pre.globals(),
                self.global_names() == pre.global_names(),
                self.buffer() == pre.buffer(),
                self.capacity() == pre.capacity(),
                self.channel() == pre.channel(),
                self.typed_total() <= pre.typed_total() + i,
            decreases event_types@.len() - i,
        {
            proof {
                assert(event_types@.take(i + 1).drop_last() =~= event_types@.take(i as int));
            }
            self.subscribe_one(subscriber, event_types[i].duplicate());
            i = i + 1;
        }
        proof {
            assert(event_types@.take(event_types@.len() as int) =~= event_types@);
        }
    }

    /// Removes `h` from the subscription list of `t`, where there is one.
    fn unsubscribe_one(&mut self, h: u64, t: &EventType)
        requires
            old(self).wf(),
        ensures
            final(self).wf(),
            final(self).subscriptions() == drop_handle(old(self).subscriptions(), type_key(*t), h),
            final(self).globals() == old(self).globals(),
            final(self).global_names() == old(self).global_names(),
            final(self).buffer() == old(self).buffer(),
            final(self).capacity() == old(self).capacity(),
            final(self).channel() == old(self).channel(),
            final(self).typed_total() <= old(self).typed_total(),
    {
        let ghost pre = *self;
        let ghost k = type_key(*t);
        match self.find_type(t) {
            Some(i) => {
                proof {
                    pre.lemma_entry(i as int);
                }
                let ghost pred = other_than(h);
                let mut kept: Vec<u64> = Vec::new();
                let mut j: usize = 0;
                proof {
                    reveal(Seq::filter);
                    assert(self.subscribers@[i as int].1@.take(0) =~= Seq::<u64>::empty());
                }
                while j < self.subscribers[i].1.len()
                    invariant
                        *self == pre,
                        i < self.subscribers@.len(),
                        j <= self.subscribers@[i as int].1@.len(),
                        pred == other_than(h),
                        kept@ == self.subscribers@[i as int].1@.take(j as int).filter(pred),
                    decreases self.subscribers@[i as int].1@.len() - j,
                {
                    let x = self.subscribers[i].1[j];
                    proof {
                        let s = self.subscribers@[i as int].1@;
                        assert(s.take(j + 1) =~= s.take(j as int).push(x));
                        s.take(j as int).lemma_filter_push(x, pred);
                    }
                    if x != h {
                        kept.push(x);
                    }
                    j = j + 1;
                }
                proof {
                    let s = self.subscribers@[i as int].1@;
                    assert(s.take(s.len() as int) =~= s);
                    s.lemma_filter_len(pred);
                }
                proof {
                    lemma_filter_keeps_distinct(pre.subscribers@[i as int].1@, other_than(h));
                }
                let mut entry = self.subscribers.remove(i);
                entry.1 = kept;
                self.subscribers.insert(i, entry);
                proof {
                    lemma_total_replace(pre.subscribers@, i as int, self.subscribers@[i as int]);
                    assert(self.subscribers@ =~= pre.subscribers@.update(i as int, self.subscribers@[i as int]));
                    assert forall|a: int| 0 <= a < self.subscribers@.len() implies (#[trigger] self.subscribers@[a]).1@.no_duplicates() by {
                        if a != i {
                            assert(self.subscribers@[a] == pre.subscribers@[a]);
                        }
                    }
                    assert forall|a: int, b: int|
                        0 <= a < b < self.subscribers@.len() implies type_key(#[trigger] self.subscribers@[a].0)
                        != type_key(#[trigger] self.subscribers@[b].0) by {
                        assert(type_key(pre.subscribers@[a].0) != type_key(pre.subscribers@[b].0));
                    }
                    self.lemma_entry(i as int);
                    assert forall|kk: (int, Seq<char>)| #[trigger]
                        self.subscriptions().contains_key(kk) == pre.subscriptions().contains_key(kk) by {
                        if pre.subscriptions().contains_key(kk) {
                            let a = choose|a: int|
                                0 <= a < pre.subscribers@.len() && type_key(pre.subscribers@[a].0) == kk;
                            assert(type_key(self.subscribers@[a].0) == kk);
                        }
                        if self.subscriptions().contains_key(kk) {
                            let a = choose|a: int|
                                0 <= a < self.subscribers@.len() && type_key(self.subscribers@[a].0) == kk;
                            assert(type_key(pre.subscribers@[a].0) == kk);
                        }
                    }
                    assert forall|kk: (int, Seq<char>)|
                        self.subscriptions().contains_key(kk) && kk != k implies self.subscriptions()[kk]
                        == pre.subscriptions()[kk] by {
                        let a = choose|a: int|
                            0 <= a < self.subscribers@.len() && type_key(self.subscribers@[a].0) == kk;
                        self.lemma_entry(a);
                        pre.lemma_entry(a);
                    }
                    assert(self.subscribers@[i as int].1@ == kept@);
                    assert(self.subscriptions()[k] == kept@);
                    assert(pre.subscriptions()[k] == pre.subscribers@[i as int].1@);
                    assert(kept@ == pre.subscriptions()[k].filter(other_than(h)));
                    let target = drop_handle(pre.subscriptions(), k, h);
                    assert(target[k] == pre.subscriptions()[k].filter(other_than(h)));
                    assert(self.subscriptions().dom() =~= target.dom());
                    assert forall|kk: (int, Seq<char>)| #[trigger] target.contains_key(kk) implies self.subscriptions()[kk] == target[kk] by {
                        if kk != k {
                            assert(self.subscriptions().contains_key(kk));
                        }
                    }
                    assert(self.subscriptions() =~= target);
                }
            },
            None => {
                assert(self.subscriptions() =~= drop_handle(pre.subscriptions(), k, h));
            },
        }
    }

    /// Removes `h` from the subscription lists of each of `event_types`.
    pub fn unsubscribe(&mut self, subscriber: u64, event_types: Vec<EventType>)
        requires
            old(self).wf(),
        ensures
            final(self).wf(),
            final(self).subscriptions() == drop_handles(old(self).subscriptions(), subscriber, event_types@),
            final(self).globals() == old(self).globals(),
            final(self).global_names() == old(self).global_names(),
            final(self).buffer() == old(self).buffer(),
            final(self).capacity() == old(self).capacity(),
            final(self).channel() == old(self).channel(),
            final(self).typed_total() <= old(self).typed_total(),
    {
        let ghost pre = *self;
        let mut i: usize = 0;
        while i < event_types.len()
            invariant
                self.wf(),
                i <= event_types@.len(),
                self.subscriptions() == drop_handles(pre.subscriptions(), subscriber, event_types@.take(i as int)),
                self.globals() == pre.globals(),
                self.global_names() == pre.global_names(),
                self.buffer() == pre.buffer(),
                self.capacity() == pre.capacity(),
                self.channel() == pre.channel(),
                self.typed_total() <= pre.typed_total(),
            decreases event_types@.len() - i,
        {
            proof {
                assert(event_types@.take(i + 1).drop_last() =~= event_types@.take(i as int));
            }
            self.unsubscribe_one(subscriber, &event_types[i]);
            i = i + 1;
        }
        proof {
            assert(event_types@.take(event_types@.len() as int) =~= event_types@);
        }
    }

    /// Subscribes `h` to all events under the name `id`, replacing any
    /// subscription of that name.
    pub fn subscribe_global(&mut self, subscriber: u64, id: String)
        requires
            old(self).wf(),
        ensures
            final(self).wf(),
            final(self).subscriptions() == old(self).subscriptions(),
            final(self).globals() == old(self).globals().insert(id@, subscriber),
            old(self).globals().contains_key(id@) ==> final(self).global_names() == old(self).global_names(),
            !old(self).globals().contains_key(id@) ==> final(self).global_names() == old(self).global_names().push(id@),
            final(self).buffer() == old(self).buffer(),
            final(self).capacity() == old(self).capacity(),
            final(self).channel() == old(self).channel(),
            final(self).typed_total() == old(self).typed_total(),
    {
        self.global_subscribers.insert(id, subscriber);
    }

    /// Removes the subscription to all events named `id`, if there is one.
    pub fn unsubscribe_global(&mut self, id: &str)
        requires
            old(self).wf(),
        ensures
            final(self).wf(),
            final(self).subscriptions() == old(self).subscriptions(),
            final(self).globals() == old(self).globals().remove(id@),
            final(self).buffer() == old(self).buffer(),
            final(self).capacity() == old(self).capacity(),
            final(self).channel() == old(self).channel(),
            final(self).typed_total() == old(self).typed_total(),
    {
        self.global_subscribers.remove(id);
    }

    /// The handles that an event of type `t` is delivered to; see
    /// `recipients`.
    pub fn recipients_of(&self, t: &EventType) -> (r: Vec<u64>)
        requires
            self.wf(),
        ensures
            r@ == self.recipients(*t),
    {
        let mut r: Vec<u64> = Vec::new();
        match self.find_type(t) {
            Some(i) => {
                proof {
                    self.lemma_entry(i as int);
                }
                let mut j: usize = 0;
                while j < self.subscribers[i].1.len()
                    invariant
                        i < self.subscribers@.len(),
                        j <= self.subscribers@[i as int].1@.len(),
                        r@ == self.subscribers@[i as int].1@.take(j as int),
                    decreases self.subscribers@[i as int].1@.len() - j,
                {
                    r.push(self.subscribers[i].1[j]);
                    proof {
                        let s = self.subscribers@[i as int].1@;
                        assert(s.take(j + 1) =~= s.take(j as int).push(s[j as int]));
                    }
                    j = j + 1;
                }
                proof {
                    let s = self.subscribers@[i as int].1@;
                    assert(s.take(s.len() as int) =~= s);
                }
            },
            None => {},
        }
        let ghost first = r@;
        let globals = self.global_subscribers.values();
        let mut j: usize = 0;
        while j < globals.len()
            invariant
                j <= globals@.len(),
                r@ == first + globals@.take(j as int),
            decreases globals@.len() - j,
        {
            r.push(globals[j]);
            proof {
                assert(globals@.take(j + 1) =~= globals@.take(j as int).push(globals@[j as int]));
            }
            j = j + 1;
        }
        proof {
            assert(globals@.take(globals@.len() as int) =~= globals@);
            assert(globals@ =~= self.global_names().map_values(|n: Seq<char>| self.globals()[n]));
        }
        r
    }

    /// Adds `event` to the buffer, dropping the oldest event where the
    /// buffer is full, and gives the handles to deliver it to; see
    /// `recipients`. The bus must keep at least one event.
    pub fn publish(&mut self, event: Event) -> (r: Vec<u64>)
        requires
            old(self).wf(),
            old(self).capacity() > 0,
        ensures
            final(self).wf(),
            old(self).buffer().len() <= old(self).capacity(),
            final(self).buffer().len() <= final(self).capacity(),
            r@ == old(self).recipients(event.event_type),
            final(self).buffer() == buffered(old(self).buffer(), old(self).capacity(), event),
            final(self).subscriptions() == old(self).subscriptions(),
            final(self).globals() == old(self).globals(),
            final(self).global_names() == old(self).global_names(),
            final(self).capacity() == old(self).capacity(),
            final(self).channel() == old(self).channel(),
            final(self).typed_total() == old(self).typed_total(),
    {
        let ghost pre = *self;
        let r = self.recipients_of(&event.event_type);
        if self.event_buffer.len() >= self.buffer_size {
            self.event_buffer.remove(0);
            assert(self.event_buffer@ =~= pre.event_buffer@.drop_first());
        }
        self.event_buffer.push(event);
        assert(self.subscriptions() =~= pre.subscriptions());
        r
    }

    /// Publishes each of `events` in order, giving for each the handles to
    /// deliver it to. The bus must keep at least one event.
    pub fn publish_batch(&mut self, events: Vec<Event>) -> (r: Vec<Vec<u64>>)
        requires
            old(self).wf(),
            old(self).capacity() > 0,
        ensures
            final(self).wf(),
            final(self).buffer().len() <= final(self).capacity(),
            r@.len() == events@.len(),
            forall|i: int| 0 <= i < r@.len() ==> (#[trigger] r@[i])@ == old(self).recipients(events@[i].event_type),
            final(self).buffer() == buffered_all(old(self).buffer(), old(self).capacity(), events@),
            final(self).subscriptions() == old(self).subscriptions(),
            final(self).globals() == old(self).globals(),
            final(self).global_names() == old(self).global_names(),
            final(self).capacity() == old(self).capacity(),
            final(self).channel() == old(self).channel(),
            final(self).typed_total() == old(self).typed_total(),
    {
        let ghost pre = *self;
        let ghost all = events@;
        let count = events.len();
        let mut r: Vec<Vec<u64>> = Vec::new();
        let mut rest = events;
        let mut rev: Vec<Event> = Vec::new();
        while rest.len() > 0
            invariant
                rest@ + rev@.reverse() == all,
            decreases rest@.len(),
        {
            let e = rest.pop().unwrap();
            let ghost before = rev@;
            rev.push(e);
            proof {
                assert(rev@.reverse() =~= seq![e] + before.reverse());
            }
        }
        assert(rev@.reverse() =~= all);
        let mut i: usize = 0;
        while rev.len() > 0
            invariant
                self.wf(),
                self.capacity() > 0,
                rev@.reverse() == all.skip(i as int),
                i <= all.len(),
                all.len() == count,
                r@.len() == i,
                forall|a: int| 0 <= a < i ==> (#[trigger] r@[a])@ == pre.recipients(all[a].event_type),
                self.buffer() == buffered_all(pre.buffer(), pre.capacity(), all.take(i as int)),
                self.subscriptions() == pre.subscriptions(),
                self.globals() == pre.globals(),
                self.global_names() == pre.global_names(),
                self.capacity() == pre.capacity(),
                self.channel() == pre.channel(),
                self.typed_total() == pre.typed_total(),
            decreases rev@.len(),
        {
            let ghost rv = rev@;
            let e = rev.pop().unwrap();
            proof {
                assert(i < all.len()) by {
                    assert(all.skip(i as int).len() == rv.len());
                }
                assert(all[i as int] == e) by {
                    assert(rv.reverse()[0] == rv[rv.len() - 1]);
                    assert(rv.reverse()[0] == e);
                    assert(all.skip(i as int)[0] == e);
                }
                assert(rev@.reverse() =~= all.skip(i + 1)) by {
                    assert(rv.reverse().skip(1) =~= rev@.reverse());
                }
                assert(all.take(i + 1).drop_last() =~= all.take(i as int));
            }
            let got = self.publish(e);
            r.push(got);
            i = i + 1;
        }
        proof {
            assert(i == all.len()) by {
                assert(all.skip(i as int).len() == 0);
            }
            assert(all.take(i as int) =~= all);
        }
        r
    }

    /// Copies of the buffered events, oldest first.
    pub fn get_buffered_events(&self) -> (r: Vec<Event>)
        ensures
            copies(r@, self.buffer()),
    {
        let mut r: Vec<Event> = Vec::new();
        let mut i: usize = 0;
        while i < self.event_buffer.len()
            invariant
                i <= self.event_buffer@.len(),
                r@.len() == i,
                forall|j: int| 0 <= j < i ==> (#[trigger] r@[j]).same_as(self.event_buffer@[j]),
            decreases self.event_buffer@.len() - i,
        {
            r.push(self.event_buffer[i].duplicate());
            i = i + 1;
        }
        r
    }

    /// Copies of the buffered events of type `event_type`, oldest first.
    pub fn get_events_by_type(&self, event_type: EventType) -> (r: Vec<Event>)
        ensures
            copies(r@, self.buffer().filter(|e: Event| same_type(e.event_type, event_type))),
    {
        let ghost pred = |e: Event| same_type(e.event_type, event_type);
        let mut r: Vec<Event> = Vec::new();
        let mut i: usize = 0;
        proof {
            reveal(Seq::filter);
            assert(self.event_buffer@.take(0) =~= Seq::<Event>::empty());
        }
        while i < self.event_buffer.len()
            invariant
                i <= self.event_buffer@.len(),
                pred == (|e: Event| same_type(e.event_type, event_type)),
                copies(r@, self.event_buffer@.take(i as int).filter(pred)),
            decreases self.event_buffer@.len() - i,
        {
            let e = &self.event_buffer[i];
            proof {
                assert(self.event_buffer@.take(i + 1) =~= self.event_buffer@.take(i as int).push(*e));
                self.event_buffer@.take(i as int).lemma_filter_push(*e, pred);
            }
            if e.event_type.same_as(&event_type) {
                r.push(e.duplicate());
            }
            i = i + 1;
        }
        proof {
            assert(self.event_buffer@.take(self.event_buffer@.len() as int) =~= self.event_buffer@);
        }
        r
    }

    /// Copies of the buffered events still in the recorded state, oldest
    /// first.
    pub fn get_pending_events(&self) -> (r: Vec<Event>)
        ensures
            copies(r@, self.buffer().filter(|e: Event| e.state == EventState::Recorded)),
    {
        let ghost pred = |e: Event| e.state == EventState::Recorded;
        let mut r: Vec<Event> = Vec::new();
        let mut i: usize = 0;
        proof {
            reveal(Seq::filter);
            assert(self.event_buffer@.take(0) =~= Seq::<Event>::empty());
        }
        while i < self.event_buffer.len()
            invariant
                i <= self.event_buffer@.len(),
                pred == (|e: Event| e.state == EventState::Recorded),
                copies(r@, self.event_buffer@.take(i as int).filter(pred)),
            decreases self.event_buffer@.len() - i,
        {
            let e = &self.event_buffer[i];
            proof {
                assert(self.event_buffer@.take(i + 1) =~= self.event_buffer@.take(i as int).push(*e));
                self.event_buffer@.take(i as int).lemma_filter_push(*e, pred);
            }
            if e.state == EventState::Recorded {
                r.push(e.duplicate());
            }
            i = i + 1;
        }
        proof {
            assert(self.event_buffer@.take(self.event_buffer@.len() as int) =~= self.event_buffer@);
        }
        r
    }

    /// Empties the buffer.
    pub fn clear_buffer(&mut self)
        requires
            old(self).wf(),
        ensures
            final(self).wf(),
            final(self).buffer().len() == 0,
            final(self).subscriptions() == old(self).subscriptions(),
            final(self).globals() == old(self).globals(),
            final(self).global_names() == old(self).global_names(),
            final(self).capacity() == old(self).capacity(),
            final(self).channel() == old(self).channel(),
            final(self).typed_total() == old(self).typed_total(),
    {
        let ghost pre = *self;
        self.event_buffer.clear();
        assert(self.subscriptions() =~= pre.subscriptions());
    }

    /// The number of handles subscribed to `event_type`.
    pub fn subscriber_count(&self, event_type: &EventType) -> (r: usize)
        requires
            self.wf(),
        ensures
            r == handles_at(self.subscriptions(), type_key(*event_type)).len(),
    {
        match self.find_type(event_type) {
            Some(i) => {
                proof {
                    self.lemma_entry(i as int);
                }
                self.subscribers[i].1.len()
            },
            None => 0,
        }
    }

    /// The number of subscriptions to all events plus the summed lengths of
    /// the typed subscription lists, which together must fit in a `usize`.
    pub fn total_subscribers(&self) -> (r: usize)
        requires
            self.globals().len() + self.typed_total() <= usize::MAX,
        ensures
            r == self.globals().len() + self.typed_total(),
    {
        let global = self.global_subscribers.len();
        let mut typed: usize = 0;
        let mut i: usize = 0;
        proof {
            lemma_total_prefix(self.subscribers@, 0);
            assert(self.subscribers@.take(0) =~= Seq::<(EventType, Vec<u64>)>::empty());
        }
        while i < self.subscribers.len()
            invariant
                i <= self.subscribers@.len(),
                typed == list_total(self.subscribers@.take(i as int)),
                list_total(self.subscribers@) + global <= usize::MAX,
                global == self.globals().len(),
            decreases self.subscribers@.len() - i,
        {
            proof {
                assert(self.subscribers@.take(i + 1).drop_last() =~= self.subscribers@.take(i as int));
                lemma_total_prefix(self.subscribers@, i + 1);
            }
            typed = typed + self.subscribers[i].1.len();
            i = i + 1;
        }
        proof {
            assert(self.subscribers@.take(i as int) =~= self.subscribers@);
        }
        global + typed
    }

    /// A handle for publishing events of the given project and operation.
    pub fn scoped(&self, project_id: Option<ProjectId>, operation_id: Option<OperationId>) -> (r: ScopedEventBus)
        ensures
            r.project_id == project_id,
            r.operation_id == operation_id,
    {
        ScopedEventBus { project_id, operation_id }
    }
}

proof fn lemma_total_prefix(s: Seq<(EventType, Vec<u64>)>, i: int)
    requires
        0 <= i <= s.len(),
    ensures
        0 <= list_total(s.take(i)) <= list_total(s),
    decreases s.len(),
{
    if s.len() > 0 {
        if i == s.len() {
            assert(s.take(i) =~= s);
            lemma_total_prefix(s.drop_last(), i - 1);
            assert(s.drop_last().take(i - 1) =~= s.drop_last());
        } else {
            lemma_total_prefix(s.drop_last(), i);
            assert(s.drop_last().take(i) =~= s.take(i));
        }
    }
}

/// Publishes events that belong to a project and an operation.
pub struct ScopedEventBus {
    pub project_id: Option<ProjectId>,
    pub operation_id: Option<OperationId>,
}

impl ScopedEventBus {
    /// The event that `publish` sends, with identifier `id` and made at time
    /// `now`: a new event of the given type with the project and operation
    /// of this scope and the given payload.
    pub fn event_at(&self, event_type: EventType, payload: EventPayload, id: EventId, now: i64) -> (r: Event)
        ensures
            r.id == id,
            r.timestamp == now,
            r.event_type == event_type,
            r.project_id == self.project_id,
            r.operation_id == self.operation_id,
            r.payload == payload,
            r.actor_id is None,
            r.state == EventState::Recorded,
            r.parent_id is None,
    {
        let mut event = Event::new_at(event_type, id, now);
        event.project_id = self.project_id;
        event.operation_id = self.operation_id;
        event.payload = payload;
        event
    }

    /// Publishes a new event of the given type with the project and
    /// operation of this scope and the given payload; see `event_at`. The
    /// bus must keep at least one event.
    pub fn publish(&self, bus: &mut EventBus, event_type: EventType, payload: EventPayload) -> (r: Vec<u64>)
        requires
            old(bus).wf(),
            old(bus).capacity() > 0,
        ensures
            final(bus).wf(),
            r@ == old(bus).recipients(event_type),
            exists|e: Event|
                #[trigger] scoped_event(e, *self, event_type, payload) && final(bus).buffer() == buffered(
                    old(bus).buffer(),
                    old(bus).capacity(),
                    e,
                ),
            final(bus).subscriptions() == old(bus).subscriptions(),
            final(bus).globals() == old(bus).globals(),
            final(bus).capacity() == old(bus).capacity(),
    {
        let ghost t = event_type;
        let ghost pl = payload;
        let id = EventId::new();
        let now = unix_millis_now();
        let event = self.event_at(event_type, payload, id, now);
        let ghost e = event;
        let r = bus.publish(event);
        assert(scoped_event(e, *self, t, pl));
        r
    }
}

/// `e` is an event that a scope publishes for the given type and payload.
pub open spec fn scoped_event(e: Event, s: ScopedEventBus, t: EventType, p: EventPayload) -> bool {
    &&& e.event_type == t
    &&& e.project_id == s.project_id
    &&& e.operation_id == s.operation_id
    &&& e.payload == p
    &&& e.actor_id is None
    &&& e.state == EventState::Recorded
    &&& e.parent_id is None
}

/// A subscriber that writes each event it receives to the log.
pub struct LoggingEventSubscriber {
    name: String,
}

impl LoggingEventSubscriber {
    /// A logging subscriber with the given name.
    pub fn new(name: String) -> (r: LoggingEventSubscriber)
        ensures
            r.name_view() == name@,
    {
        LoggingEventSubscriber { name }
    }

    /// The subscriber's name.
    pub closed spec fn name_view(self) -> Seq<char> {
        self.name@
    }

    /// The subscriber's name.
    pub fn name(&self) -> (r: &str)
        ensures
            r@ == self.name_view(),
    {
        self.name.as_str()
    }
}

/// A subscriber that hands each event to each of a list of subscribers.
pub struct MultiEventSubscriber {
    subscribers: Vec<u64>,
    name: String,
}

impl MultiEventSubscriber {
    /// A subscriber with the given name and no members.
    pub fn new(name: String) -> (r: MultiEventSubscriber)
        ensures
            r.name_view() == name@,
            r.members_view().len() == 0,
    {
        MultiEventSubscriber { subscribers: Vec::new(), name }
    }

    /// The subscriber's name.
    pub closed spec fn name_view(self) -> Seq<char> {
        self.name@
    }

    /// The handles of the members, in the order they were added.
    pub closed spec fn members_view(self) -> Seq<u64> {
        self.subscribers@
    }

    /// The subscriber with `subscriber` added as its last member.
    pub fn add_subscriber(self, subscriber: u64) -> (r: MultiEventSubscriber)
        ensures
            r.name_view() == self.name_view(),
            r.members_view() == self.members_view().push(subscriber),
    {
        let mut s = self;
        s.subscribers.push(subscriber);
        s
    }

    /// The subscriber's name.
    pub fn name(&self) -> (r: &str)
        ensures
            r@ == self.name_view(),
    {
        self.name.as_str()
    }

    /// The handles of the members, in the order they were added.
    pub fn members(&self) -> (r: Vec<u64>)
        ensures
            r@ == self.members_view(),
    {
        let mut r: Vec<u64> = Vec::new();
        let mut i: usize = 0;
        while i < self.subscribers.len()
            invariant
                i <= self.subscribers@.len(),
                r@ == self.subscribers@.take(i as int),
            decreases self.subscribers@.len() - i,
        {
            r.push(self.subscribers[i]);
            proof {
                assert(self.subscribers@.take(i + 1) =~= self.subscribers@.take(i as int).push(self.subscribers@[i as int]));
            }
            i = i + 1;
        }
        assert(self.subscribers@.take(i as int) =~= self.subscribers@);
        r
    }
}

/// The buffer never holds more events than the bus keeps.
pub proof fn buffer_within_capacity(b: EventBus)
    requires
        b.wf(),
    ensures
        b.buffer().len() <= b.capacity(),
{
}

/// Publishing to a buffer that holds no more events than the bus keeps
/// leaves the newest of the buffered events followed by the new one, as
/// many as the bus keeps: the oldest is dropped only where the buffer was
/// full.
pub proof fn publish_keeps_newest(buffer: Seq<Event>, size: nat, e: Event)
    requires
        size > 0,
        buffer.len() <= size,
    ensures
        buffered(buffer, size, e) == buffer.push(e).skip(
            if buffer.len() + 1 > size { buffer.len() + 1 - size } else { 0 },
        ),
        buffered(buffer, size, e).len() <= size,
{
    if buffer.len() >= size {
        assert(buffer.drop_first().push(e) =~= buffer.push(e).skip(1));
    } else {
        assert(buffer.push(e).skip(0) =~= buffer.push(e));
    }
}

/// Starting from an empty buffer, after any events are published the
/// buffer holds the most recent of them, as many as it keeps, oldest
/// first.
pub proof fn buffer_keeps_most_recent(size: nat, events: Seq<Event>)
    requires
        size > 0,
    ensures
        buffered_all(Seq::empty(), size, events) == events.skip(
            if events.len() > size { events.len() - size } else { 0 },
        ),
    decreases events.len(),
{
    let n = events.len();
    if n > 0 {
        let prev = events.drop_last();
        buffer_keeps_most_recent(size, prev);
        let start = if prev.len() > size { prev.len() - size } else { 0 };
        let b = prev.skip(start);
        let e = events.last();
        if b.len() >= size {
            assert(b.drop_first().push(e) =~= events.skip(n - size));
        } else {
            assert(b.push(e) =~= events.skip(if n > size { n - size } else { 0 }));
        }
    } else {
        assert(events.skip(0) =~= events);
    }
}

/// Subscribing a handle twice to a type is the same as subscribing it
/// once.
pub proof fn subscribe_is_idempotent(m: Map<(int, Seq<char>), Seq<u64>>, t: EventType, h: u64)
    ensures
        add_handle(add_handle(m, type_key(t), h), type_key(t), h) == add_handle(m, type_key(t), h),
{
    let k = type_key(t);
    let once = add_handle(m, k, h);
    assert(handles_at(once, k).contains(h)) by {
        if !handles_at(m, k).contains(h) {
            assert(handles_at(once, k)[handles_at(m, k).len() as int] == h);
        }
    }
    assert(add_handle(once, k, h) =~= once);
}

proof fn lemma_filter_keeps_all(s: Seq<u64>, h: u64)
    requires
        !s.contains(h),
    ensures
        s.filter(other_than(h)) == s,
    decreases s.len(),
{
    reveal(Seq::filter);
    if s.len() > 0 {
        assert(!s.drop_last().contains(h)) by {
            if s.drop_last().contains(h) {
                let i = choose|i: int| 0 <= i < s.drop_last().len() && s.drop_last()[i] == h;
                assert(s[i] == h);
            }
        }
        lemma_filter_keeps_all(s.drop_last(), h);
        assert(s.drop_last().push(s.last()) =~= s);
    }
}

/// Subscribing a handle that was not subscribed to a type and then
/// unsubscribing it leaves the type's subscriptions as they were.
pub proof fn subscribe_then_unsubscribe(m: Map<(int, Seq<char>), Seq<u64>>, t: EventType, h: u64)
    requires
        !handles_at(m, type_key(t)).contains(h),
    ensures
        handles_at(drop_handle(add_handle(m, type_key(t), h), type_key(t), h), type_key(t)) == handles_at(
            m,
            type_key(t),
        ),
{
    let k = type_key(t);
    let before = handles_at(m, k);
    reveal(Seq::filter);
    before.lemma_filter_push(h, other_than(h));
    lemma_filter_keeps_all(before, h);
}

proof fn lemma_filter_keeps_distinct(s: Seq<u64>, p: spec_fn(u64) -> bool)
    requires
        s.no_duplicates(),
    ensures
        s.filter(p).no_duplicates(),
    decreases s.len(),
{
    reveal(Seq::filter);
    if s.len() > 0 {
        lemma_filter_keeps_distinct(s.drop_last(), p);
        if p(s.last()) {
            assert(!s.drop_last().filter(p).contains(s.last())) by {
                if s.drop_last().filter(p).contains(s.last()) {
                    s.drop_last().lemma_filter_contains_rev(p, s.last());
                    let d = choose|d: int| 0 <= d < s.drop_last().len() && s.drop_last()[d] == s.last();
                    assert(s[d] == s[s.len() - 1]);
                }
            }
        }
    }
}

/// The handles subscribed to an event type are listed once each. (A handle
/// subscribed both to the type and to all events, or to all events under
/// two names, is delivered to once for each subscription.)
pub proof fn typed_recipients_distinct(b: EventBus, t: EventType)
    requires
        b.wf(),
    ensures
        handles_at(b.subscriptions(), type_key(t)).no_duplicates(),
{
    let k = type_key(t);
    if b.subscriptions().contains_key(k) {
        let i = choose|i: int| 0 <= i < b.subscribers@.len() && type_key(b.subscribers@[i].0) == k;
        b.lemma_entry(i);
    }
}

proof fn lemma_total_replace(s: Seq<(EventType, Vec<u64>)>, i: int, e: (EventType, Vec<u64>))
    requires
        0 <= i < s.len(),
    ensures
        list_total(s.update(i, e)) == list_total(s) - s[i].1@.len() + e.1@.len(),
    decreases s.len(),
{
    if i < s.len() - 1 {
        lemma_total_replace(s.drop_last(), i, e);
        assert(s.update(i, e).drop_last() =~= s.drop_last().update(i, e));
    } else {
        assert(s.update(i, e).drop_last() =~= s.drop_last());
    }
}

} // verus!
