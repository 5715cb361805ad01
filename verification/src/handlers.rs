//! Typed events and the handlers registered for them by event type name.
//! Delivering an event to its handlers is up to the embedding program,
//! which asks the bus for the handlers of the event's type.

use vstd::prelude::*;
use crate::events::EventType;
use crate::ids::{EventId, KnowledgeId};
use crate::text_map::TextMap;
use crate::error::MalverdeError;
use crate::clock::unix_seconds_now;

verus! {

/// An event of any type that carries JSON data as text.
#[derive(Debug)]
pub struct GenericEvent {
    pub id: EventId,
    pub event_type: EventType,
    /// Seconds since the Unix epoch.
    pub timestamp: i64,
    pub data: String,
}

impl GenericEvent {
    /// An event of the given type and data, with identifier `id`, made at
    /// `now`.
    pub fn new_at(event_type: EventType, data: String, id: EventId, now: i64) -> (r: GenericEvent)
        ensures
            r == (GenericEvent { id, event_type, timestamp: now, data }),
    {
        GenericEvent { id, event_type, timestamp: now, data }
    }

    /// An event as `new_at` makes it, with a fresh identifier, made now.
    pub fn new(event_type: EventType, data: String) -> (r: GenericEvent)
        ensures
            r.event_type == event_type,
            r.data == data,
    {
        let now = unix_seconds_now();
        GenericEvent::new_at(event_type, data, EventId::new(), now)
    }

    /// The event's type.
    pub fn event_type(&self) -> (r: EventType)
        ensures
            r == self.event_type,
    {
        self.event_type.duplicate()
    }

    /// The event's identifier.
    pub fn id(&self) -> (r: EventId)
        ensures
            r == self.id,
    {
        self.id
    }

    /// The event's time.
    pub fn timestamp(&self) -> (r: i64)
        ensures
            r == self.timestamp,
    {
        self.timestamp
    }
}

/// The event that knowledge was added.
#[derive(Debug)]
pub struct KnowledgeAddedEvent {
    pub id: EventId,
    pub knowledge_id: KnowledgeId,
    /// Seconds since the Unix epoch.
    pub timestamp: i64,
}

impl KnowledgeAddedEvent {
    /// The event for the given knowledge, with identifier `id`, made at
    /// `now`.
    pub fn new_at(knowledge_id: KnowledgeId, id: EventId, now: i64) -> (r: KnowledgeAddedEvent)
        ensures
            r == (KnowledgeAddedEvent { id, knowledge_id, timestamp: now }),
    {
        KnowledgeAddedEvent { id, knowledge_id, timestamp: now }
    }

    /// The event as `new_at` makes it, with a fresh identifier, made now.
    pub fn new(knowledge_id: KnowledgeId) -> (r: KnowledgeAddedEvent)
        ensures
            r.knowledge_id == knowledge_id,
    {
        let now = unix_seconds_now();
        KnowledgeAddedEvent::new_at(knowledge_id, EventId::new(), now)
    }

    /// The event's type: knowledge added.
    pub fn event_type(&self) -> (r: EventType)
        ensures
            r == EventType::KnowledgeAdded,
    {
        EventType::KnowledgeAdded
    }

    /// The event's identifier.
    pub fn id(&self) -> (r: EventId)
        ensures
            r == self.id,
    {
        self.id
    }

    /// The event's time.
    pub fn timestamp(&self) -> (r: i64)
        ensures
            r == self.timestamp,
    {
        self.timestamp
    }
}

/// The handler that writes each event it receives to the log.
#[derive(Debug)]
pub struct LogHandler;

impl LogHandler {
    /// The handler's name, "LogHandler".
    pub fn name(&self) -> (r: &'static str)
        ensures
            r@ == "LogHandler"@,
    {
        "LogHandler"
    }
}

/// The handlers registered for each event type name, by handle.
#[derive(Debug)]
pub struct EventBus {
    handlers: TextMap<Vec<u64>>,
}

/// The handles registered under `name`, or none.
pub open spec fn handlers_at(m: Map<Seq<char>, Seq<u64>>, name: Seq<char>) -> Seq<u64> {
    if m.contains_key(name) {
        m[name]
    } else {
        Seq::empty()
    }
}

impl EventBus {
    /// The handles registered under each event type name, in the order they
    /// were registered.
    pub closed spec fn registrations(self) -> Map<Seq<char>, Seq<u64>> {
        Map::new(|k: Seq<char>| self.handlers.view().contains_key(k), |k: Seq<char>| self.handlers.view()[k]@)
    }

    /// A bus with no handlers.
    pub fn new() -> (r: EventBus)
        ensures
            r.registrations().is_empty(),
    {
        let r = EventBus { handlers: TextMap::new() };
        assert(r.registrations() =~= Map::empty());
        r
    }

    /// Registers `handler` for events of the type named `kind_name`, after
    /// those already registered for it.
    pub fn subscribe(&mut self, kind_name: String, handler: u64) -> (r: Result<(), MalverdeError>)
        ensures
            r is Ok,
            final(self).registrations() == old(self).registrations().insert(
                kind_name@,
                handlers_at(old(self).registrations(), kind_name@).push(handler),
            ),
    {
        let ghost pre = self.registrations();
        let mut list: Vec<u64> = match self.handlers.get(kind_name.as_str()) {
            Some(l) => {
                let mut c: Vec<u64> = Vec::new();
                let mut i: usize = 0;
                while i < l.len()
                    invariant
                        i <= l@.len(),
                        c@ == l@.take(i as int),
                    decreases l@.len() - i,
                {
                    c.push(l[i]);
                    proof {
                        assert(l@.take(i + 1) =~= l@.take(i as int).push(l@[i as int]));
                    }
                    i = i + 1;
                }
                assert(l@.take(i as int) =~= l@);
                c
            },
            None => Vec::new(),
        };
        assert(list@ == handlers_at(pre, kind_name@));
        list.push(handler);
        let ghost k = kind_name@;
        self.handlers.insert(kind_name, list);
        assert(self.registrations() =~= pre.insert(k, handlers_at(pre, k).push(handler)));
        Ok(())
    }

    /// The handles registered for events of the type named `kind_name`, in
    /// the order they were registered.
    pub fn handlers_for(&self, kind_name: &str) -> (r: Vec<u64>)
        ensures
            r@ == handlers_at(self.registrations(), kind_name@),
    {
        match self.handlers.get(kind_name) {
            Some(l) => {
                let mut c: Vec<u64> = Vec::new();
                let mut i: usize = 0;
                while i < l.len()
                    invariant
                        i <= l@.len(),
                        c@ == l@.take(i as int),
                    decreases l@.len() - i,
                {
                    c.push(l[i]);
                    proof {
                        assert(l@.take(i + 1) =~= l@.take(i as int).push(l@[i as int]));
                    }
                    i = i + 1;
                }
                assert(l@.take(i as int) =~= l@);
                c
            },
            None => Vec::new(),
        }
    }
}

} // verus!
