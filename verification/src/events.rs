//! Events of the framework: their types, states and payloads, a builder,
//! and a bus that buffers published events and keeps track of subscribers.

use vstd::prelude::*;
use crate::clock::unix_millis_now;
use crate::ids::{ActorId, EventId, OperationId, ProjectId};
use crate::text_map::TextMap;
use crate::types::Confidence;

verus! {

/// The type of an event.
#[derive(Debug)]
pub enum EventType {
    SystemStartup,
    SystemShutdown,
    SystemHealthCheck,
    SystemError,
    ProjectCreated,
    ProjectUpdated,
    ProjectDeleted,
    ProjectStateChanged,
    ActorCreated,
    ActorUpdated,
    ActorDeleted,
    ActorCommandExecuted,
    OperationStarted,
    OperationCompleted,
    OperationFailed,
    OperationPaused,
    OperationResumed,
    JobCreated,
    JobStarted,
    JobProgress,
    JobCompleted,
    JobFailed,
    JobCancelled,
    JobPaused,
    JobResumed,
    KnowledgeAdded,
    KnowledgeUpdated,
    KnowledgeRemoved,
    KnowledgeSearched,
    KnowledgeIndexed,
    MemoryAdded,
    MemoryUpdated,
    MemoryRemoved,
    MemorySearched,
    MemoryIndexed,
    EvidenceCollected,
    EvidenceAnalyzed,
    EvidenceStored,
    EvidenceRetrieved,
    LearningStarted,
    LearningProgress,
    LearningCompleted,
    LearningFailed,
    ModelTrained,
    PluginLoaded,
    PluginUnloaded,
    PluginError,
    PluginCommandExecuted,
    SecurityCheckPassed,
    SecurityCheckFailed,
    PermissionGranted,
    PermissionDenied,
    StorageConnected,
    StorageDisconnected,
    StorageError,
    MigrationApplied,
    Custom(String),
}

/// The number of the variant of an event type; custom types share one.
pub open spec fn type_code(t: EventType) -> int {
    match t {
        EventType::SystemStartup => 0,
        EventType::SystemShutdown => 1,
        EventType::SystemHealthCheck => 2,
        EventType::SystemError => 3,
        EventType::ProjectCreated => 4,
        EventType::ProjectUpdated => 5,
        EventType::ProjectDeleted => 6,
        EventType::ProjectStateChanged => 7,
        EventType::ActorCreated => 8,
        EventType::ActorUpdated => 9,
        EventType::ActorDeleted => 10,
        EventType::ActorCommandExecuted => 11,
        EventType::OperationStarted => 12,
        EventType::OperationCompleted => 13,
        EventType::OperationFailed => 14,
        EventType::OperationPaused => 15,
        EventType::OperationResumed => 16,
        EventType::JobCreated => 17,
        EventType::JobStarted => 18,
        EventType::JobProgress => 19,
        EventType::JobCompleted => 20,
        EventType::JobFailed => 21,
        EventType::JobCancelled => 22,
        EventType::JobPaused => 23,
        EventType::JobResumed => 24,
        EventType::KnowledgeAdded => 25,
        EventType::KnowledgeUpdated => 26,
        EventType::KnowledgeRemoved => 27,
        EventType::KnowledgeSearched => 28,
        EventType::KnowledgeIndexed => 29,
        EventType::MemoryAdded => 30,
        EventType::MemoryUpdated => 31,
        EventType::MemoryRemoved => 32,
        EventType::MemorySearched => 33,
        EventType::MemoryIndexed => 34,
        EventType::EvidenceCollected => 35,
        EventType::EvidenceAnalyzed => 36,
        EventType::EvidenceStored => 37,
        EventType::EvidenceRetrieved => 38,
        EventType::LearningStarted => 39,
        EventType::LearningProgress => 40,
        EventType::LearningCompleted => 41,
        EventType::LearningFailed => 42,
        EventType::ModelTrained => 43,
        EventType::PluginLoaded => 44,
        EventType::PluginUnloaded => 45,
        EventType::PluginError => 46,
        EventType::PluginCommandExecuted => 47,
        EventType::SecurityCheckPassed => 48,
        EventType::SecurityCheckFailed => 49,
        EventType::PermissionGranted => 50,
        EventType::PermissionDenied => 51,
        EventType::StorageConnected => 52,
        EventType::StorageDisconnected => 53,
        EventType::StorageError => 54,
        EventType::MigrationApplied => 55,
        EventType::Custom(_) => 56,
    }
}

/// The name of a custom event type; empty for the other types.
pub open spec fn custom_name(t: EventType) -> Seq<char> {
    match t {
        EventType::Custom(s) => s@,
        _ => Seq::empty(),
    }
}

/// Two event types are the same: the same variant and, for custom types,
/// the same name.
pub open spec fn same_type(a: EventType, b: EventType) -> bool {
    type_code(a) == type_code(b) && custom_name(a) == custom_name(b)
}

impl EventType {
    /// The number of the variant; see `type_code`.
    pub fn code(&self) -> (r: u8)
        ensures
            r as int == type_code(*self),
    {
        match self {
            EventType::SystemStartup => 0,
            EventType::SystemShutdown => 1,
            EventType::SystemHealthCheck => 2,
            EventType::SystemError => 3,
            EventType::ProjectCreated => 4,
            EventType::ProjectUpdated => 5,
            EventType::ProjectDeleted => 6,
            EventType::ProjectStateChanged => 7,
            EventType::ActorCreated => 8,
            EventType::ActorUpdated => 9,
            EventType::ActorDeleted => 10,
            EventType::ActorCommandExecuted => 11,
            EventType::OperationStarted => 12,
            EventType::OperationCompleted => 13,
            EventType::OperationFailed => 14,
            EventType::OperationPaused => 15,
            EventType::OperationResumed => 16,
            EventType::JobCreated => 17,
            EventType::JobStarted => 18,
            EventType::JobProgress => 19,
            EventType::JobCompleted => 20,
            EventType::JobFailed => 21,
            EventType::JobCancelled => 22,
            EventType::JobPaused => 23,
            EventType::JobResumed => 24,
            EventType::KnowledgeAdded => 25,
            EventType::KnowledgeUpdated => 26,
            EventType::KnowledgeRemoved => 27,
            EventType::KnowledgeSearched => 28,
            EventType::KnowledgeIndexed => 29,
            EventType::MemoryAdded => 30,
            EventType::MemoryUpdated => 31,
            EventType::MemoryRemoved => 32,
            EventType::MemorySearched => 33,
            EventType::MemoryIndexed => 34,
            EventType::EvidenceCollected => 35,
            EventType::EvidenceAnalyzed => 36,
            EventType::EvidenceStored => 37,
            EventType::EvidenceRetrieved => 38,
            EventType::LearningStarted => 39,
            EventType::LearningProgress => 40,
            EventType::LearningCompleted => 41,
            EventType::LearningFailed => 42,
            EventType::ModelTrained => 43,
            EventType::PluginLoaded => 44,
            EventType::PluginUnloaded => 45,
            EventType::PluginError => 46,
            EventType::PluginCommandExecuted => 47,
            EventType::SecurityCheckPassed => 48,
            EventType::SecurityCheckFailed => 49,
            EventType::PermissionGranted => 50,
            EventType::PermissionDenied => 51,
            EventType::StorageConnected => 52,
            EventType::StorageDisconnected => 53,
            EventType::StorageError => 54,
            EventType::MigrationApplied => 55,
            EventType::Custom(_) => 56,
        }
    }

    /// Whether `other` is the same type; see `same_type`.
    pub fn same_as(&self, other: &EventType) -> (r: bool)
        ensures
            r == same_type(*self, *other),
    {
        match (self, other) {
            (EventType::Custom(a), EventType::Custom(b)) => *a == *b,
            (EventType::Custom(_), _) => false,
            (_, EventType::Custom(_)) => false,
            _ => self.code() == other.code(),
        }
    }

    /// A copy of the type.
    pub fn duplicate(&self) -> (r: EventType)
        ensures
            r == *self,
    {
        match self {
            EventType::Custom(s) => EventType::Custom(s.clone()),
            EventType::SystemStartup => EventType::SystemStartup,
            EventType::SystemShutdown => EventType::SystemShutdown,
            EventType::SystemHealthCheck => EventType::SystemHealthCheck,
            EventType::SystemError => EventType::SystemError,
            EventType::ProjectCreated => EventType::ProjectCreated,
            EventType::ProjectUpdated => EventType::ProjectUpdated,
            EventType::ProjectDeleted => EventType::ProjectDeleted,
            EventType::ProjectStateChanged => EventType::ProjectStateChanged,
            EventType::ActorCreated => EventType::ActorCreated,
            EventType::ActorUpdated => EventType::ActorUpdated,
            EventType::ActorDeleted => EventType::ActorDeleted,
            EventType::ActorCommandExecuted => EventType::ActorCommandExecuted,
            EventType::OperationStarted => EventType::OperationStarted,
            EventType::OperationCompleted => EventType::OperationCompleted,
            EventType::OperationFailed => EventType::OperationFailed,
            EventType::OperationPaused => EventType::OperationPaused,
            EventType::OperationResumed => EventType::OperationResumed,
            EventType::JobCreated => EventType::JobCreated,
            EventType::JobStarted => EventType::JobStarted,
            EventType::JobProgress => EventType::JobProgress,
            EventType::JobCompleted => EventType::JobCompleted,
            EventType::JobFailed => EventType::JobFailed,
            EventType::JobCancelled => EventType::JobCancelled,
            EventType::JobPaused => EventType::JobPaused,
            EventType::JobResumed => EventType::JobResumed,
            EventType::KnowledgeAdded => EventType::KnowledgeAdded,
            EventType::KnowledgeUpdated => EventType::KnowledgeUpdated,
            EventType::KnowledgeRemoved => EventType::KnowledgeRemoved,
            EventType::KnowledgeSearched => EventType::KnowledgeSearched,
            EventType::KnowledgeIndexed => EventType::KnowledgeIndexed,
            EventType::MemoryAdded => EventType::MemoryAdded,
            EventType::MemoryUpdated => EventType::MemoryUpdated,
            EventType::MemoryRemoved => EventType::MemoryRemoved,
            EventType::MemorySearched => EventType::MemorySearched,
            EventType::MemoryIndexed => EventType::MemoryIndexed,
            EventType::EvidenceCollected => EventType::EvidenceCollected,
            EventType::EvidenceAnalyzed => EventType::EvidenceAnalyzed,
            EventType::EvidenceStored => EventType::EvidenceStored,
            EventType::EvidenceRetrieved => EventType::EvidenceRetrieved,
            EventType::LearningStarted => EventType::LearningStarted,
            EventType::LearningProgress => EventType::LearningProgress,
            EventType::LearningCompleted => EventType::LearningCompleted,
            EventType::LearningFailed => EventType::LearningFailed,
            EventType::ModelTrained => EventType::ModelTrained,
            EventType::PluginLoaded => EventType::PluginLoaded,
            EventType::PluginUnloaded => EventType::PluginUnloaded,
            EventType::PluginError => EventType::PluginError,
            EventType::PluginCommandExecuted => EventType::PluginCommandExecuted,
            EventType::SecurityCheckPassed => EventType::SecurityCheckPassed,
            EventType::SecurityCheckFailed => EventType::SecurityCheckFailed,
            EventType::PermissionGranted => EventType::PermissionGranted,
            EventType::PermissionDenied => EventType::PermissionDenied,
            EventType::StorageConnected => EventType::StorageConnected,
            EventType::StorageDisconnected => EventType::StorageDisconnected,
            EventType::StorageError => EventType::StorageError,
            EventType::MigrationApplied => EventType::MigrationApplied,
        }
    }
}

/// The processing state of an event.
#[derive(Clone, Copy, Debug, PartialEq, Eq, Hash, Structural)]
pub enum EventState {
    Recorded,
    Processing,
    Failed,
    Archived,
}

/// What an event carries.
#[derive(Debug)]
pub enum EventPayload {
    Empty,
    Text(String),
    /// JSON text.
    Json(String),
    /// Named fields and their JSON text.
    Structured(TextMap<String>),
    Binary(Vec<u8>),
    Reference { uri: String, kind: String },
}

impl EventPayload {
    /// `other` carries the same as `self`.
    pub open spec fn same_as(self, other: EventPayload) -> bool {
        match (self, other) {
            (EventPayload::Empty, EventPayload::Empty) => true,
            (EventPayload::Text(a), EventPayload::Text(b)) => a == b,
            (EventPayload::Json(a), EventPayload::Json(b)) => a == b,
            (EventPayload::Structured(a), EventPayload::Structured(b)) => a.view() == b.view()
                && a.key_seq() == b.key_seq(),
            (EventPayload::Binary(a), EventPayload::Binary(b)) => a@ == b@,
            (
                EventPayload::Reference { uri: u1, kind: k1 },
                EventPayload::Reference { uri: u2, kind: k2 },
            ) => u1 == u2 && k1 == k2,
            _ => false,
        }
    }

    /// A copy of the payload.
    pub fn duplicate(&self) -> (r: EventPayload)
        ensures
            r.same_as(*self),
    {
        match self {
            EventPayload::Empty => EventPayload::Empty,
            EventPayload::Text(s) => EventPayload::Text(s.clone()),
            EventPayload::Json(s) => EventPayload::Json(s.clone()),
            EventPayload::Structured(m) => EventPayload::Structured(m.duplicate()),
            EventPayload::Binary(b) => {
                let c = b.clone();
                assert(c@ =~= b@);
                EventPayload::Binary(c)
            },
            EventPayload::Reference { uri, kind } => EventPayload::Reference {
                uri: uri.clone(),
                kind: kind.clone(),
            },
        }
    }
}

/// An event. Its timestamp is in milliseconds since the Unix epoch.
#[derive(Debug)]
pub struct Event {
    pub id: EventId,
    pub project_id: Option<ProjectId>,
    pub operation_id: Option<OperationId>,
    pub actor_id: Option<ActorId>,
    pub event_type: EventType,
    pub state: EventState,
    pub payload: EventPayload,
    pub timestamp: i64,
    pub confidence: Confidence,
    pub metadata: TextMap<String>,
    pub parent_id: Option<EventId>,
    pub child_ids: Vec<EventId>,
    pub sequence: u64,
    pub source: String,
}

/// The source an event has when none is given.
pub open spec fn unknown_source() -> Seq<char> {
    "unknown"@
}

impl Event {
    /// `other` is the same event as `self`.
    pub open spec fn same_as(self, other: Event) -> bool {
        &&& self.id == other.id
        &&& self.project_id == other.project_id
        &&& self.operation_id == other.operation_id
        &&& self.actor_id == other.actor_id
        &&& self.event_type == other.event_type
        &&& self.state == other.state
        &&& self.payload.same_as(other.payload)
        &&& self.timestamp == other.timestamp
        &&& self.confidence == other.confidence
        &&& self.metadata.view() == other.metadata.view()
        &&& self.metadata.key_seq() == other.metadata.key_seq()
        &&& self.parent_id == other.parent_id
        &&& self.child_ids@ == other.child_ids@
        &&& self.sequence == other.sequence
        &&& self.source == other.source
    }

    /// A copy of the event.
    pub fn duplicate(&self) -> (r: Event)
        ensures
            r.same_as(*self),
    {
        let child_ids = self.child_ids.clone();
        assert(child_ids@ =~= self.child_ids@);
        Event {
            id: self.id,
            project_id: self.project_id,
            operation_id: self.operation_id,
            actor_id: self.actor_id,
            event_type: self.event_type.duplicate(),
            state: self.state,
            payload: self.payload.duplicate(),
            timestamp: self.timestamp,
            confidence: self.confidence,
            metadata: self.metadata.duplicate(),
            parent_id: self.parent_id,
            child_ids,
            sequence: self.sequence,
            source: self.source.clone(),
        }
    }

    /// A recorded event of the given type with identifier `id`, made at time
    /// `now`: no project, operation, actor, parent or children, an empty
    /// payload and metadata, full confidence, sequence 0 and source
    /// "unknown".
    pub fn new_at(event_type: EventType, id: EventId, now: i64) -> (r: Event)
        ensures
            r.id == id,
            r.event_type == event_type,
            r.timestamp == now,
            r.project_id is None,
            r.operation_id is None,
            r.actor_id is None,
            r.state == EventState::Recorded,
            r.payload is Empty,
            r.confidence.value == 100,
            r.metadata.view().is_empty(),
            r.parent_id is None,
            r.child_ids@.len() == 0,
            r.sequence == 0,
            r.source@ == unknown_source(),
    {
        Event {
            id,
            project_id: None,
            operation_id: None,
            actor_id: None,
            event_type,
            state: EventState::Recorded,
            payload: EventPayload::Empty,
            timestamp: now,
            confidence: Confidence::new(100),
            metadata: TextMap::new(),
            parent_id: None,
            child_ids: Vec::new(),
            sequence: 0,
            source: String::from_str("unknown"),
        }
    }

    /// A recorded event of the given type with a fresh identifier, made now;
    /// see `new_at`.
    pub fn new(event_type: EventType) -> (r: Event)
        ensures
            r.event_type == event_type,
            r.project_id is None,
            r.operation_id is None,
            r.actor_id is None,
            r.state == EventState::Recorded,
            r.payload is Empty,
            r.confidence.value == 100,
            r.metadata.view().is_empty(),
            r.parent_id is None,
            r.child_ids@.len() == 0,
            r.sequence == 0,
            r.source@ == unknown_source(),
    {
        let id = EventId::new();
        let now = unix_millis_now();
        Event::new_at(event_type, id, now)
    }
}

/// Builds an event from its parts.
pub struct EventBuilder {
    pub event_type: EventType,
    pub project_id: Option<ProjectId>,
    pub operation_id: Option<OperationId>,
    pub actor_id: Option<ActorId>,
    pub payload: EventPayload,
    pub metadata: TextMap<String>,
    pub parent_id: Option<EventId>,
    pub sequence: u64,
    pub source: String,
    pub confidence: Confidence,
}

impl EventBuilder {
    /// A builder for an event of the given type: no project, operation,
    /// actor or parent, an empty payload and metadata, sequence 0, source
    /// "unknown" and full confidence.
    pub fn new(event_type: EventType) -> (r: EventBuilder)
        ensures
            r.event_type == event_type,
            r.project_id is None,
            r.operation_id is None,
            r.actor_id is None,
            r.payload is Empty,
            r.metadata.view().is_empty(),
            r.parent_id is None,
            r.sequence == 0,
            r.source@ == unknown_source(),
            r.confidence.value == 100,
    {
        EventBuilder {
            event_type,
            project_id: None,
            operation_id: None,
            actor_id: None,
            payload: EventPayload::Empty,
            metadata: TextMap::new(),
            parent_id: None,
            sequence: 0,
            source: String::from_str("unknown"),
            confidence: Confidence::new(100),
        }
    }

    /// Sets the project.
    pub fn project_id(self, project_id: ProjectId) -> (r: EventBuilder)
        ensures
            r == (EventBuilder { project_id: Some(project_id), ..self }),
    {
        EventBuilder { project_id: Some(project_id), ..self }
    }

    /// Sets the operation.
    pub fn operation_id(self, operation_id: OperationId) -> (r: EventBuilder)
        ensures
            r == (EventBuilder { operation_id: Some(operation_id), ..self }),
    {
        EventBuilder { operation_id: Some(operation_id), ..self }
    }

    /// Sets the actor.
    pub fn actor_id(self, actor_id: ActorId) -> (r: EventBuilder)
        ensures
            r == (EventBuilder { actor_id: Some(actor_id), ..self }),
    {
        EventBuilder { actor_id: Some(actor_id), ..self }
    }

    /// Sets the payload.
    pub fn payload(self, payload: EventPayload) -> (r: EventBuilder)
        ensures
            r == (EventBuilder { payload, ..self }),
    {
        EventBuilder { payload, ..self }
    }

    /// Sets a text payload.
    pub fn text_payload(self, text: String) -> (r: EventBuilder)
        ensures
            r == (EventBuilder { payload: EventPayload::Text(text), ..self }),
    {
        EventBuilder { payload: EventPayload::Text(text), ..self }
    }

    /// Sets a JSON payload, given as JSON text.
    pub fn json_payload(self, json: String) -> (r: EventBuilder)
        ensures
            r == (EventBuilder { payload: EventPayload::Json(json), ..self }),
    {
        EventBuilder { payload: EventPayload::Json(json), ..self }
    }

    /// Sets a metadata entry, replacing any value the key had.
    pub fn metadata(self, key: String, value: String) -> (r: EventBuilder)
        ensures
            r.metadata.view() == self.metadata.view().insert(key@, value),
            r.event_type == self.event_type,
            r.project_id == self.project_id,
            r.operation_id == self.operation_id,
            r.actor_id == self.actor_id,
            r.payload == self.payload,
            r.parent_id == self.parent_id,
            r.sequence == self.sequence,
            r.source == self.source,
            r.confidence == self.confidence,
    {
        let mut b = self;
        b.metadata.insert(key, value);
        b
    }

    /// Sets the parent event.
    pub fn parent_id(self, parent_id: EventId) -> (r: EventBuilder)
        ensures
            r == (EventBuilder { parent_id: Some(parent_id), ..self }),
    {
        EventBuilder { parent_id: Some(parent_id), ..self }
    }

    /// Sets the sequence number.
    pub fn sequence(self, sequence: u64) -> (r: EventBuilder)
        ensures
            r == (EventBuilder { sequence, ..self }),
    {
        EventBuilder { sequence, ..self }
    }

    /// Sets the source.
    pub fn source(self, source: String) -> (r: EventBuilder)
        ensures
            r == (EventBuilder { source, ..self }),
    {
        EventBuilder { source, ..self }
    }

    /// Sets the confidence.
    pub fn confidence(self, confidence: Confidence) -> (r: EventBuilder)
        ensures
            r == (EventBuilder { confidence, ..self }),
    {
        EventBuilder { confidence, ..self }
    }

    /// The recorded event the builder describes, with identifier `id`, made
    /// at time `now`, with no children.
    pub fn build_at(self, id: EventId, now: i64) -> (r: Event)
        ensures
            r.id == id,
            r.timestamp == now,
            r.project_id == self.project_id,
            r.operation_id == self.operation_id,
            r.actor_id == self.actor_id,
            r.event_type == self.event_type,
            r.state == EventState::Recorded,
            r.payload == self.payload,
            r.confidence == self.confidence,
            r.metadata == self.metadata,
            r.parent_id == self.parent_id,
            r.child_ids@.len() == 0,
            r.sequence == self.sequence,
            r.source == self.source,
    {
        Event {
            id,
            project_id: self.project_id,
            operation_id: self.operation_id,
            actor_id: self.actor_id,
            event_type: self.event_type,
            state: EventState::Recorded,
            payload: self.payload,
            timestamp: now,
            confidence: self.confidence,
            metadata: self.metadata,
            parent_id: self.parent_id,
            child_ids: Vec::new(),
            sequence: self.sequence,
            source: self.source,
        }
    }

    /// The event the builder describes, with a fresh identifier, made now;
    /// see `build_at`.
    pub fn build(self) -> (r: Event)
        ensures
            r.project_id == self.project_id,
            r.operation_id == self.operation_id,
            r.actor_id == self.actor_id,
            r.event_type == self.event_type,
            r.state == EventState::Recorded,
            r.payload == self.payload,
            r.confidence == self.confidence,
            r.metadata == self.metadata,
            r.parent_id == self.parent_id,
            r.child_ids@.len() == 0,
            r.sequence == self.sequence,
            r.source == self.source,
    {
        let id = EventId::new();
        let now = unix_millis_now();
        self.build_at(id, now)
    }
}

} // verus!
