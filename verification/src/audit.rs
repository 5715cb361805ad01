//! Audit records: what was done, to which resource, by whom, and how it
//! went; a logger that keeps the most recent records and hands each to a
//! storage; and an in-memory storage.

use vstd::prelude::*;
use crate::ids::{ActorId, AuditId, EventId, JobId, OperationId, ProjectId};
use crate::types::AuditState;
use crate::text_map::TextMap;
use crate::error::MalverdeError;
use crate::clock::unix_millis_now;

verus! {

/// An action that an audit record describes.
#[derive(Debug)]
pub enum AuditAction {
    SystemStartup,
    SystemShutdown,
    SystemConfigurationChanged,
    ProjectCreated,
    ProjectUpdated,
    ProjectDeleted,
    ProjectStateChanged,
    ActorCreated,
    ActorUpdated,
    ActorDeleted,
    ActorCommandExecuted,
    OperationCreated,
    OperationStarted,
    OperationCompleted,
    OperationFailed,
    OperationPaused,
    OperationResumed,
    JobCreated,
    JobStarted,
    JobCompleted,
    JobFailed,
    JobCancelled,
    JobPaused,
    JobResumed,
    KnowledgeAdded,
    KnowledgeUpdated,
    KnowledgeRemoved,
    KnowledgeSearched,
    MemoryAdded,
    MemoryUpdated,
    MemoryRemoved,
    MemorySearched,
    EvidenceCollected,
    EvidenceAnalyzed,
    EvidenceStored,
    EvidenceRetrieved,
    EvidenceDeleted,
    LearningStarted,
    LearningCompleted,
    LearningFailed,
    ModelTrained,
    PluginLoaded,
    PluginUnloaded,
    PluginError,
    PluginCommandExecuted,
    SecurityCheckPassed,
    SecurityCheckFailed,
    PermissionGranted,
    PermissionDenied,
    AuthenticationSuccess,
    AuthenticationFailed,
    StorageConnected,
    StorageDisconnected,
    MigrationApplied,
    BackupCreated,
    Custom(String),
}

impl AuditAction {
    /// A copy of the action.
    pub fn duplicate(&self) -> (r: AuditAction)
        ensures
            r == *self,
    {
        match self {
            AuditAction::SystemStartup => AuditAction::SystemStartup,
            AuditAction::SystemShutdown => AuditAction::SystemShutdown,
            AuditAction::SystemConfigurationChanged => AuditAction::SystemConfigurationChanged,
            AuditAction::ProjectCreated => AuditAction::ProjectCreated,
            AuditAction::ProjectUpdated => AuditAction::ProjectUpdated,
            AuditAction::ProjectDeleted => AuditAction::ProjectDeleted,
            AuditAction::ProjectStateChanged => AuditAction::ProjectStateChanged,
            AuditAction::ActorCreated => AuditAction::ActorCreated,
            AuditAction::ActorUpdated => AuditAction::ActorUpdated,
            AuditAction::ActorDeleted => AuditAction::ActorDeleted,
            AuditAction::ActorCommandExecuted => AuditAction::ActorCommandExecuted,
            AuditAction::OperationCreated => AuditAction::OperationCreated,
            AuditAction::OperationStarted => AuditAction::OperationStarted,
            AuditAction::OperationCompleted => AuditAction::OperationCompleted,
            AuditAction::OperationFailed => AuditAction::OperationFailed,
            AuditAction::OperationPaused => AuditAction::OperationPaused,
            AuditAction::OperationResumed => AuditAction::OperationResumed,
            AuditAction::JobCreated => AuditAction::JobCreated,
            AuditAction::JobStarted => AuditAction::JobStarted,
            AuditAction::JobCompleted => AuditAction::JobCompleted,
            AuditAction::JobFailed => AuditAction::JobFailed,
            AuditAction::JobCancelled => AuditAction::JobCancelled,
            AuditAction::JobPaused => AuditAction::JobPaused,
            AuditAction::JobResumed => AuditAction::JobResumed,
            AuditAction::KnowledgeAdded => AuditAction::KnowledgeAdded,
            AuditAction::KnowledgeUpdated => AuditAction::KnowledgeUpdated,
            AuditAction::KnowledgeRemoved => AuditAction::KnowledgeRemoved,
            AuditAction::KnowledgeSearched => AuditAction::KnowledgeSearched,
            AuditAction::MemoryAdded => AuditAction::MemoryAdded,
            AuditAction::MemoryUpdated => AuditAction::MemoryUpdated,
            AuditAction::MemoryRemoved => AuditAction::MemoryRemoved,
            AuditAction::MemorySearched => AuditAction::MemorySearched,
            AuditAction::EvidenceCollected => AuditAction::EvidenceCollected,
            AuditAction::EvidenceAnalyzed => AuditAction::EvidenceAnalyzed,
            AuditAction::EvidenceStored => AuditAction::EvidenceStored,
            AuditAction::EvidenceRetrieved => AuditAction::EvidenceRetrieved,
            AuditAction::EvidenceDeleted => AuditAction::EvidenceDeleted,
            AuditAction::LearningStarted => AuditAction::LearningStarted,
            AuditAction::LearningCompleted => AuditAction::LearningCompleted,
            AuditAction::LearningFailed => AuditAction::LearningFailed,
            AuditAction::ModelTrained => AuditAction::ModelTrained,
            AuditAction::PluginLoaded => AuditAction::PluginLoaded,
            AuditAction::PluginUnloaded => AuditAction::PluginUnloaded,
            AuditAction::PluginError => AuditAction::PluginError,
            AuditAction::PluginCommandExecuted => AuditAction::PluginCommandExecuted,
            AuditAction::SecurityCheckPassed => AuditAction::SecurityCheckPassed,
            AuditAction::SecurityCheckFailed => AuditAction::SecurityCheckFailed,
            AuditAction::PermissionGranted => AuditAction::PermissionGranted,
            AuditAction::PermissionDenied => AuditAction::PermissionDenied,
            AuditAction::AuthenticationSuccess => AuditAction::AuthenticationSuccess,
            AuditAction::AuthenticationFailed => AuditAction::AuthenticationFailed,
            AuditAction::StorageConnected => AuditAction::StorageConnected,
            AuditAction::StorageDisconnected => AuditAction::StorageDisconnected,
            AuditAction::MigrationApplied => AuditAction::MigrationApplied,
            AuditAction::BackupCreated => AuditAction::BackupCreated,
            AuditAction::Custom(s) => AuditAction::Custom(s.clone()),
        }
    }
}

/// A record of one action.
#[derive(Debug)]
pub struct AuditLog {
    pub id: AuditId,
    /// Milliseconds since the Unix epoch.
    pub timestamp: i64,
    pub actor_id: Option<ActorId>,
    pub project_id: Option<ProjectId>,
    pub operation_id: Option<OperationId>,
    pub job_id: Option<JobId>,
    pub event_id: Option<EventId>,
    pub action: AuditAction,
    pub resource_type: String,
    pub resource_id: String,
    pub state: AuditState,
    pub previous_state: Option<AuditState>,
    pub details: TextMap<String>,
    pub success: bool,
    pub error: Option<String>,
    pub ip_address: Option<String>,
    pub user_agent: Option<String>,
    pub metadata: TextMap<String>,
}

/// A copy of an optional text.
fn copy_text(s: &Option<String>) -> (r: Option<String>)
    ensures
        r == *s,
{
    match s {
        Some(t) => Some(t.clone()),
        None => None,
    }
}

impl AuditLog {
    /// `self` and `other` hold the same record.
    pub open spec fn same_as(self, other: AuditLog) -> bool {
        &&& self.id == other.id
        &&& self.timestamp == other.timestamp
        &&& self.actor_id == other.actor_id
        &&& self.project_id == other.project_id
        &&& self.operation_id == other.operation_id
        &&& self.job_id == other.job_id
        &&& self.event_id == other.event_id
        &&& self.action == other.action
        &&& self.resource_type == other.resource_type
        &&& self.resource_id == other.resource_id
        &&& self.state == other.state
        &&& self.previous_state == other.previous_state
        &&& self.details.view() == other.details.view()
        &&& self.details.key_seq() == other.details.key_seq()
        &&& self.success == other.success
        &&& self.error == other.error
        &&& self.ip_address == other.ip_address
        &&& self.user_agent == other.user_agent
        &&& self.metadata.view() == other.metadata.view()
        &&& self.metadata.key_seq() == other.metadata.key_seq()
    }

    /// A copy of the record.
    pub fn duplicate(&self) -> (r: AuditLog)
        ensures
            r.same_as(*self),
    {
        AuditLog {
            id: self.id,
            timestamp: self.timestamp,
            actor_id: self.actor_id,
            project_id: self.project_id,
            operation_id: self.operation_id,
            job_id: self.job_id,
            event_id: self.event_id,
            action: self.action.duplicate(),
            resource_type: self.resource_type.clone(),
            resource_id: self.resource_id.clone(),
            state: self.state,
            previous_state: self.previous_state,
            details: self.details.duplicate(),
            success: self.success,
            error: copy_text(&self.error),
            ip_address: copy_text(&self.ip_address),
            user_agent: copy_text(&self.user_agent),
            metadata: self.metadata.duplicate(),
        }
    }

    /// A successful, recorded record of `action` on the given resource, with
    /// identifier `id`, made at time `now`, and nothing else set.
    pub fn new_at(action: AuditAction, resource_type: String, resource_id: String, id: AuditId, now: i64) -> (r: AuditLog)
        ensures
            r.id == id,
            r.timestamp == now,
            r.action == action,
            r.resource_type == resource_type,
            r.resource_id == resource_id,
            is_fresh_record(r),
    {
        AuditLog {
            id,
            timestamp: now,
            actor_id: None,
            project_id: None,
            operation_id: None,
            job_id: None,
            event_id: None,
            action,
            resource_type,
            resource_id,
            state: AuditState::Recorded,
            previous_state: None,
            details: TextMap::new(),
            success: true,
            error: None,
            ip_address: None,
            user_agent: None,
            metadata: TextMap::new(),
        }
    }

    /// A record as `new_at` makes it, with a fresh identifier, made now.
    pub fn new(action: AuditAction, resource_type: String, resource_id: String) -> (r: AuditLog)
        ensures
            r.id.value != 0,
            r.action == action,
            r.resource_type == resource_type,
            r.resource_id == resource_id,
            is_fresh_record(r),
    {
        let id = AuditId::new();
        let now = unix_millis_now();
        AuditLog::new_at(action, resource_type, resource_id, id, now)
    }

    /// The record with the given actor.
    pub fn with_actor(self, actor_id: ActorId) -> (r: AuditLog)
        ensures
            r == (AuditLog { actor_id: Some(actor_id), ..self }),
    {
        AuditLog { actor_id: Some(actor_id), ..self }
    }

    /// The record with the given project.
    pub fn with_project(self, project_id: ProjectId) -> (r: AuditLog)
        ensures
            r == (AuditLog { project_id: Some(project_id), ..self }),
    {
        AuditLog { project_id: Some(project_id), ..self }
    }

    /// The record with the given operation.
    pub fn with_operation(self, operation_id: OperationId) -> (r: AuditLog)
        ensures
            r == (AuditLog { operation_id: Some(operation_id), ..self }),
    {
        AuditLog { operation_id: Some(operation_id), ..self }
    }

    /// The record with the given job.
    pub fn with_job(self, job_id: JobId) -> (r: AuditLog)
        ensures
            r == (AuditLog { job_id: Some(job_id), ..self }),
    {
        AuditLog { job_id: Some(job_id), ..self }
    }

    /// The record with the given event.
    pub fn with_event(self, event_id: EventId) -> (r: AuditLog)
        ensures
            r == (AuditLog { event_id: Some(event_id), ..self }),
    {
        AuditLog { event_id: Some(event_id), ..self }
    }

    /// The record with state `new_state`, coming from `previous_state`.
    pub fn with_state_change(self, new_state: AuditState, previous_state: AuditState) -> (r: AuditLog)
        ensures
            r == (AuditLog { state: new_state, previous_state: Some(previous_state), ..self }),
    {
        AuditLog { state: new_state, previous_state: Some(previous_state), ..self }
    }

    /// The record with the given outcome.
    pub fn with_success(self, success: bool) -> (r: AuditLog)
        ensures
            r == (AuditLog { success, ..self }),
    {
        AuditLog { success, ..self }
    }

    /// The record as failed with the given error.
    pub fn with_error(self, error: String) -> (r: AuditLog)
        ensures
            r == (AuditLog { success: false, error: Some(error), ..self }),
    {
        AuditLog { success: false, error: Some(error), ..self }
    }

    /// Sets the state to recorded.
    pub fn mark_recorded(&mut self)
        ensures
            *final(self) == (AuditLog { state: AuditState::Recorded, ..*old(self) }),
    {
        self.state = AuditState::Recorded;
    }

    /// Sets the state to processed.
    pub fn mark_processed(&mut self)
        ensures
            *final(self) == (AuditLog { state: AuditState::Processed, ..*old(self) }),
    {
        self.state = AuditState::Processed;
    }

    /// Sets the state to archived.
    pub fn mark_archived(&mut self)
        ensures
            *final(self) == (AuditLog { state: AuditState::Archived, ..*old(self) }),
    {
        self.state = AuditState::Archived;
    }
}

/// A record as a constructor leaves it: no actor, project, operation, job
/// or event, recorded with no previous state, no details or metadata,
/// successful, and no error, address or agent.
pub open spec fn is_fresh_record(r: AuditLog) -> bool {
    &&& r.actor_id is None
    &&& r.project_id is None
    &&& r.operation_id is None
    &&& r.job_id is None
    &&& r.event_id is None
    &&& r.state == AuditState::Recorded
    &&& r.previous_state is None
    &&& r.details.view().is_empty()
    &&& r.success
    &&& r.error is None
    &&& r.ip_address is None
    &&& r.user_agent is None
    &&& r.metadata.view().is_empty()
}

/// Which records a query asks for.
#[derive(Debug)]
pub struct AuditQuery {
    pub start_time: Option<i64>,
    pub end_time: Option<i64>,
    pub actor_id: Option<ActorId>,
    pub project_id: Option<ProjectId>,
    pub operation_id: Option<OperationId>,
    pub job_id: Option<JobId>,
    pub actions: Option<Vec<AuditAction>>,
    pub resource_types: Option<Vec<String>>,
    pub resource_ids: Option<Vec<String>>,
    pub success: Option<bool>,
    pub states: Option<Vec<AuditState>>,
    pub limit: Option<usize>,
    pub offset: Option<usize>,
}

impl AuditQuery {
    /// The query with no condition set.
    pub fn new() -> (r: AuditQuery)
        ensures
            r.start_time is None,
            r.end_time is None,
            r.actor_id is None,
            r.project_id is None,
            r.operation_id is None,
            r.job_id is None,
            r.actions is None,
            r.resource_types is None,
            r.resource_ids is None,
            r.success is None,
            r.states is None,
            r.limit is None,
            r.offset is None,
    {
        AuditQuery {
            start_time: None,
            end_time: None,
            actor_id: None,
            project_id: None,
            operation_id: None,
            job_id: None,
            actions: None,
            resource_types: None,
            resource_ids: None,
            success: None,
            states: None,
            limit: None,
            offset: None,
        }
    }
}

/// Counts over a set of records.
#[derive(Debug)]
pub struct AuditSummary {
    pub total_logs: usize,
    pub by_action: Vec<(AuditAction, usize)>,
    pub by_resource_type: Vec<(String, usize)>,
    pub by_actor: Vec<(ActorId, usize)>,
    pub by_project: Vec<(ProjectId, usize)>,
    pub success_count: usize,
    pub failure_count: usize,
    pub by_state: Vec<(AuditState, usize)>,
}

/// Where audit records are kept beyond the logger's buffer. Errors are
/// reported as text.
pub trait AuditStorage {
    fn save(&mut self, log: &AuditLog) -> Result<(), String>;

    fn find_by_id(&self, id: &AuditId) -> Result<Option<AuditLog>, String>;

    fn query(&self, query: &AuditQuery) -> Result<Vec<AuditLog>, String>;

    fn get_summary(&self, query: &AuditQuery) -> Result<AuditSummary, String>;

    fn delete_by_id(&mut self, id: &AuditId) -> Result<(), String>;

    fn delete_by_query(&mut self, query: &AuditQuery) -> Result<usize, String>;
}

} // verus!
