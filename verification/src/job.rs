//! Jobs: their lifecycle, payloads and results, and a builder.

use vstd::prelude::*;
use crate::clock::unix_millis_now;
use crate::error::JobError;
use crate::ids::{ActorId, JobId, OperationId, ProjectId};
use crate::text_map::TextMap;
use crate::types::{Confidence, JobState};

verus! {

/// The name that `Debug` gives a job state.
pub open spec fn job_state_name(s: JobState) -> Seq<char> {
    match s {
        JobState::Pending => "Pending"@,
        JobState::Running => "Running"@,
        JobState::Paused => "Paused"@,
        JobState::Completed => "Completed"@,
        JobState::Failed => "Failed"@,
        JobState::Cancelled => "Cancelled"@,
    }
}

/// The name that `Debug` gives a job state.
pub fn job_state_text(s: JobState) -> (r: String)
    ensures
        r@ == job_state_name(s),
{
    match s {
        JobState::Pending => String::from_str("Pending"),
        JobState::Running => String::from_str("Running"),
        JobState::Paused => String::from_str("Paused"),
        JobState::Completed => String::from_str("Completed"),
        JobState::Failed => String::from_str("Failed"),
        JobState::Cancelled => String::from_str("Cancelled"),
    }
}

/// The message of the error that a refused transition gives: the action's
/// sentence followed by the name of the state that refused it.
pub open spec fn refusal_text(action: Seq<char>, s: JobState) -> Seq<char> {
    action + job_state_name(s)
}

fn refusal(action: &str, s: JobState) -> (r: JobError)
    ensures
        r == JobError::InvalidState(r->InvalidState_0),
        r->InvalidState_0@ == refusal_text(action@, s),
{
    let mut m = String::from_str(action);
    let name = job_state_text(s);
    m.append(name.as_str());
    JobError::InvalidState(m)
}

/// A state that ends a job: completed, failed or cancelled.
pub open spec fn is_final_state(s: JobState) -> bool {
    s == JobState::Completed || s == JobState::Failed || s == JobState::Cancelled
}

/// What a job does.
#[derive(Debug)]
pub enum JobPayload {
    /// Execute a command.
    Command { command: String, args: Vec<String> },
    /// Process data.
    Data { data: String, format: String },
    /// Analyse knowledge.
    Knowledge { query: String, context: Option<String> },
    /// Train a model.
    Train { dataset: String, config: TextMap<String> },
    /// Custom payload: fields and their JSON text.
    Custom(TextMap<String>),
}

impl JobPayload {
    /// `other` holds the same payload as `self`.
    pub open spec fn same_as(self, other: JobPayload) -> bool {
        match (self, other) {
            (
                JobPayload::Command { command: c1, args: a1 },
                JobPayload::Command { command: c2, args: a2 },
            ) => c1 == c2 && a1@ == a2@,
            (JobPayload::Data { data: d1, format: f1 }, JobPayload::Data { data: d2, format: f2 }) =>
                d1 == d2 && f1 == f2,
            (
                JobPayload::Knowledge { query: q1, context: c1 },
                JobPayload::Knowledge { query: q2, context: c2 },
            ) => q1 == q2 && c1 == c2,
            (
                JobPayload::Train { dataset: d1, config: c1 },
                JobPayload::Train { dataset: d2, config: c2 },
            ) => d1 == d2 && c1.view() == c2.view() && c1.key_seq() == c2.key_seq(),
            (JobPayload::Custom(m1), JobPayload::Custom(m2)) => m1.view() == m2.view()
                && m1.key_seq() == m2.key_seq(),
            _ => false,
        }
    }

    /// A copy of the payload.
    pub fn duplicate(&self) -> (r: JobPayload)
        ensures
            r.same_as(*self),
    {
        match self {
            JobPayload::Command { command, args } => {
                let a = args.clone();
                assert(a@ =~= args@);
                JobPayload::Command { command: command.clone(), args: a }
            },
            JobPayload::Data { data, format } => JobPayload::Data {
                data: data.clone(),
                format: format.clone(),
            },
            JobPayload::Knowledge { query, context } => JobPayload::Knowledge {
                query: query.clone(),
                context: context.clone(),
            },
            JobPayload::Train { dataset, config } => JobPayload::Train {
                dataset: dataset.clone(),
                config: config.duplicate(),
            },
            JobPayload::Custom(m) => JobPayload::Custom(m.duplicate()),
        }
    }
}

/// A result that a job produced.
#[derive(Debug)]
pub struct JobResult {
    pub data: String,
    pub result_type: String,
    pub confidence: Confidence,
    pub metadata: TextMap<String>,
}

impl JobResult {
    /// `other` holds the same result as `self`.
    pub open spec fn same_as(self, other: JobResult) -> bool {
        &&& self.data == other.data
        &&& self.result_type == other.result_type
        &&& self.confidence == other.confidence
        &&& self.metadata.view() == other.metadata.view()
        &&& self.metadata.key_seq() == other.metadata.key_seq()
    }

    /// A copy of the result.
    pub fn duplicate(&self) -> (r: JobResult)
        ensures
            r.same_as(*self),
    {
        JobResult {
            data: self.data.clone(),
            result_type: self.result_type.clone(),
            confidence: self.confidence,
            metadata: self.metadata.duplicate(),
        }
    }
}

/// Copies a list of job results.
pub fn duplicate_results(results: &Vec<JobResult>) -> (r: Vec<JobResult>)
    ensures
        r@.len() == results@.len(),
        forall|i: int| 0 <= i < r@.len() ==> #[trigger] r@[i].same_as(results@[i]),
{
    let mut r: Vec<JobResult> = Vec::new();
    let mut i: usize = 0;
    while i < results.len()
        invariant
            i <= results@.len(),
            r@.len() == i,
            forall|j: int| 0 <= j < i ==> #[trigger] r@[j].same_as(results@[j]),
        decreases results@.len() - i,
    {
        r.push(results[i].duplicate());
        i = i + 1;
    }
    r
}

/// A job of the framework. Times are milliseconds since the Unix epoch and
/// durations are milliseconds.
#[derive(Debug)]
pub struct Job {
    pub id: JobId,
    pub project_id: ProjectId,
    pub operation_id: OperationId,
    pub actor_id: ActorId,
    pub name: String,
    pub state: JobState,
    /// Priority from 0 to 100; higher is more important.
    pub priority: u8,
    pub created_at: i64,
    pub updated_at: i64,
    pub started_at: Option<i64>,
    pub completed_at: Option<i64>,
    pub confidence: Confidence,
    pub metadata: TextMap<String>,
    pub payload: JobPayload,
    pub results: Vec<JobResult>,
    pub error: Option<String>,
    pub retry_count: u32,
    pub max_retries: u32,
    pub timeout: Option<u64>,
    pub checkpoint_interval: Option<u64>,
}

impl Job {
    /// `other` holds the same job as `self`.
    pub open spec fn same_as(self, other: Job) -> bool {
        &&& self.id == other.id
        &&& self.project_id == other.project_id
        &&& self.operation_id == other.operation_id
        &&& self.actor_id == other.actor_id
        &&& self.name == other.name
        &&& self.state == other.state
        &&& self.priority == other.priority
        &&& self.created_at == other.created_at
        &&& self.updated_at == other.updated_at
        &&& self.started_at == other.started_at
        &&& self.completed_at == other.completed_at
        &&& self.confidence == other.confidence
        &&& self.metadata.view() == other.metadata.view()
        &&& self.metadata.key_seq() == other.metadata.key_seq()
        &&& self.payload.same_as(other.payload)
        &&& self.results@.len() == other.results@.len()
        &&& forall|i: int|
            0 <= i < self.results@.len() ==> #[trigger] self.results@[i].same_as(other.results@[i])
        &&& self.error == other.error
        &&& self.retry_count == other.retry_count
        &&& self.max_retries == other.max_retries
        &&& self.timeout == other.timeout
        &&& self.checkpoint_interval == other.checkpoint_interval
    }

    /// A copy of the job.
    pub fn duplicate(&self) -> (r: Job)
        ensures
            r.same_as(*self),
    {
        Job {
            id: self.id,
            project_id: self.project_id,
            operation_id: self.operation_id,
            actor_id: self.actor_id,
            name: self.name.clone(),
            state: self.state,
            priority: self.priority,
            created_at: self.created_at,
            updated_at: self.updated_at,
            started_at: self.started_at,
            completed_at: self.completed_at,
            confidence: self.confidence,
            metadata: self.metadata.duplicate(),
            payload: self.payload.duplicate(),
            results: duplicate_results(&self.results),
            error: self.error.clone(),
            retry_count: self.retry_count,
            max_retries: self.max_retries,
            timeout: self.timeout,
            checkpoint_interval: self.checkpoint_interval,
        }
    }

    /// A new pending job created at time `now`, with priority 50, no
    /// confidence, three retries allowed, and no timeout or checkpoint
    /// interval.
    pub fn new_at(
        id: JobId,
        project_id: ProjectId,
        operation_id: OperationId,
        actor_id: ActorId,
        name: String,
        payload: JobPayload,
        now: i64,
    ) -> (r: Job)
        ensures
            r.id == id,
            r.project_id == project_id,
            r.operation_id == operation_id,
            r.actor_id == actor_id,
            r.name == name,
            r.payload == payload,
            r.state == JobState::Pending,
            r.priority == 50,
            r.created_at == now,
            r.updated_at == now,
            r.started_at is None,
            r.completed_at is None,
            r.confidence.value == 0,
            r.metadata.view().is_empty(),
            r.metadata.key_seq().len() == 0,
            r.results@.len() == 0,
            r.error is None,
            r.retry_count == 0,
            r.max_retries == 3,
            r.timeout is None,
            r.checkpoint_interval is None,
    {
        Job {
            id,
            project_id,
            operation_id,
            actor_id,
            name,
            state: JobState::Pending,
            priority: 50,
            created_at: now,
            updated_at: now,
            started_at: None,
            completed_at: None,
            confidence: Confidence::new(0),
            metadata: TextMap::new(),
            payload,
            results: Vec::new(),
            error: None,
            retry_count: 0,
            max_retries: 3,
            timeout: None,
            checkpoint_interval: None,
        }
    }

    /// A new pending job created now; see `new_at`.
    pub fn new(
        id: JobId,
        project_id: ProjectId,
        operation_id: OperationId,
        actor_id: ActorId,
        name: String,
        payload: JobPayload,
    ) -> (r: Job)
        ensures
            r.id == id,
            r.project_id == project_id,
            r.operation_id == operation_id,
            r.actor_id == actor_id,
            r.name == name,
            r.payload == payload,
            r.state == JobState::Pending,
            r.priority == 50,
            r.created_at == r.updated_at,
            r.started_at is None,
            r.completed_at is None,
            r.confidence.value == 0,
            r.metadata.view().is_empty(),
            r.results@.len() == 0,
            r.error is None,
            r.retry_count == 0,
            r.max_retries == 3,
            r.timeout is None,
            r.checkpoint_interval is None,
    {
        let now = unix_millis_now();
        Job::new_at(id, project_id, operation_id, actor_id, name, payload, now)
    }

    /// Starts a pending job at time `now`.
    pub fn start_at(&mut self, now: i64) -> (r: Result<(), JobError>)
        ensures
            r is Ok <==> old(self).state == JobState::Pending,
            r is Ok ==> *final(self) == (Job { state: JobState::Running, started_at: Some(now), updated_at: now, ..*old(self) }),
            r is Err ==> *final(self) == *old(self) && r->Err_0 is InvalidState
                && r->Err_0->InvalidState_0@ == refusal_text(
                "Cannot start job in state: "@,
                old(self).state,
            ),
    {
        if self.state != JobState::Pending {
            return Err(refusal("Cannot start job in state: ", self.state));
        }
        self.state = JobState::Running;
        self.started_at = Some(now);
        self.updated_at = now;
        Ok(())
    }

    /// Starts a pending job now; see `start_at`.
    pub fn start(&mut self) -> (r: Result<(), JobError>)
        ensures
            r is Ok <==> old(self).state == JobState::Pending,
            r is Ok ==> *final(self) == (Job { state: JobState::Running, started_at: Some(final(self).updated_at), updated_at: final(self).updated_at, ..*old(self) }),
            r is Err ==> *final(self) == *old(self) && r->Err_0 is InvalidState,
    {
        let now = unix_millis_now();
        self.start_at(now)
    }

    /// Pauses a running job at time `now`.
    pub fn pause_at(&mut self, now: i64) -> (r: Result<(), JobError>)
        ensures
            r is Ok <==> old(self).state == JobState::Running,
            r is Ok ==> *final(self) == (Job { state: JobState::Paused, updated_at: now, ..*old(self) }),
            r is Err ==> *final(self) == *old(self) && r->Err_0 is InvalidState
                && r->Err_0->InvalidState_0@ == refusal_text(
                "Cannot pause job in state: "@,
                old(self).state,
            ),
    {
        if self.state != JobState::Running {
            return Err(refusal("Cannot pause job in state: ", self.state));
        }
        self.state = JobState::Paused;
        self.updated_at = now;
        Ok(())
    }

    /// Pauses a running job now; see `pause_at`.
    pub fn pause(&mut self) -> (r: Result<(), JobError>)
        ensures
            r is Ok <==> old(self).state == JobState::Running,
            r is Ok ==> *final(self) == (Job { state: JobState::Paused, updated_at: final(self).updated_at, ..*old(self) }),
            r is Err ==> *final(self) == *old(self) && r->Err_0 is InvalidState,
    {
        let now = unix_millis_now();
        self.pause_at(now)
    }

    /// Resumes a paused job at time `now`.
    pub fn resume_at(&mut self, now: i64) -> (r: Result<(), JobError>)
        ensures
            r is Ok <==> old(self).state == JobState::Paused,
            r is Ok ==> *final(self) == (Job { state: JobState::Running, updated_at: now, ..*old(self) }),
            r is Err ==> *final(self) == *old(self) && r->Err_0 is InvalidState
                && r->Err_0->InvalidState_0@ == refusal_text(
                "Cannot resume job in state: "@,
                old(self).state,
            ),
    {
        if self.state != JobState::Paused {
            return Err(refusal("Cannot resume job in state: ", self.state));
        }
        self.state = JobState::Running;
        self.updated_at = now;
        Ok(())
    }

    /// Resumes a paused job now; see `resume_at`.
    pub fn resume(&mut self) -> (r: Result<(), JobError>)
        ensures
            r is Ok <==> old(self).state == JobState::Paused,
            r is Ok ==> *final(self) == (Job { state: JobState::Running, updated_at: final(self).updated_at, ..*old(self) }),
            r is Err ==> *final(self) == *old(self) && r->Err_0 is InvalidState,
    {
        let now = unix_millis_now();
        self.resume_at(now)
    }

    /// Completes a running job at time `now` with the given results.
    pub fn complete_at(&mut self, results: Vec<JobResult>, now: i64) -> (r: Result<(), JobError>)
        ensures
            r is Ok <==> old(self).state == JobState::Running,
            r is Ok ==> *final(self) == (Job { state: JobState::Completed, completed_at: Some(now), results: results, updated_at: now, ..*old(self) }),
            r is Err ==> *final(self) == *old(self) && r->Err_0 is InvalidState
                && r->Err_0->InvalidState_0@ == refusal_text(
                "Cannot complete job in state: "@,
                old(self).state,
            ),
    {
        if self.state != JobState::Running {
            return Err(refusal("Cannot complete job in state: ", self.state));
        }
        self.state = JobState::Completed;
        self.completed_at = Some(now);
        self.results = results;
        self.updated_at = now;
        Ok(())
    }

    /// Completes a running job now; see `complete_at`.
    pub fn complete(&mut self, results: Vec<JobResult>) -> (r: Result<(), JobError>)
        ensures
            r is Ok <==> old(self).state == JobState::Running,
            r is Ok ==> *final(self) == (Job { state: JobState::Completed, completed_at: Some(final(self).updated_at), results: results, updated_at: final(self).updated_at, ..*old(self) }),
            r is Err ==> *final(self) == *old(self) && r->Err_0 is InvalidState,
    {
        let now = unix_millis_now();
        self.complete_at(results, now)
    }

    /// Fails a job that has not completed or failed, at time `now`.
    pub fn fail_at(&mut self, error: String, now: i64) -> (r: Result<(), JobError>)
        ensures
            r is Ok <==> (old(self).state != JobState::Completed && old(self).state
                != JobState::Failed),
            r is Ok ==> *final(self) == (Job { state: JobState::Failed, error: Some(error), completed_at: Some(now), updated_at: now, ..*old(self) }),
            r is Err ==> *final(self) == *old(self) && r->Err_0 is InvalidState
                && r->Err_0->InvalidState_0@ == refusal_text(
                "Cannot fail job in state: "@,
                old(self).state,
            ),
    {
        if self.state == JobState::Completed || self.state == JobState::Failed {
            return Err(refusal("Cannot fail job in state: ", self.state));
        }
        self.state = JobState::Failed;
        self.error = Some(error);
        self.completed_at = Some(now);
        self.updated_at = now;
        Ok(())
    }

    /// Fails a job now; see `fail_at`.
    pub fn fail(&mut self, error: String) -> (r: Result<(), JobError>)
        ensures
            r is Ok <==> (old(self).state != JobState::Completed && old(self).state
                != JobState::Failed),
            r is Ok ==> *final(self) == (Job { state: JobState::Failed, error: Some(error), completed_at: Some(final(self).updated_at), updated_at: final(self).updated_at, ..*old(self) }),
            r is Err ==> *final(self) == *old(self) && r->Err_0 is InvalidState,
    {
        let now = unix_millis_now();
        self.fail_at(error, now)
    }

    /// Cancels a job that has not completed or failed, at time `now`.
    pub fn cancel_at(&mut self, now: i64) -> (r: Result<(), JobError>)
        ensures
            r is Ok <==> (old(self).state != JobState::Completed && old(self).state
                != JobState::Failed),
            r is Ok ==> *final(self) == (Job { state: JobState::Cancelled, completed_at: Some(now), updated_at: now, ..*old(self) }),
            r is Err ==> *final(self) == *old(self) && r->Err_0 is InvalidState
                && r->Err_0->InvalidState_0@ == refusal_text(
                "Cannot cancel job in state: "@,
                old(self).state,
            ),
    {
        if self.state == JobState::Completed || self.state == JobState::Failed {
            return Err(refusal("Cannot cancel job in state: ", self.state));
        }
        self.state = JobState::Cancelled;
        self.completed_at = Some(now);
        self.updated_at = now;
        Ok(())
    }

    /// Cancels a job now; see `cancel_at`.
    pub fn cancel(&mut self) -> (r: Result<(), JobError>)
        ensures
            r is Ok <==> (old(self).state != JobState::Completed && old(self).state
                != JobState::Failed),
            r is Ok ==> *final(self) == (Job { state: JobState::Cancelled, completed_at: Some(final(self).updated_at), updated_at: final(self).updated_at, ..*old(self) }),
            r is Err ==> *final(self) == *old(self) && r->Err_0 is InvalidState,
    {
        let now = unix_millis_now();
        self.cancel_at(now)
    }

    /// Whether the job has ended: completed, failed or cancelled.
    pub fn is_completed(&self) -> (r: bool)
        ensures
            r == is_final_state(self.state),
    {
        match self.state {
            JobState::Completed | JobState::Failed | JobState::Cancelled => true,
            _ => false,
        }
    }

    /// Whether the job is running or paused.
    pub fn is_active(&self) -> (r: bool)
        ensures
            r == (self.state == JobState::Running || self.state == JobState::Paused),
    {
        match self.state {
            JobState::Running | JobState::Paused => true,
            _ => false,
        }
    }

    /// How long the job has run, as seen at time `now`: from its start to its
    /// end, or to `now` while it has not ended; `None` before it started.
    /// A negative span counts as zero.
    pub open spec fn run_time(self, now: i64) -> Option<u64> {
        match self.started_at {
            None => None,
            Some(start) => {
                let end: int = match self.completed_at {
                    Some(e) => e as int,
                    None => now as int,
                };
                Some(if end >= start { (end - start) as u64 } else { 0u64 })
            },
        }
    }

    /// How long the job has run, as seen at time `now`; see `run_time`.
    pub fn duration_at(&self, now: i64) -> (r: Option<u64>)
        ensures
            r == self.run_time(now),
    {
        match self.started_at {
            None => None,
            Some(start) => {
                let end = match self.completed_at {
                    Some(e) => e,
                    None => now,
                };
                if end >= start {
                    let d = (end as i128 - start as i128) as u64;
                    Some(d)
                } else {
                    Some(0)
                }
            },
        }
    }

    /// How long the job has run, as seen now; see `duration_at`.
    pub fn duration(&self) -> (r: Option<u64>)
        ensures
            r is Some <==> self.started_at is Some,
            (self.started_at is Some && self.completed_at is Some) ==> r == self.run_time(0),
    {
        let now = unix_millis_now();
        self.duration_at(now)
    }
}

/// The message for the first part that `b` lacks, in the order
/// identifier, project, operation, actor, name, payload.
pub open spec fn missing_part_text(b: JobBuilder) -> Seq<char> {
    if b.id is None {
        "Job ID is required"@
    } else if b.project_id is None {
        "Project ID is required"@
    } else if b.operation_id is None {
        "Operation ID is required"@
    } else if b.actor_id is None {
        "Actor ID is required"@
    } else if b.name is None {
        "Job name is required"@
    } else {
        "Job payload is required"@
    }
}

/// Builds a job from its parts.
pub struct JobBuilder {
    pub id: Option<JobId>,
    pub project_id: Option<ProjectId>,
    pub operation_id: Option<OperationId>,
    pub actor_id: Option<ActorId>,
    pub name: Option<String>,
    pub payload: Option<JobPayload>,
    pub priority: u8,
    pub max_retries: u32,
    pub timeout: Option<u64>,
    pub checkpoint_interval: Option<u64>,
    pub metadata: TextMap<String>,
}

impl JobBuilder {
    /// A builder with no parts, priority 50, three retries and no metadata.
    pub fn new() -> (r: JobBuilder)
        ensures
            r.id is None,
            r.project_id is None,
            r.operation_id is None,
            r.actor_id is None,
            r.name is None,
            r.payload is None,
            r.priority == 50,
            r.max_retries == 3,
            r.timeout is None,
            r.checkpoint_interval is None,
            r.metadata.view().is_empty(),
            r.metadata.key_seq().len() == 0,
    {
        JobBuilder {
            id: None,
            project_id: None,
            operation_id: None,
            actor_id: None,
            name: None,
            payload: None,
            priority: 50,
            max_retries: 3,
            timeout: None,
            checkpoint_interval: None,
            metadata: TextMap::new(),
        }
    }

    /// Sets the job's identifier.
    pub fn id(self, id: JobId) -> (r: JobBuilder)
        ensures
            r == (JobBuilder { id: Some(id), ..self }),
    {
        JobBuilder { id: Some(id), ..self }
    }

    /// Sets the project.
    pub fn project_id(self, project_id: ProjectId) -> (r: JobBuilder)
        ensures
            r == (JobBuilder { project_id: Some(project_id), ..self }),
    {
        JobBuilder { project_id: Some(project_id), ..self }
    }

    /// Sets the operation.
    pub fn operation_id(self, operation_id: OperationId) -> (r: JobBuilder)
        ensures
            r == (JobBuilder { operation_id: Some(operation_id), ..self }),
    {
        JobBuilder { operation_id: Some(operation_id), ..self }
    }

    /// Sets the actor.
    pub fn actor_id(self, actor_id: ActorId) -> (r: JobBuilder)
        ensures
            r == (JobBuilder { actor_id: Some(actor_id), ..self }),
    {
        JobBuilder { actor_id: Some(actor_id), ..self }
    }

    /// Sets the name.
    pub fn name(self, name: String) -> (r: JobBuilder)
        ensures
            r == (JobBuilder { name: Some(name), ..self }),
    {
        JobBuilder { name: Some(name), ..self }
    }

    /// Sets the payload.
    pub fn payload(self, payload: JobPayload) -> (r: JobBuilder)
        ensures
            r == (JobBuilder { payload: Some(payload), ..self }),
    {
        JobBuilder { payload: Some(payload), ..self }
    }

    /// Sets the priority, clamped to at most 100.
    pub fn priority(self, priority: u8) -> (r: JobBuilder)
        ensures
            r == (JobBuilder { priority: if priority > 100 { 100u8 } else { priority }, ..self }),
    {
        let p = if priority > 100 { 100u8 } else { priority };
        JobBuilder { priority: p, ..self }
    }

    /// Sets the number of retries allowed.
    pub fn max_retries(self, max_retries: u32) -> (r: JobBuilder)
        ensures
            r == (JobBuilder { max_retries, ..self }),
    {
        JobBuilder { max_retries, ..self }
    }

    /// Sets the timeout, in milliseconds.
    pub fn timeout(self, timeout: u64) -> (r: JobBuilder)
        ensures
            r == (JobBuilder { timeout: Some(timeout), ..self }),
    {
        JobBuilder { timeout: Some(timeout), ..self }
    }

    /// Sets the checkpoint interval, in milliseconds.
    pub fn checkpoint_interval(self, interval: u64) -> (r: JobBuilder)
        ensures
            r == (JobBuilder { checkpoint_interval: Some(interval), ..self }),
    {
        JobBuilder { checkpoint_interval: Some(interval), ..self }
    }

    /// Sets a metadata entry, replacing any value the key had.
    pub fn metadata(self, key: String, value: String) -> (r: JobBuilder)
        ensures
            r.metadata.view() == self.metadata.view().insert(key@, value),
            r.id == self.id,
            r.project_id == self.project_id,
            r.operation_id == self.operation_id,
            r.actor_id == self.actor_id,
            r.name == self.name,
            r.payload == self.payload,
            r.priority == self.priority,
            r.max_retries == self.max_retries,
            r.timeout == self.timeout,
            r.checkpoint_interval == self.checkpoint_interval,
    {
        let mut b = self;
        b.metadata.insert(key, value);
        b
    }

    /// The job that the builder describes, created at time `now`. Each
    /// required part that is missing gives an `InvalidState` error, checked in
    /// the order identifier, project, operation, actor, name, payload.
    pub fn build_at(self, now: i64) -> (r: Result<Job, JobError>)
        ensures
            r is Ok <==> (self.id is Some && self.project_id is Some && self.operation_id is Some
                && self.actor_id is Some && self.name is Some && self.payload is Some),
            r matches Ok(job) ==> {
                &&& job.id == self.id->0
                &&& job.project_id == self.project_id->0
                &&& job.operation_id == self.operation_id->0
                &&& job.actor_id == self.actor_id->0
                &&& job.name == self.name->0
                &&& job.payload == self.payload->0
                &&& job.state == JobState::Pending
                &&& job.priority == self.priority
                &&& job.created_at == now
                &&& job.updated_at == now
                &&& job.started_at is None
                &&& job.completed_at is None
                &&& job.confidence.value == 0
                &&& job.metadata == self.metadata
                &&& job.results@.len() == 0
                &&& job.error is None
                &&& job.retry_count == 0
                &&& job.max_retries == self.max_retries
                &&& job.timeout == self.timeout
                &&& job.checkpoint_interval == self.checkpoint_interval
            },
            r matches Err(e) ==> e is InvalidState && e->InvalidState_0@ == missing_part_text(self),
    {
        let JobBuilder {
            id,
            project_id,
            operation_id,
            actor_id,
            name,
            payload,
            priority,
            max_retries,
            timeout,
            checkpoint_interval,
            metadata,
        } = self;
        let id = match id {
            Some(v) => v,
            None => { return Err(JobError::InvalidState(String::from_str("Job ID is required"))) },
        };
        let project_id = match project_id {
            Some(v) => v,
            None => {
                return Err(JobError::InvalidState(String::from_str("Project ID is required")))
            },
        };
        let operation_id = match operation_id {
            Some(v) => v,
            None => {
                return Err(JobError::InvalidState(String::from_str("Operation ID is required")))
            },
        };
        let actor_id = match actor_id {
            Some(v) => v,
            None => { return Err(JobError::InvalidState(String::from_str("Actor ID is required")))
            },
        };
        let name = match name {
            Some(v) => v,
            None => { return Err(JobError::InvalidState(String::from_str("Job name is required")))
            },
        };
        let payload = match payload {
            Some(v) => v,
            None => {
                return Err(JobError::InvalidState(String::from_str("Job payload is required")))
            },
        };
        Ok(
            Job {
                id,
                project_id,
                operation_id,
                actor_id,
                name,
                state: JobState::Pending,
                priority,
                created_at: now,
                updated_at: now,
                started_at: None,
                completed_at: None,
                confidence: Confidence::new(0),
                metadata,
                payload,
                results: Vec::new(),
                error: None,
                retry_count: 0,
                max_retries,
                timeout,
                checkpoint_interval,
            },
        )
    }

    /// The job that the builder describes, created now; see `build_at`.
    pub fn build(self) -> (r: Result<Job, JobError>)
        ensures
            r is Ok <==> (self.id is Some && self.project_id is Some && self.operation_id is Some
                && self.actor_id is Some && self.name is Some && self.payload is Some),
            r matches Ok(job) ==> {
                &&& job.id == self.id->0
                &&& job.project_id == self.project_id->0
                &&& job.operation_id == self.operation_id->0
                &&& job.actor_id == self.actor_id->0
                &&& job.name == self.name->0
                &&& job.payload == self.payload->0
                &&& job.state == JobState::Pending
                &&& job.priority == self.priority
                &&& job.created_at == job.updated_at
                &&& job.started_at is None
                &&& job.completed_at is None
                &&& job.confidence.value == 0
                &&& job.metadata == self.metadata
                &&& job.results@.len() == 0
                &&& job.error is None
                &&& job.retry_count == 0
                &&& job.max_retries == self.max_retries
                &&& job.timeout == self.timeout
                &&& job.checkpoint_interval == self.checkpoint_interval
            },
            r matches Err(e) ==> e is InvalidState && e->InvalidState_0@ == missing_part_text(self),
    {
        let now = unix_millis_now();
        self.build_at(now)
    }
}

} // verus!
