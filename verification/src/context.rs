//! The context in which a job runs.

use vstd::prelude::*;
use crate::clock::unix_millis_now;
use crate::ids::{ActorId, EvidenceId, JobId, OperationId, ProjectId};
use crate::text_map::TextMap;
use crate::types::{Command, Intent};

verus! {

impl Command {
    /// `other` holds the same command as `self`.
    pub open spec fn same_as(self, other: Command) -> bool {
        self.name == other.name && self.args@ == other.args@
    }

    /// A copy of the command.
    pub fn duplicate(&self) -> (r: Command)
        ensures
            r.same_as(*self),
    {
        let args = self.args.clone();
        assert(args@ =~= self.args@);
        Command { name: self.name.clone(), args }
    }
}

impl Intent {
    /// A copy of the intent.
    pub fn duplicate(&self) -> (r: Intent)
        ensures
            r == *self,
    {
        Intent { description: self.description.clone() }
    }
}

/// The working directory a context starts with.
pub open spec fn default_working_dir() -> Seq<char> {
    "/tmp/malverde"@
}

/// The time `now + duration`, or the largest time where that sum does not
/// fit.
pub open spec fn deadline(now: i64, duration: u64) -> i64 {
    if now as int + duration as int > i64::MAX as int {
        i64::MAX
    } else {
        (now as int + duration as int) as i64
    }
}

/// The context of a job: what it runs, where, with which environment and
/// flags, what it has collected, and when it times out (milliseconds since
/// the Unix epoch).
/// Whether a timeout at `timeout_at` has passed at time `now`; never
/// without a timeout.
pub open spec fn timeout_passed(timeout_at: Option<i64>, now: i64) -> bool {
    match timeout_at {
        Some(t) => now > t,
        None => false,
    }
}

#[derive(Debug)]
pub struct JobContext {
    pub job_id: JobId,
    pub project_id: ProjectId,
    pub operation_id: OperationId,
    pub actor_id: ActorId,
    pub command: Option<Command>,
    pub intent: Option<Intent>,
    pub working_dir: String,
    pub env_vars: TextMap<String>,
    /// Shared resources, by name, as handles of values that the embedding
    /// program keeps.
    pub resources: TextMap<u64>,
    pub temp_files: Vec<String>,
    pub evidence_ids: Vec<EvidenceId>,
    pub flags: TextMap<bool>,
    pub timeout_at: Option<i64>,
}

impl JobContext {
    /// `other` holds the same context as `self`.
    pub open spec fn same_as(self, other: JobContext) -> bool {
        &&& self.job_id == other.job_id
        &&& self.project_id == other.project_id
        &&& self.operation_id == other.operation_id
        &&& self.actor_id == other.actor_id
        &&& (self.command is Some <==> other.command is Some)
        &&& (self.command is Some ==> self.command->0.same_as(other.command->0))
        &&& self.intent == other.intent
        &&& self.working_dir == other.working_dir
        &&& self.env_vars.view() == other.env_vars.view()
        &&& self.env_vars.key_seq() == other.env_vars.key_seq()
        &&& self.resources.view() == other.resources.view()
        &&& self.resources.key_seq() == other.resources.key_seq()
        &&& self.temp_files@ == other.temp_files@
        &&& self.evidence_ids@ == other.evidence_ids@
        &&& self.flags.view() == other.flags.view()
        &&& self.flags.key_seq() == other.flags.key_seq()
        &&& self.timeout_at == other.timeout_at
    }

    /// A fresh context for the given job: no command or intent, working
    /// directory `/tmp/malverde`, no environment, resources, files,
    /// evidence, flags or timeout.
    pub fn new(
        job_id: JobId,
        project_id: ProjectId,
        operation_id: OperationId,
        actor_id: ActorId,
    ) -> (r: JobContext)
        ensures
            r.job_id == job_id,
            r.project_id == project_id,
            r.operation_id == operation_id,
            r.actor_id == actor_id,
            r.command is None,
            r.intent is None,
            r.working_dir@ == default_working_dir(),
            r.env_vars.view().is_empty(),
            r.resources.view().is_empty(),
            r.temp_files@.len() == 0,
            r.evidence_ids@.len() == 0,
            r.flags.view().is_empty(),
            r.timeout_at is None,
    {
        JobContext {
            job_id,
            project_id,
            operation_id,
            actor_id,
            command: None,
            intent: None,
            working_dir: String::from_str("/tmp/malverde"),
            env_vars: TextMap::new(),
            resources: TextMap::new(),
            temp_files: Vec::new(),
            evidence_ids: Vec::new(),
            flags: TextMap::new(),
            timeout_at: None,
        }
    }

    /// A copy of the context.
    pub fn duplicate(&self) -> (r: JobContext)
        ensures
            r.same_as(*self),
    {
        let command = match &self.command {
            Some(c) => Some(c.duplicate()),
            None => None,
        };
        let intent = match &self.intent {
            Some(i) => Some(i.duplicate()),
            None => None,
        };
        let temp_files = self.temp_files.clone();
        assert(temp_files@ =~= self.temp_files@);
        let evidence_ids = self.evidence_ids.clone();
        assert(evidence_ids@ =~= self.evidence_ids@);
        JobContext {
            job_id: self.job_id,
            project_id: self.project_id,
            operation_id: self.operation_id,
            actor_id: self.actor_id,
            command,
            intent,
            working_dir: self.working_dir.clone(),
            env_vars: self.env_vars.duplicate(),
            resources: self.resources.duplicate(),
            temp_files,
            evidence_ids,
            flags: self.flags.duplicate(),
            timeout_at: self.timeout_at,
        }
    }

    /// Sets the current command.
    pub fn set_command(&mut self, command: Command)
        ensures
            *final(self) == (JobContext { command: Some(command), ..*old(self) }),
    {
        self.command = Some(command);
    }

    /// Sets the current intent.
    pub fn set_intent(&mut self, intent: Intent)
        ensures
            *final(self) == (JobContext { intent: Some(intent), ..*old(self) }),
    {
        self.intent = Some(intent);
    }

    /// Sets an environment variable, replacing any value it had.
    pub fn set_env(&mut self, key: String, value: String)
        ensures
            final(self).env_vars.view() == old(self).env_vars.view().insert(key@, value),
            !old(self).env_vars.view().contains_key(key@) ==> final(self).env_vars.key_seq() == old(self).env_vars.key_seq().push(key@),
            old(self).env_vars.view().contains_key(key@) ==> final(self).env_vars.key_seq() == old(self).env_vars.key_seq(),
            *final(self) == (JobContext { env_vars: final(self).env_vars, ..*old(self) }),
    {
        self.env_vars.insert(key, value);
    }

    /// The value of an environment variable, if it is set.
    pub fn get_env(&self, key: &str) -> (r: Option<&String>)
        ensures
            match r {
                Some(v) => self.env_vars.view().contains_key(key@) && *v == self.env_vars.view()[key@],
                None => !self.env_vars.view().contains_key(key@),
            },
    {
        self.env_vars.get(key)
    }

    /// Sets a shared resource, by the handle of its value, replacing any
    /// resource of that name.
    pub fn add_resource(&mut self, key: String, value: u64)
        ensures
            final(self).resources.view() == old(self).resources.view().insert(key@, value),
            !old(self).resources.view().contains_key(key@) ==> final(self).resources.key_seq() == old(self).resources.key_seq().push(key@),
            old(self).resources.view().contains_key(key@) ==> final(self).resources.key_seq() == old(self).resources.key_seq(),
            *final(self) == (JobContext { resources: final(self).resources, ..*old(self) }),
    {
        self.resources.insert(key, value);
    }

    /// The handle of a shared resource, if one of that name is set.
    pub fn get_resource(&self, key: &str) -> (r: Option<u64>)
        ensures
            r == if self.resources.view().contains_key(key@) {
                Some(self.resources.view()[key@])
            } else {
                None::<u64>
            },
    {
        match self.resources.get(key) {
            Some(v) => Some(*v),
            None => None,
        }
    }

    /// Records a temporary file.
    pub fn add_temp_file(&mut self, path: String)
        ensures
            final(self).temp_files@ == old(self).temp_files@.push(path),
            *final(self) == (JobContext { temp_files: final(self).temp_files, ..*old(self) }),
    {
        self.temp_files.push(path);
    }

    /// Records a piece of evidence.
    pub fn add_evidence(&mut self, evidence_id: EvidenceId)
        ensures
            final(self).evidence_ids@ == old(self).evidence_ids@.push(evidence_id),
            *final(self) == (JobContext { evidence_ids: final(self).evidence_ids, ..*old(self) }),
    {
        self.evidence_ids.push(evidence_id);
    }

    /// Sets a flag, replacing any value it had.
    pub fn set_flag(&mut self, key: String, value: bool)
        ensures
            final(self).flags.view() == old(self).flags.view().insert(key@, value),
            !old(self).flags.view().contains_key(key@) ==> final(self).flags.key_seq() == old(self).flags.key_seq().push(key@),
            old(self).flags.view().contains_key(key@) ==> final(self).flags.key_seq() == old(self).flags.key_seq(),
            *final(self) == (JobContext { flags: final(self).flags, ..*old(self) }),
    {
        self.flags.insert(key, value);
    }

    /// The value of a flag; an unset flag is false.
    pub fn get_flag(&self, key: &str) -> (r: bool)
        ensures
            r == (self.flags.view().contains_key(key@) && self.flags.view()[key@]),
    {
        match self.flags.get(key) {
            Some(v) => *v,
            None => false,
        }
    }

    /// Sets the timeout to `duration` milliseconds after `now`.
    pub fn set_timeout_at(&mut self, now: i64, duration: u64)
        ensures
            *final(self) == (JobContext { timeout_at: Some(deadline(now, duration)), ..*old(self) }),
    {
        let t: i64 = if now as i128 + duration as i128 > i64::MAX as i128 {
            i64::MAX
        } else {
            (now as i128 + duration as i128) as i64
        };
        self.timeout_at = Some(t);
    }

    /// Sets the timeout to `duration` milliseconds from now; see
    /// `set_timeout_at`.
    pub fn set_timeout(&mut self, duration: u64)
        ensures
            *final(self) == (JobContext { timeout_at: final(self).timeout_at, ..*old(self) }),
            final(self).timeout_at is Some,
    {
        let now = unix_millis_now();
        self.set_timeout_at(now, duration);
    }

    /// Whether the timeout has passed at time `now`; false without a timeout.
    pub fn is_timeout_at(&self, now: i64) -> (r: bool)
        ensures
            r == match self.timeout_at {
                Some(t) => now > t,
                None => false,
            },
    {
        match self.timeout_at {
            Some(t) => now > t,
            None => false,
        }
    }

    /// Whether the timeout has passed now; see `is_timeout_at`. The result
    /// is what `is_timeout_at` gives at the time the clock reads.
    pub fn is_timeout(&self) -> (r: bool)
        ensures
            self.timeout_at is None ==> !r,
            exists|t: i64| r == #[trigger] timeout_passed(self.timeout_at, t),
    {
        let now = unix_millis_now();
        let r = self.is_timeout_at(now);
        assert(r == timeout_passed(self.timeout_at, now));
        r
    }
}

/// Builds a job context.
pub struct ContextBuilder {
    pub job_id: JobId,
    pub project_id: ProjectId,
    pub operation_id: OperationId,
    pub actor_id: ActorId,
    pub working_dir: String,
    pub env_vars: TextMap<String>,
    pub flags: TextMap<bool>,
}

impl ContextBuilder {
    /// A builder for the given job, with working directory `/tmp/malverde`
    /// and no environment or flags.
    pub fn new(
        job_id: JobId,
        project_id: ProjectId,
        operation_id: OperationId,
        actor_id: ActorId,
    ) -> (r: ContextBuilder)
        ensures
            r.job_id == job_id,
            r.project_id == project_id,
            r.operation_id == operation_id,
            r.actor_id == actor_id,
            r.working_dir@ == default_working_dir(),
            r.env_vars.view().is_empty(),
            r.flags.view().is_empty(),
    {
        ContextBuilder {
            job_id,
            project_id,
            operation_id,
            actor_id,
            working_dir: String::from_str("/tmp/malverde"),
            env_vars: TextMap::new(),
            flags: TextMap::new(),
        }
    }

    /// Sets the working directory.
    pub fn working_dir(self, dir: String) -> (r: ContextBuilder)
        ensures
            r == (ContextBuilder { working_dir: dir, ..self }),
    {
        ContextBuilder { working_dir: dir, ..self }
    }

    /// Sets an environment variable.
    pub fn env(self, key: String, value: String) -> (r: ContextBuilder)
        ensures
            r.env_vars.view() == self.env_vars.view().insert(key@, value),
            r.job_id == self.job_id,
            r.project_id == self.project_id,
            r.operation_id == self.operation_id,
            r.actor_id == self.actor_id,
            r.working_dir == self.working_dir,
            r.flags == self.flags,
    {
        let mut b = self;
        b.env_vars.insert(key, value);
        b
    }

    /// Sets a flag.
    pub fn flag(self, key: String, value: bool) -> (r: ContextBuilder)
        ensures
            r.flags.view() == self.flags.view().insert(key@, value),
            r.job_id == self.job_id,
            r.project_id == self.project_id,
            r.operation_id == self.operation_id,
            r.actor_id == self.actor_id,
            r.working_dir == self.working_dir,
            r.env_vars == self.env_vars,
    {
        let mut b = self;
        b.flags.insert(key, value);
        b
    }

    /// The context the builder describes: no command, intent, resources,
    /// files, evidence or timeout.
    pub fn build(self) -> (r: JobContext)
        ensures
            r.job_id == self.job_id,
            r.project_id == self.project_id,
            r.operation_id == self.operation_id,
            r.actor_id == self.actor_id,
            r.command is None,
            r.intent is None,
            r.working_dir == self.working_dir,
            r.env_vars == self.env_vars,
            r.resources.view().is_empty(),
            r.temp_files@.len() == 0,
            r.evidence_ids@.len() == 0,
            r.flags == self.flags,
            r.timeout_at is None,
    {
        JobContext {
            job_id: self.job_id,
            project_id: self.project_id,
            operation_id: self.operation_id,
            actor_id: self.actor_id,
            command: None,
            intent: None,
            working_dir: self.working_dir,
            env_vars: self.env_vars,
            resources: TextMap::new(),
            temp_files: Vec::new(),
            evidence_ids: Vec::new(),
            flags: self.flags,
            timeout_at: None,
        }
    }
}

/// A job that carries a context.
pub trait ContextAware {
    /// Gives the job its context.
    fn set_context(&mut self, context: JobContext);

    /// The job's context, if it has one.
    fn get_context(&self) -> Option<&JobContext>;
}

} // verus!
