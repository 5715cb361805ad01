//! Plain value types shared by the framework's modules.

use vstd::prelude::*;

verus! {

/// Lifecycle state of a job.
#[derive(Clone, Copy, Debug, PartialEq, Eq, Hash, Structural)]
pub enum JobState {
    Pending,
    Running,
    Paused,
    Completed,
    Failed,
    Cancelled,
}

/// Status of a job row in storage.
#[derive(Clone, Copy, Debug, PartialEq, Eq, Hash, Structural)]
pub enum JobStatus {
    Pending,
    Running,
    Paused,
    Completed,
    Failed,
}

/// Priority of a job row in storage.
#[derive(Clone, Copy, Debug, PartialEq, Eq, Hash, Structural)]
pub enum JobPriority {
    Low,
    Normal,
    High,
    Critical,
}

/// Severity of a log message.
#[derive(Clone, Copy, Debug, PartialEq, Eq, Hash, Structural)]
pub enum LogLevel {
    Error,
    Warn,
    Info,
    Debug,
    Trace,
}

/// State of an audit record.
#[derive(Clone, Copy, Debug, PartialEq, Eq, Hash, Structural)]
pub enum AuditState {
    Recorded,
    Processed,
    Archived,
}

/// A confidence score in percent.
#[derive(Clone, Copy, Debug, PartialEq, Eq, Hash, Structural)]
pub struct Confidence {
    pub value: u8,
}

impl Confidence {
    /// The confidence score `value`.
    pub fn new(value: u8) -> (r: Confidence)
        ensures
            r.value == value,
    {
        Confidence { value }
    }
}

/// A command that a job executes: a program name and its arguments.
#[derive(Debug)]
pub struct Command {
    pub name: String,
    pub args: Vec<String>,
}

/// What an actor intends a job to achieve.
#[derive(Debug)]
pub struct Intent {
    pub description: String,
}

} // verus!
