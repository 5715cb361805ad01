//! The framework's error types and their messages.

use vstd::prelude::*;

verus! {

/// Decimal text of an unsigned number, most significant digit first.
pub open spec fn decimal_text(n: nat) -> Seq<char>
    decreases n,
{
    if n < 10 {
        seq![digit_char(n)]
    } else {
        decimal_text(n / 10).push(digit_char(n % 10))
    }
}

/// The character of a decimal digit.
pub open spec fn digit_char(d: nat) -> char {
    if d == 0 { '0' }
    else if d == 1 { '1' }
    else if d == 2 { '2' }
    else if d == 3 { '3' }
    else if d == 4 { '4' }
    else if d == 5 { '5' }
    else if d == 6 { '6' }
    else if d == 7 { '7' }
    else if d == 8 { '8' }
    else { '9' }
}

/// The text of one decimal digit.
fn digit_text(d: u64) -> (r: &'static str)
    requires
        d < 10,
    ensures
        r@ == seq![digit_char(d as nat)],
{
    proof {
        reveal_strlit("0");
        reveal_strlit("1");
        reveal_strlit("2");
        reveal_strlit("3");
        reveal_strlit("4");
        reveal_strlit("5");
        reveal_strlit("6");
        reveal_strlit("7");
        reveal_strlit("8");
        reveal_strlit("9");
    }
    if d == 0 {
        "0"
    } else if d == 1 {
        "1"
    } else if d == 2 {
        "2"
    } else if d == 3 {
        "3"
    } else if d == 4 {
        "4"
    } else if d == 5 {
        "5"
    } else if d == 6 {
        "6"
    } else if d == 7 {
        "7"
    } else if d == 8 {
        "8"
    } else {
        "9"
    }
}

/// The decimal digits of a number, most significant first.
pub(crate) fn u64_to_decimal(n: u64) -> (r: String)
    ensures
        r@ == decimal_text(n as nat),
    decreases n,
{
    if n < 10 {
        String::from_str(digit_text(n))
    } else {
        let mut r = u64_to_decimal(n / 10);
        r.append(digit_text(n % 10));
        r
    }
}

/// Errors of the framework.
#[derive(Debug)]
pub enum MalverdeError {
    StorageError(String),
    SerializationError(String),
    ConfigError(String),
    ValidationError(String),
    SecurityError(String),
    PluginError(String),
    JobError(String),
    EventError(String),
    MemoryError(String),
    LearningError(String),
    NetworkError(String),
    FilesystemError(String),
    Unknown(String),
}

/// The text that stands before the detail in the message of each error kind.
pub open spec fn malverde_error_text(e: MalverdeError) -> Seq<char> {
    match e {
        MalverdeError::StorageError(s) => "Storage error: "@ + s@,
        MalverdeError::SerializationError(s) => "Serialization error: "@ + s@,
        MalverdeError::ConfigError(s) => "Configuration error: "@ + s@,
        MalverdeError::ValidationError(s) => "Validation error: "@ + s@,
        MalverdeError::SecurityError(s) => "Security error: "@ + s@,
        MalverdeError::PluginError(s) => "Plugin error: "@ + s@,
        MalverdeError::JobError(s) => "Job error: "@ + s@,
        MalverdeError::EventError(s) => "Event error: "@ + s@,
        MalverdeError::MemoryError(s) => "Memory error: "@ + s@,
        MalverdeError::LearningError(s) => "Learning error: "@ + s@,
        MalverdeError::NetworkError(s) => "Network error: "@ + s@,
        MalverdeError::FilesystemError(s) => "Filesystem error: "@ + s@,
        MalverdeError::Unknown(s) => "Unknown error: "@ + s@,
    }
}

fn prefixed(prefix: &str, detail: &String) -> (r: String)
    ensures
        r@ == prefix@ + detail@,
{
    let mut r = String::from_str(prefix);
    r.append(detail.as_str());
    r
}

impl MalverdeError {
    /// A storage error.
    pub fn storage(error: String) -> (r: MalverdeError)
        ensures
            r == MalverdeError::StorageError(error),
    {
        MalverdeError::StorageError(error)
    }

    /// A serialization error.
    pub fn serialization(error: String) -> (r: MalverdeError)
        ensures
            r == MalverdeError::SerializationError(error),
    {
        MalverdeError::SerializationError(error)
    }

    /// A configuration error.
    pub fn config(error: String) -> (r: MalverdeError)
        ensures
            r == MalverdeError::ConfigError(error),
    {
        MalverdeError::ConfigError(error)
    }

    /// A validation error.
    pub fn validation(error: String) -> (r: MalverdeError)
        ensures
            r == MalverdeError::ValidationError(error),
    {
        MalverdeError::ValidationError(error)
    }

    /// A security error.
    pub fn security(error: String) -> (r: MalverdeError)
        ensures
            r == MalverdeError::SecurityError(error),
    {
        MalverdeError::SecurityError(error)
    }

    /// A plugin error.
    pub fn plugin(error: String) -> (r: MalverdeError)
        ensures
            r == MalverdeError::PluginError(error),
    {
        MalverdeError::PluginError(error)
    }

    /// A job error.
    pub fn job(error: String) -> (r: MalverdeError)
        ensures
            r == MalverdeError::JobError(error),
    {
        MalverdeError::JobError(error)
    }

    /// An event error.
    pub fn event(error: String) -> (r: MalverdeError)
        ensures
            r == MalverdeError::EventError(error),
    {
        MalverdeError::EventError(error)
    }

    /// A memory error.
    pub fn memory(error: String) -> (r: MalverdeError)
        ensures
            r == MalverdeError::MemoryError(error),
    {
        MalverdeError::MemoryError(error)
    }

    /// A learning error.
    pub fn learning(error: String) -> (r: MalverdeError)
        ensures
            r == MalverdeError::LearningError(error),
    {
        MalverdeError::LearningError(error)
    }

    /// A network error.
    pub fn network(error: String) -> (r: MalverdeError)
        ensures
            r == MalverdeError::NetworkError(error),
    {
        MalverdeError::NetworkError(error)
    }

    /// A filesystem error.
    pub fn filesystem(error: String) -> (r: MalverdeError)
        ensures
            r == MalverdeError::FilesystemError(error),
    {
        MalverdeError::FilesystemError(error)
    }

    /// The error's message, as its `Display` writes it.
    pub fn message(&self) -> (r: String)
        ensures
            r@ == malverde_error_text(*self),
    {
        match self {
            MalverdeError::StorageError(s) => prefixed("Storage error: ", s),
            MalverdeError::SerializationError(s) => prefixed("Serialization error: ", s),
            MalverdeError::ConfigError(s) => prefixed("Configuration error: ", s),
            MalverdeError::ValidationError(s) => prefixed("Validation error: ", s),
            MalverdeError::SecurityError(s) => prefixed("Security error: ", s),
            MalverdeError::PluginError(s) => prefixed("Plugin error: ", s),
            MalverdeError::JobError(s) => prefixed("Job error: ", s),
            MalverdeError::EventError(s) => prefixed("Event error: ", s),
            MalverdeError::MemoryError(s) => prefixed("Memory error: ", s),
            MalverdeError::LearningError(s) => prefixed("Learning error: ", s),
            MalverdeError::NetworkError(s) => prefixed("Network error: ", s),
            MalverdeError::FilesystemError(s) => prefixed("Filesystem error: ", s),
            MalverdeError::Unknown(s) => prefixed("Unknown error: ", s),
        }
    }

    /// The framework error that a job error becomes: a `JobError` whose
    /// detail is the job error's message.
    pub fn from_job_error(err: JobError) -> (r: MalverdeError)
        ensures
            r is JobError,
            r->JobError_0@ == job_error_text(err),
    {
        MalverdeError::JobError(err.message())
    }
}

/// Errors of the job system.
#[derive(Debug)]
pub enum JobError {
    NotFound(String),
    AlreadyExists(String),
    InvalidState(String),
    ExecutionFailed(String),
    Timeout(u64),
    CheckpointError(String),
    RecoveryError(String),
    StorageError(String),
    SerializationError(String),
}

/// The message of a job error, as its `Display` writes it.
pub open spec fn job_error_text(e: JobError) -> Seq<char> {
    match e {
        JobError::NotFound(s) => "Job not found: "@ + s@,
        JobError::AlreadyExists(s) => "Job already exists: "@ + s@,
        JobError::InvalidState(s) => "Job in invalid state: "@ + s@,
        JobError::ExecutionFailed(s) => "Job execution failed: "@ + s@,
        JobError::Timeout(ms) => "Job timeout after "@ + decimal_text(ms as nat) + "ms"@,
        JobError::CheckpointError(s) => "Checkpoint error: "@ + s@,
        JobError::RecoveryError(s) => "Recovery error: "@ + s@,
        JobError::StorageError(s) => "Storage error: "@ + s@,
        JobError::SerializationError(s) => "Serialization error: "@ + s@,
    }
}

impl JobError {
    /// The error's message, as its `Display` writes it.
    pub fn message(&self) -> (r: String)
        ensures
            r@ == job_error_text(*self),
    {
        match self {
            JobError::NotFound(s) => prefixed("Job not found: ", s),
            JobError::AlreadyExists(s) => prefixed("Job already exists: ", s),
            JobError::InvalidState(s) => prefixed("Job in invalid state: ", s),
            JobError::ExecutionFailed(s) => prefixed("Job execution failed: ", s),
            JobError::Timeout(ms) => {
                let digits = u64_to_decimal(*ms);
                let mut r = prefixed("Job timeout after ", &digits);
                r.append("ms");
                r
            },
            JobError::CheckpointError(s) => prefixed("Checkpoint error: ", s),
            JobError::RecoveryError(s) => prefixed("Recovery error: ", s),
            JobError::StorageError(s) => prefixed("Storage error: ", s),
            JobError::SerializationError(s) => prefixed("Serialization error: ", s),
        }
    }

    /// The job error that a framework error becomes: an `ExecutionFailed`
    /// whose detail is the framework error's message.
    pub fn from_malverde_error(err: MalverdeError) -> (r: JobError)
        ensures
            r is ExecutionFailed,
            r->ExecutionFailed_0@ == malverde_error_text(err),
    {
        JobError::ExecutionFailed(err.message())
    }
}

} // verus!
