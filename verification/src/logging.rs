//! Log messages tagged with the module and operation they come from.

use vstd::prelude::*;
use crate::types::LogLevel;

verus! {

/// The module and operation that log messages come from.
#[derive(Debug)]
pub struct LoggingContext {
    pub module: String,
    pub operation: String,
}

/// A message ready to be written to the log at its level.
#[derive(Debug)]
pub struct LogLine {
    pub level: LogLevel,
    pub text: String,
}

/// The text of a message logged in a context: the module and the
/// operation, each in square brackets, then the message, separated by
/// spaces.
pub open spec fn tagged_message(module: Seq<char>, operation: Seq<char>, message: Seq<char>) -> Seq<char> {
    "["@ + module + "] ["@ + operation + "] "@ + message
}

impl LoggingContext {
    /// The context of the given module and operation.
    pub fn new(module: String, operation: String) -> (r: LoggingContext)
        ensures
            r.module == module,
            r.operation == operation,
    {
        LoggingContext { module, operation }
    }

    /// The line that logs `message` at `level` in this context; see
    /// `tagged_message`. Writing it is up to the caller.
    pub fn log(&self, level: LogLevel, message: &str) -> (r: LogLine)
        ensures
            r.level == level,
            r.text@ == tagged_message(self.module@, self.operation@, message@),
    {
        let mut text = String::from_str("[");
        text.append(self.module.as_str());
        text.append("] [");
        text.append(self.operation.as_str());
        text.append("] ");
        text.append(message);
        LogLine { level, text }
    }
}

} // verus!
