//! Log records and the responses a logger may hand back.

use vstd::prelude::*;

verus! {

/// The kinds of log a logger can be handed.
pub enum LogType {
    /// A normal log, e.g. a version banner on start-up.
    Log,
    /// An expected, recoverable error, e.g. a missing database that can be
    /// created afresh.
    Inconvenience,
    /// An unexpected error that could still be recoverable, e.g. an I/O
    /// error worth retrying.
    Failure,
    /// A major, unrecoverable error that forces the application to stop.
    Fatal,
}

/// Possible responses from a logger during an error.
#[derive(Clone, Copy, PartialEq, Eq, Structural)]
pub enum ErrorResponse {
    /// Asks the process to retry the action in hopes it works this time.
    Retry,
    /// Asks the process to just panic.
    Panic,
    /// Asks the process to stop the application gracefully.
    Crash,
    /// Asks the process to let the user decide how to recover.
    AskUser,
}

/// A log record to be passed into a logger.
pub struct Log<'a> {
    /// Kind of the log.
    pub log_type: LogType,
    /// The function or process the log originates from.
    pub origin: &'a str,
    /// The log message itself.
    pub message: &'a str,
    /// The responses a logger is allowed to answer with.
    pub allowed_responses: &'a [ErrorResponse],
}

impl ErrorResponse {
    /// Whether this response is among the ones the log allows.
    pub fn allowed_in(&self, log: &Log) -> (r: bool)
        ensures
            r == log.allowed_responses@.contains(*self),
    {
        let n = log.allowed_responses.len();
        let mut i: usize = 0;
        while i < n
            invariant
                n == log.allowed_responses@.len(),
                0 <= i <= n,
                forall|j: int| 0 <= j < i ==> log.allowed_responses@[j] != *self,
            decreases n - i,
        {
            if log.allowed_responses[i] == *self {
                return true;
            }
            i = i + 1;
        }
        false
    }
}

impl<'a> Log<'a> {
    /// Constructs a new log record from its parts.
    pub fn new(
        log_type: LogType,
        origin: &'a str,
        message: &'a str,
        allowed_responses: &'a [ErrorResponse],
    ) -> (r: Self)
        ensures
            r.log_type == log_type,
            r.origin@ == origin@,
            r.message@ == message@,
            r.allowed_responses@ == allowed_responses@,
    {
        Self { log_type, origin, message, allowed_responses }
    }
}

} // verus!
