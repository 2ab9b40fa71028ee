//! What the recompiler asks its host to write to the log.

use vstd::prelude::*;

verus! {

/// How loud a log record is.
#[derive(Clone, Copy, Debug, PartialEq, Eq, Structural)]
pub enum Level {
    Info,
    Error,
}

/// One line for the log sink.
#[derive(Clone, Debug, PartialEq, Eq)]
pub struct LogRecord {
    pub level: Level,
    pub text: String,
}

impl View for LogRecord {
    type V = (Level, Seq<char>);

    open spec fn view(&self) -> (Level, Seq<char>) {
        (self.level, self.text@)
    }
}

impl LogRecord {
    /// The record at info level with the given text.
    pub open spec fn info_spec(text: String) -> LogRecord {
        LogRecord { level: Level::Info, text }
    }

    /// The record at error level with the given text.
    pub open spec fn error_spec(text: String) -> LogRecord {
        LogRecord { level: Level::Error, text }
    }

    /// A record at info level.
    pub fn info(text: String) -> (r: LogRecord)
        ensures
            r == Self::info_spec(text),
    {
        LogRecord { level: Level::Info, text }
    }

    /// A record at error level.
    pub fn error(text: String) -> (r: LogRecord)
        ensures
            r == Self::error_spec(text),
    {
        LogRecord { level: Level::Error, text }
    }
}

} // verus!
