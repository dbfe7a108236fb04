//! Log-line formatting: one line per call, at one of three severities, with the
//! warning and error lines wrapped in terminal colour codes. The library only
//! builds the text of each line; writing it to a stream is the caller's
//! business.

use vstd::prelude::*;
use vstd::string::StringExecFns;

verus! {

/// Severity of a log line.
#[derive(Clone, Copy, Debug, PartialEq, Eq, Structural)]
pub enum Level {
    Info,
    Warn,
    Error,
}

/// Stateless formatter for the tool's log lines.
pub struct Logger {}

/// The exact text of a log line at a given severity: a severity tag, the
/// message, and colour codes around warnings and errors.
pub open spec fn log_line(level: Level, message: Seq<char>) -> Seq<char> {
    match level {
        Level::Info => "[INFO] "@ + message,
        Level::Warn => "\u{1b}[33m[WARN] "@ + message + "\u{1b}[0m"@,
        Level::Error => "\u{1b}[31m[ERR] "@ + message + "\u{1b}[0m"@,
    }
}

impl Logger {
    fn log(level: Level, message: &str) -> (r: String)
        ensures
            r@ == log_line(level, message@),
    {
        match level {
            Level::Info => String::from_str("[INFO] ").concat(message),
            Level::Warn => String::from_str("\u{1b}[33m[WARN] ").concat(message).concat(
                "\u{1b}[0m",
            ),
            Level::Error => String::from_str("\u{1b}[31m[ERR] ").concat(message).concat(
                "\u{1b}[0m",
            ),
        }
    }

    /// The informational line for a message.
    pub fn info(message: &str) -> (r: String)
        ensures
            r@ == log_line(Level::Info, message@),
    {
        Self::log(Level::Info, message)
    }

    /// The warning line for a message.
    pub fn warn(message: &str) -> (r: String)
        ensures
            r@ == log_line(Level::Warn, message@),
    {
        Self::log(Level::Warn, message)
    }

    /// The error line for a message.
    pub fn error(message: &str) -> (r: String)
        ensures
            r@ == log_line(Level::Error, message@),
    {
        Self::log(Level::Error, message)
    }
}

} // verus!
