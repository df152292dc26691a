//! Log levels and the form of a log line; the files are written by the
//! application.
use vstd::prelude::*;
use crate::text::{owned, str_eq};
use vstd::string::StringExecFns;

verus! {

/// Log severity levels.
#[derive(Clone, Copy, Debug, PartialEq, Eq, Structural)]
pub enum LogLevel {
    Error,
    Warn,
    Info,
    Debug,
}

pub open spec fn level_name(l: LogLevel) -> Seq<char> {
    match l {
        LogLevel::Error => "ERROR"@,
        LogLevel::Warn => "WARN"@,
        LogLevel::Info => "INFO"@,
        LogLevel::Debug => "DEBUG"@,
    }
}

pub open spec fn level_file(l: LogLevel) -> Seq<char> {
    match l {
        LogLevel::Error => "error.log"@,
        LogLevel::Warn => "warn.log"@,
        LogLevel::Info => "info.log"@,
        LogLevel::Debug => "debug.log"@,
    }
}

impl LogLevel {
    /// The name of the level as it appears in a log line.
    pub fn as_str(&self) -> (r: &str)
        ensures
            r@ == level_name(*self),
    {
        match self {
            LogLevel::Error => "ERROR",
            LogLevel::Warn => "WARN",
            LogLevel::Info => "INFO",
            LogLevel::Debug => "DEBUG",
        }
    }

    /// The file that entries of the level go to.
    pub fn filename(&self) -> (r: &str)
        ensures
            r@ == level_file(*self),
    {
        match self {
            LogLevel::Error => "error.log",
            LogLevel::Warn => "warn.log",
            LogLevel::Info => "info.log",
            LogLevel::Debug => "debug.log",
        }
    }
}

/// Each severity level has a file of its own.
pub proof fn lemma_level_files_distinct(a: LogLevel, b: LogLevel)
    ensures
        a != b ==> level_file(a) != level_file(b),
{
    reveal_strlit("error.log");
    reveal_strlit("warn.log");
    reveal_strlit("info.log");
    reveal_strlit("debug.log");
    if a != b {
        assert(level_file(a)[0] != level_file(b)[0]);
    }
}

/// A log line: `[timestamp] [LEVEL] message` and a line break.
pub fn format_log_line(timestamp: &str, level: LogLevel, message: &str) -> (r: String)
    ensures
        r@ == "["@ + timestamp@ + "] ["@ + level_name(level) + "] "@ + message@ + "\n"@,
{
    let mut s = owned("[");
    s.append(timestamp);
    s.append("] [");
    s.append(level.as_str());
    s.append("] ");
    s.append(message);
    s.append("\n");
    s
}

/// Debug logging is on when the `DEBUG` variable is set to `true`.
pub fn debug_enabled(value: Option<&str>) -> (r: bool)
    ensures
        r == (value matches Some(v) && v@ == "true"@),
{
    match value {
        Some(v) => str_eq(v, "true"),
        None => false,
    }
}

} // verus!
