use vstd::prelude::*;
use vstd::string::StringExecFns;

verus! {

/// Formats the plugin's log records.
pub struct Logger;

/// Severity of a log record.
#[derive(Debug, Clone, Copy, PartialEq, Eq, Structural)]
pub enum LogLevel {
    Error,
    Warn,
    Info,
    Debug,
}

impl LogLevel {
    pub open spec fn spec_name(self) -> Seq<char> {
        match self {
            LogLevel::Error => "Error"@,
            LogLevel::Warn => "Warn"@,
            LogLevel::Info => "Info"@,
            LogLevel::Debug => "Debug"@,
        }
    }

    /// The level's name as it appears in a record.
    pub fn name(&self) -> (r: &'static str)
        ensures
            r@ == self.spec_name(),
    {
        match self {
            LogLevel::Error => "Error",
            LogLevel::Warn => "Warn",
            LogLevel::Info => "Info",
            LogLevel::Debug => "Debug",
        }
    }
}

impl Logger {
    /// The record line for a message: `[mpvRemote] <Level> - <message>`.
    pub fn line(&self, level: LogLevel, arg: &str) -> (r: String)
        ensures
            r@ == "[mpvRemote] "@ + level.spec_name() + " - "@ + arg@,
    {
        let mut s = "[mpvRemote] ".to_owned();
        s.append(level.name());
        s.append(" - ");
        s.append(arg);
        s
    }
}

} // verus!
