//! How a caller is told what happens: levels of messages and the writer
//! that a caller brings.

use vstd::prelude::*;

verus! {

/// How much a message matters.
#[derive(Debug, Clone, Copy, PartialEq, Eq, Structural)]
pub enum LogLevel {
    Trace,
    Info,
    Success,
    Warning,
    Error,
}

impl Default for LogLevel {
    /// The level of an ordinary message.
    fn default() -> (r: Self)
        ensures
            r == LogLevel::Info,
    {
        LogLevel::Info
    }
}

impl LogLevel {
    /// The rank of this level: the higher, the more the message matters.
    pub open spec fn rank(self) -> nat {
        match self {
            LogLevel::Trace => 0,
            LogLevel::Info => 1,
            LogLevel::Success => 2,
            LogLevel::Warning => 3,
            LogLevel::Error => 4,
        }
    }

    /// The rank of this level.
    pub fn rank_of(&self) -> (r: u8)
        ensures
            r == self.rank(),
    {
        match self {
            LogLevel::Trace => 0,
            LogLevel::Info => 1,
            LogLevel::Success => 2,
            LogLevel::Warning => 3,
            LogLevel::Error => 4,
        }
    }

    /// Tells whether a message of this level is shown by a writer that
    /// shows nothing below `min_level`.
    pub fn is_shown(&self, min_level: &LogLevel) -> (shown: bool)
        ensures
            shown == (self.rank() >= min_level.rank()),
    {
        self.rank_of() >= min_level.rank_of()
    }

    /// The short text under which messages of this level are written.
    pub fn text(&self) -> (r: &'static str)
        ensures
            r@ == match self {
                LogLevel::Trace => "TRCE"@,
                LogLevel::Info => "INFO"@,
                LogLevel::Success => "OK"@,
                LogLevel::Warning => "WARN"@,
                LogLevel::Error => "ERR"@,
            },
    {
        match self {
            LogLevel::Trace => "TRCE",
            LogLevel::Info => "INFO",
            LogLevel::Success => "OK",
            LogLevel::Warning => "WARN",
            LogLevel::Error => "ERR",
        }
    }
}

/// What the library's caller writes messages with.
pub trait ConsoleWriter {
    /// Writes `message` for the user, at the level `level`.
    fn user_line(&self, level: LogLevel, message: &str);

    /// Writes `message` as the result.
    fn output(&self, message: &str);
}

} // verus!
