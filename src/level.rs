use vstd::prelude::*;

verus! {

/// Severity of a log message, from the most verbose to the most severe.
#[derive(Clone, Copy, Debug, PartialEq, Eq, Structural)]
pub enum LogLevel {
    Trace,
    Debug,
    Info,
    Warn,
    Error,
}

impl LogLevel {
    /// The position of the level on the severity scale: `Trace` is 0, `Error` is 4.
    pub open spec fn rank(self) -> nat {
        match self {
            LogLevel::Trace => 0,
            LogLevel::Debug => 1,
            LogLevel::Info => 2,
            LogLevel::Warn => 3,
            LogLevel::Error => 4,
        }
    }

    /// The upper-case tag that a rendered line carries for this level.
    pub open spec fn spec_label(self) -> Seq<char> {
        match self {
            LogLevel::Trace => "TRACE"@,
            LogLevel::Debug => "DEBUG"@,
            LogLevel::Info => "INFO"@,
            LogLevel::Warn => "WARN"@,
            LogLevel::Error => "ERROR"@,
        }
    }

    /// Whether a threshold of `self` lets a message of level `other` through.
    pub open spec fn admits(self, other: LogLevel) -> bool {
        self.rank() <= other.rank()
    }

    /// The numeric position of the level, used to compare a message with a threshold.
    pub fn get_level(&self) -> (r: usize)
        ensures
            r == self.rank(),
    {
        match self {
            LogLevel::Trace => 0,
            LogLevel::Debug => 1,
            LogLevel::Info => 2,
            LogLevel::Warn => 3,
            LogLevel::Error => 4,
        }
    }

    /// Whether a threshold of `self` lets a message of level `other` through.
    pub fn lets_through(&self, other: &LogLevel) -> (r: bool)
        ensures
            r == self.admits(*other),
    {
        self.get_level() <= other.get_level()
    }

    /// The upper-case tag of the level (`"INFO"`, `"WARN"`, ...).
    pub fn label(&self) -> (r: String)
        ensures
            r@ == self.spec_label(),
    {
        match self {
            LogLevel::Trace => String::from_str("TRACE"),
            LogLevel::Debug => String::from_str("DEBUG"),
            LogLevel::Info => String::from_str("INFO"),
            LogLevel::Warn => String::from_str("WARN"),
            LogLevel::Error => String::from_str("ERROR"),
        }
    }
}

} // verus!
