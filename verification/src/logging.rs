//! Log levels and the tag that each kernel log line starts with.

use vstd::prelude::*;

verus! {

/// Severity of a kernel log line.
#[derive(Debug, Clone, Copy, PartialEq, Eq, Structural)]
pub enum LogLevel {
    Trace,
    Debug,
    Info,
    Warn,
    Error,
    Fatal,
}

impl LogLevel {
    /// The tag written in front of a line of this level.
    pub fn tag(self) -> (t: &'static str)
        ensures
            self == LogLevel::Trace ==> t@ == "[TRACE] "@,
            self == LogLevel::Debug ==> t@ == "[DEBUG] "@,
            self == LogLevel::Info ==> t@ == "[INFO ] "@,
            self == LogLevel::Warn ==> t@ == "[WARN ] "@,
            self == LogLevel::Error ==> t@ == "[ERROR] "@,
            self == LogLevel::Fatal ==> t@ == "[FATAL] "@,
    {
        match self {
            LogLevel::Trace => "[TRACE] ",
            LogLevel::Debug => "[DEBUG] ",
            LogLevel::Info => "[INFO ] ",
            LogLevel::Warn => "[WARN ] ",
            LogLevel::Error => "[ERROR] ",
            LogLevel::Fatal => "[FATAL] ",
        }
    }
}

} // verus!
