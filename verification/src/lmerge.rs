use vstd::prelude::*;

verus! {

// ---------------------------------------------------------------------------
// The log-merging command line.
// ---------------------------------------------------------------------------

/// What the log merger is invoked with.
#[derive(Debug, Clone)]
pub struct Args {
    /// Log files or directories to merge.
    pub paths: Vec<String>,
    /// Do not search directories recursively for log files.
    pub no_recursive: bool,
    /// Log verbosity.
    pub log_level: LogLevel,
}

/// Log verbosity.
#[derive(Debug, Clone, Copy, PartialEq, Eq, Structural)]
pub enum LogLevel {
    Trace,
    Debug,
    Info,
    Warn,
    Error,
    Off,
}

/// The label a verbosity level is written as.
pub open spec fn log_level_label(l: LogLevel) -> Seq<char> {
    match l {
        LogLevel::Trace => "trace"@,
        LogLevel::Debug => "debug"@,
        LogLevel::Info => "info"@,
        LogLevel::Warn => "warn"@,
        LogLevel::Error => "error"@,
        LogLevel::Off => "off"@,
    }
}

impl LogLevel {
    /// The level's lowercase label.
    pub fn label(&self) -> (r: &'static str)
        ensures
            r@ == log_level_label(*self),
    {
        match self {
            LogLevel::Trace => "trace",
            LogLevel::Debug => "debug",
            LogLevel::Info => "info",
            LogLevel::Warn => "warn",
            LogLevel::Error => "error",
            LogLevel::Off => "off",
        }
    }
}

} // verus!
