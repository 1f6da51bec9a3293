use vstd::prelude::*;

verus! {

/// Severity of one log record, from most severe to most verbose.
#[derive(Clone, Copy, PartialEq, Eq, Structural, Debug)]
pub enum LogLevel {
    Error,
    Warn,
    Info,
    Debug,
    Trace,
}

/// The process-wide verbosity cap a record is tested against.
#[derive(Clone, Copy, PartialEq, Eq, Structural, Debug)]
pub enum LogFilter {
    Off,
    Error,
    Warn,
    Info,
    Debug,
    Trace,
}

/// Numeric rank of a severity; this is also the wire code the host's
/// structured-log call expects.
pub open spec fn spec_level_code(level: LogLevel) -> u8 {
    match level {
        LogLevel::Error => 1,
        LogLevel::Warn => 2,
        LogLevel::Info => 3,
        LogLevel::Debug => 4,
        LogLevel::Trace => 5,
    }
}

/// Numeric rank of a verbosity cap, on the same scale as the severities,
/// with `Off` below them all.
pub open spec fn spec_filter_code(filter: LogFilter) -> u8 {
    match filter {
        LogFilter::Off => 0,
        LogFilter::Error => 1,
        LogFilter::Warn => 2,
        LogFilter::Info => 3,
        LogFilter::Debug => 4,
        LogFilter::Trace => 5,
    }
}

/// The wire code sent to the host for a record of severity `level`.
pub fn level_code(level: LogLevel) -> (c: u8)
    ensures
        c == spec_level_code(level),
        1 <= c <= 5,
{
    match level {
        LogLevel::Error => 1,
        LogLevel::Warn => 2,
        LogLevel::Info => 3,
        LogLevel::Debug => 4,
        LogLevel::Trace => 5,
    }
}

/// The numeric rank of a verbosity cap.
pub fn filter_code(filter: LogFilter) -> (c: u8)
    ensures
        c == spec_filter_code(filter),
        c <= 5,
{
    match filter {
        LogFilter::Off => 0,
        LogFilter::Error => 1,
        LogFilter::Warn => 2,
        LogFilter::Info => 3,
        LogFilter::Debug => 4,
        LogFilter::Trace => 5,
    }
}

/// Whether a record of severity `level` is emitted under cap `max`: its
/// rank must reach the cap's rank.  This is the exact test the logger
/// applies before formatting a record and handing it to the host.
pub fn level_enabled(level: LogLevel, max: LogFilter) -> (b: bool)
    ensures
        b == (spec_level_code(level) >= spec_filter_code(max)),
{
    level_code(level) >= filter_code(max)
}

} // verus!
