use vstd::prelude::*;
use vstd::string::StringExecFns;

verus! {

/// Severity of a log record.
#[derive(Debug, Clone, Copy, PartialEq, Eq)]
pub enum Level {
    Info,
    Warn,
}

/// What a log record reports.
#[derive(Debug, Clone, Copy, PartialEq, Eq)]
pub enum Event {
    /// An item is about to be inserted.
    Inserting,
    /// A lookup found every probe set: the item might be present.
    MightBePresent,
    /// A lookup found a clear probe: the item is definitely absent.
    DefinitelyAbsent,
}

/// An observation of the filter's traffic, for whatever sink the caller
/// uses. Building one never touches a filter.
#[derive(Debug)]
pub struct LogRecord {
    pub level: Level,
    pub event: Event,
    pub item: String,
}

/// The record for the insertion of `item`.
pub fn log_insertion(item: &str) -> (r: LogRecord)
    ensures
        r.level == Level::Info,
        r.event == Event::Inserting,
        r.item@ == item@,
{
    LogRecord { level: Level::Info, event: Event::Inserting, item: String::from_str(item) }
}

/// The record for a lookup of `item` whose answer was `found`: informative
/// when the item might be present, a warning when it is definitely absent.
pub fn log_lookup(item: &str, found: bool) -> (r: LogRecord)
    ensures
        found ==> r.level == Level::Info && r.event == Event::MightBePresent,
        !found ==> r.level == Level::Warn && r.event == Event::DefinitelyAbsent,
        r.item@ == item@,
{
    if found {
        LogRecord { level: Level::Info, event: Event::MightBePresent, item: String::from_str(item) }
    } else {
        LogRecord { level: Level::Warn, event: Event::DefinitelyAbsent, item: String::from_str(item) }
    }
}

} // verus!
