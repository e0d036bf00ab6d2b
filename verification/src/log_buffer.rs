//! The buffer of log messages shown in the debug console: it keeps the most
//! recent entries and drops the oldest once full.
use vstd::prelude::*;

verus! {

/// Most log entries kept.
pub const MAX_LOG_ENTRIES: usize = 1000;

/// Severity of a log message.
#[derive(Debug, Clone, Copy, PartialEq, Eq, Structural)]
pub enum LogLevel {
    Error,
    Warn,
    Info,
    Debug,
    Trace,
}

/// A captured log message.
#[derive(Debug)]
pub struct LogEntry {
    /// Unix time in milliseconds (UTC)
    pub timestamp: u64,
    pub level: LogLevel,
    pub target: String,
    pub message: String,
}

/// The buffer after `entry` is added: the oldest entry leaves a full buffer.
pub open spec fn pushed(buffer: Seq<LogEntry>, entry: LogEntry) -> Seq<LogEntry> {
    (if buffer.len() >= MAX_LOG_ENTRIES { buffer.skip(1) } else { buffer }).push(entry)
}

/// Adds an entry to the buffer, dropping the oldest where it is full.
pub fn push_entry(buffer: &mut Vec<LogEntry>, entry: LogEntry)
    ensures
        final(buffer)@ == pushed(old(buffer)@, entry),
{
    if buffer.len() >= MAX_LOG_ENTRIES {
        buffer.remove(0);
        assert(buffer@ =~= old(buffer)@.skip(1));
    }
    buffer.push(entry);
}

/// A buffer never holds more than the limit, keeps the newest entry last,
/// and keeps every older entry that still fits, in order.
pub proof fn law_buffer_bounded(buffer: Seq<LogEntry>, entry: LogEntry)
    requires
        buffer.len() <= MAX_LOG_ENTRIES,
    ensures
        pushed(buffer, entry).len() <= MAX_LOG_ENTRIES,
        pushed(buffer, entry).last() == entry,
        buffer.len() < MAX_LOG_ENTRIES ==> pushed(buffer, entry).drop_last() == buffer,
        buffer.len() == MAX_LOG_ENTRIES ==> pushed(buffer, entry).drop_last() == buffer.skip(1),
{
    let p = pushed(buffer, entry);
    assert(p.drop_last() =~= (if buffer.len() >= MAX_LOG_ENTRIES { buffer.skip(1) } else { buffer }));
}

} // verus!
