//! The host's own log, as the UI reads it: a bounded buffer of entries.
use vstd::prelude::*;

verus! {

/// Most entries the log keeps.
pub const MAX_LOG_ENTRIES: usize = 1000;

pub struct LogEntry {
    pub time: String,
    pub level: String,
    pub source: String,
    pub message: String,
}

/// The entries kept, oldest first.
pub struct LogBuffer {
    pub logs: Vec<LogEntry>,
}

/// The entries after one is logged: the oldest dropped when the buffer is full.
pub open spec fn logged(old: Seq<LogEntry>, e: LogEntry) -> Seq<LogEntry> {
    if old.len() >= MAX_LOG_ENTRIES {
        old.drop_first().push(e)
    } else {
        old.push(e)
    }
}

impl LogBuffer {
    pub open spec fn wf(&self) -> bool {
        self.logs@.len() <= MAX_LOG_ENTRIES
    }

    pub fn new() -> (r: Self)
        ensures
            r.wf(),
            r.logs@.len() == 0,
    {
        LogBuffer { logs: Vec::new() }
    }

    /// Keeps an entry; past the cap the oldest goes.
    pub fn log_message(&mut self, entry: LogEntry)
        requires
            old(self).wf(),
        ensures
            final(self).wf(),
            final(self).logs@ == logged(old(self).logs@, entry),
    {
        if self.logs.len() >= MAX_LOG_ENTRIES {
            self.logs.remove(0);
        }
        self.logs.push(entry);
    }

    pub fn clear_logs(&mut self)
        ensures
            final(self).wf(),
            final(self).logs@.len() == 0,
    {
        self.logs.clear();
    }
}

} // verus!
