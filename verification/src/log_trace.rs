//! The operation log: a time-ordered record of what the dashboard did,
//! keeping the newest entries up to a fixed number.

use vstd::prelude::*;
use std::collections::VecDeque;
use crate::text::{extend_str, from_chars, to_chars};

verus! {

/// The most entries the log keeps when it records one.
pub const MAX_LOG_ENTRIES: usize = 1000;

/// A JSON value attached to a log entry (`serde_json::Value`), carried
/// through as it is.
#[verifier::external_type_specification]
#[verifier::external_body]
pub struct ExJsonValue(serde_json::Value);

/// One entry of the log.
#[derive(Debug)]
pub struct LogEntry {
    pub timestamp: String,
    pub level: String,
    pub category: String,
    pub message: String,
    pub data: Option<serde_json::Value>,
}

/// A copy of the data of an entry (`Clone` for `Option<serde_json::Value>`,
/// which `serde_json` derives): the copy is the same value.
#[verifier::external_body]
fn copy_data(d: &Option<serde_json::Value>) -> (r: Option<serde_json::Value>)
    ensures
        r == *d,
{
    d.clone()
}

impl Clone for LogEntry {
    fn clone(&self) -> (r: Self)
        ensures
            r == *self,
    {
        LogEntry {
            timestamp: self.timestamp.clone(),
            level: self.level.clone(),
            category: self.category.clone(),
            message: self.message.clone(),
            data: copy_data(&self.data),
        }
    }
}

/// The log of operations, oldest entry first.
pub struct LogTrace {
    logs: VecDeque<LogEntry>,
}

/// The entries after recording `e` in a log with entries `s`: the oldest
/// entry leaves when the log is full.
pub open spec fn after_log(s: Seq<LogEntry>, e: LogEntry) -> Seq<LogEntry> {
    if s.len() >= MAX_LOG_ENTRIES {
        s.drop_first().push(e)
    } else {
        s.push(e)
    }
}

impl LogTrace {
    /// The entries of the log, oldest first.
    pub closed spec fn entries(&self) -> Seq<LogEntry> {
        self.logs@
    }

    /// An empty log.
    pub fn new() -> (r: Self)
        ensures
            r.entries().len() == 0,
    {
        LogTrace { logs: VecDeque::new() }
    }

    /// A log holding `entries` (such as those read back from storage), in
    /// order.
    pub fn from_entries(entries: Vec<LogEntry>) -> (r: Self)
        ensures
            r.entries() == entries@,
    {
        let mut logs: VecDeque<LogEntry> = VecDeque::new();
        let mut entries = entries;
        let ghost all = entries@;
        assert(all.take(all.len() as int) =~= all);
        while entries.len() > 0
            invariant
                entries@ == all.take(entries@.len() as int),
                logs@ == all.skip(entries@.len() as int),
                entries@.len() <= all.len(),
            decreases entries.len(),
        {
            let ghost n = entries@.len();
            let e = entries.pop().unwrap();
            assert(e == all[n - 1]);
            logs.push_front(e);
            assert(entries@ =~= all.take(n - 1));
            assert(logs@ =~= all.skip(n - 1));
        }
        assert(logs@ =~= all);
        LogTrace { logs }
    }

    /// Records an entry made at `timestamp`; when the log is full its
    /// oldest entry leaves.
    pub fn log(
        &mut self,
        timestamp: &str,
        level: &str,
        category: &str,
        message: &str,
        data: Option<serde_json::Value>,
    )
        ensures
            final(self).entries() == after_log(
                old(self).entries(),
                final(self).entries().last(),
            ),
            final(self).entries().last().timestamp@ == timestamp@,
            final(self).entries().last().level@ == level@,
            final(self).entries().last().category@ == category@,
            final(self).entries().last().message@ == message@,
            final(self).entries().last().data == data,
    {
        broadcast use vstd::std_specs::vecdeque::axiom_spec_len;
        let entry = LogEntry {
            timestamp: timestamp.to_owned(),
            level: level.to_owned(),
            category: category.to_owned(),
            message: message.to_owned(),
            data,
        };
        if self.logs.len() >= MAX_LOG_ENTRIES {
            let _ = self.logs.pop_front();
        }
        self.logs.push_back(entry);
    }

    /// Records an informational entry.
    pub fn info(&mut self, timestamp: &str, category: &str, message: &str)
        ensures
            final(self).entries() == after_log(old(self).entries(), final(self).entries().last()),
            final(self).entries().last().level@ == "info"@,
            final(self).entries().last().timestamp@ == timestamp@,
            final(self).entries().last().category@ == category@,
            final(self).entries().last().message@ == message@,
            final(self).entries().last().data is None,
    {
        self.log(timestamp, "info", category, message, None);
    }

    /// Records an informational entry with attached data.
    pub fn info_with_data(
        &mut self,
        timestamp: &str,
        category: &str,
        message: &str,
        data: serde_json::Value,
    )
        ensures
            final(self).entries() == after_log(old(self).entries(), final(self).entries().last()),
            final(self).entries().last().level@ == "info"@,
            final(self).entries().last().timestamp@ == timestamp@,
            final(self).entries().last().category@ == category@,
            final(self).entries().last().message@ == message@,
            final(self).entries().last().data == Some(data),
    {
        self.log(timestamp, "info", category, message, Some(data));
    }

    /// Records a warning.
    pub fn warn(&mut self, timestamp: &str, category: &str, message: &str)
        ensures
            final(self).entries() == after_log(old(self).entries(), final(self).entries().last()),
            final(self).entries().last().level@ == "warn"@,
            final(self).entries().last().timestamp@ == timestamp@,
            final(self).entries().last().category@ == category@,
            final(self).entries().last().message@ == message@,
            final(self).entries().last().data is None,
    {
        self.log(timestamp, "warn", category, message, None);
    }

    /// Records an error.
    pub fn error(&mut self, timestamp: &str, category: &str, message: &str)
        ensures
            final(self).entries() == after_log(old(self).entries(), final(self).entries().last()),
            final(self).entries().last().level@ == "error"@,
            final(self).entries().last().timestamp@ == timestamp@,
            final(self).entries().last().category@ == category@,
            final(self).entries().last().message@ == message@,
            final(self).entries().last().data is None,
    {
        self.log(timestamp, "error", category, message, None);
    }

    /// Records an error with attached data.
    pub fn error_with_data(
        &mut self,
        timestamp: &str,
        category: &str,
        message: &str,
        data: serde_json::Value,
    )
        ensures
            final(self).entries() == after_log(old(self).entries(), final(self).entries().last()),
            final(self).entries().last().level@ == "error"@,
            final(self).entries().last().timestamp@ == timestamp@,
            final(self).entries().last().category@ == category@,
            final(self).entries().last().message@ == message@,
            final(self).entries().last().data == Some(data),
    {
        self.log(timestamp, "error", category, message, Some(data));
    }

    /// Copies of the entries, oldest first.
    pub fn get_logs(&self) -> (r: Vec<LogEntry>)
        ensures
            r@ == self.entries(),
    {
        broadcast use vstd::std_specs::vecdeque::axiom_spec_len;
        let mut r: Vec<LogEntry> = Vec::new();
        let mut i: usize = 0;
        while i < self.logs.len()
            invariant
                i <= self.logs@.len(),
                r@ == self.logs@.take(i as int),
            decreases self.logs@.len() - i,
        {
            r.push(self.logs[i].clone());
            i = i + 1;
            assert(r@ =~= self.logs@.take(i as int));
        }
        assert(self.logs@.take(self.logs@.len() as int) =~= self.logs@);
        r
    }

    /// Removes all entries.
    pub fn clear(&mut self)
        ensures
            final(self).entries().len() == 0,
    {
        self.logs.clear();
    }
}

/// A log never grows past its bound by recording: recording into a log
/// within the bound leaves it within the bound, with the new entry last
/// and the others in their order.
pub proof fn lemma_log_bounded(s: Seq<LogEntry>, e: LogEntry)
    requires
        s.len() <= MAX_LOG_ENTRIES,
    ensures
        after_log(s, e).len() <= MAX_LOG_ENTRIES,
        after_log(s, e).last() == e,
        after_log(s, e).drop_last() == (if s.len() == MAX_LOG_ENTRIES {
            s.drop_first()
        } else {
            s
        }),
{
    if s.len() == MAX_LOG_ENTRIES {
        assert(after_log(s, e).drop_last() =~= s.drop_first());
    } else {
        assert(after_log(s, e).drop_last() =~= s);
    }
}

/// The download file name of the log saved at `timestamp`: `:` and `.`
/// become `-`.
pub open spec fn log_file_name_of(timestamp: Seq<char>) -> Seq<char> {
    "log_trace_"@ + timestamp.map_values(|c: char| if c == ':' || c == '.' { '-' } else { c })
        + ".json"@
}

/// The file name under which the log is downloaded.
pub fn log_file_name(timestamp: &str) -> (r: String)
    ensures
        r@ == log_file_name_of(timestamp@),
{
    let t = to_chars(timestamp);
    let mut out: Vec<char> = Vec::new();
    extend_str(&mut out, "log_trace_");
    let ghost start = out@;
    let mut i: usize = 0;
    while i < t.len()
        invariant
            i <= t.len(),
            out@ == start + t@.take(i as int).map_values(
                |c: char| if c == ':' || c == '.' { '-' } else { c },
            ),
        decreases t.len() - i,
    {
        let c = t[i];
        out.push(if c == ':' || c == '.' { '-' } else { c });
        i = i + 1;
        assert(out@ =~= start + t@.take(i as int).map_values(
            |c: char| if c == ':' || c == '.' { '-' } else { c },
        ));
    }
    assert(t@.take(t.len() as int) =~= t@);
    extend_str(&mut out, ".json");
    from_chars(&out)
}

} // verus!
