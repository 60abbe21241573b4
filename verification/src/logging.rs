use vstd::prelude::*;
use vstd::string::StringExecFns;

use crate::json::{json_encode_string, json_string_of};
use crate::timeutil::{rfc3339_of, to_rfc3339_millis};

verus! {

/// One structured record of the event log, as it is persisted.
pub struct LogEvent {
    pub timestamp: String,
    pub level: String,
    pub target: String,
    pub message: String,
    pub log_type: String,
}

/// The mathematical shadow of a record: its five texts.
pub struct LogEventV {
    pub timestamp: Seq<char>,
    pub level: Seq<char>,
    pub target: Seq<char>,
    pub message: Seq<char>,
    pub log_type: Seq<char>,
}

impl View for LogEvent {
    type V = LogEventV;

    open spec fn view(&self) -> LogEventV {
        LogEventV {
            timestamp: self.timestamp@,
            level: self.level@,
            target: self.target@,
            message: self.message@,
            log_type: self.log_type@,
        }
    }
}

/// The record the ingest path writes for one event payload: stamped
/// with the recording instant, at INFO level, under the events target.
pub open spec fn spec_log_event(message: Seq<char>, now_ms: i64) -> LogEventV {
    LogEventV {
        timestamp: rfc3339_of(now_ms),
        level: "INFO"@,
        target: "rodan.events"@,
        message: message,
        log_type: "notifications"@,
    }
}

/// Builds the log record for one event payload recorded at `now_ms`.
pub fn log_event(message: String, now_ms: i64) -> (r: LogEvent)
    ensures
        r@ == spec_log_event(message@, now_ms),
{
    LogEvent {
        timestamp: to_rfc3339_millis(now_ms),
        level: "INFO".to_owned(),
        target: "rodan.events".to_owned(),
        message,
        log_type: "notifications".to_owned(),
    }
}

/// The single JSON line that serialising a record produces: one object,
/// fields in declaration order, string values encoded as serde_json
/// encodes them.
pub open spec fn log_line_of(r: LogEventV) -> Seq<char> {
    "{\"timestamp\":"@ + json_string_of(r.timestamp) + ",\"level\":"@ + json_string_of(r.level)
        + ",\"target\":"@ + json_string_of(r.target) + ",\"message\":"@ + json_string_of(r.message)
        + ",\"type\":"@ + json_string_of(r.log_type) + "}"@
}

/// Serialises one record as its JSON line, without the trailing newline.
pub fn log_line(r: &LogEvent) -> (s: String)
    ensures
        s@ == log_line_of(r@),
{
    let mut s = String::new();
    s.append("{\"timestamp\":");
    s.append(json_encode_string(r.timestamp.as_str()).as_str());
    s.append(",\"level\":");
    s.append(json_encode_string(r.level.as_str()).as_str());
    s.append(",\"target\":");
    s.append(json_encode_string(r.target.as_str()).as_str());
    s.append(",\"message\":");
    s.append(json_encode_string(r.message.as_str()).as_str());
    s.append(",\"type\":");
    s.append(json_encode_string(r.log_type.as_str()).as_str());
    s.append("}");
    s
}

/// The text a batch of records is written as: each record's JSON line
/// followed by a newline, in order.
pub open spec fn batch_lines_of(records: Seq<LogEventV>) -> Seq<char>
    decreases records.len(),
{
    if records.len() == 0 {
        Seq::empty()
    } else {
        batch_lines_of(records.drop_last()) + log_line_of(records.last()) + "\n"@
    }
}

/// Writing the lines of two batches one after the other writes the
/// lines of their concatenation.
pub proof fn lemma_batch_lines_concat(a: Seq<LogEventV>, b: Seq<LogEventV>)
    ensures
        batch_lines_of(a + b) == batch_lines_of(a) + batch_lines_of(b),
    decreases b.len(),
{
    if b.len() == 0 {
        assert(a + b =~= a);
        assert(batch_lines_of(b) == Seq::<char>::empty());
        assert(batch_lines_of(a) + Seq::<char>::empty() =~= batch_lines_of(a));
    } else {
        lemma_batch_lines_concat(a, b.drop_last());
        assert((a + b).drop_last() =~= a + b.drop_last());
        assert((a + b).last() == b.last());
        assert(batch_lines_of(a + b) == batch_lines_of(a) + batch_lines_of(b.drop_last())
            + log_line_of(b.last()) + "\n"@);
        assert(batch_lines_of(a) + batch_lines_of(b.drop_last()) + log_line_of(b.last()) + "\n"@
            =~= batch_lines_of(a) + (batch_lines_of(b.drop_last()) + log_line_of(b.last())
            + "\n"@));
    }
}

/// An in-memory batch of records awaiting a flush to the event log.
pub struct Log {
    events: Vec<LogEvent>,
}

impl View for Log {
    type V = Seq<LogEventV>;

    closed spec fn view(&self) -> Seq<LogEventV> {
        self.events@.map_values(|e: LogEvent| e@)
    }
}

impl Log {
    pub fn new() -> (r: Self)
        ensures
            r@ == Seq::<LogEventV>::empty(),
    {
        let r = Log { events: Vec::new() };
        assert(r@ =~= Seq::<LogEventV>::empty());
        r
    }

    /// Queues the record for one event payload recorded at `now_ms`.
    pub fn add_event(&mut self, message: String, now_ms: i64)
        ensures
            final(self)@ == old(self)@.push(spec_log_event(message@, now_ms)),
    {
        let ghost pre = self.events@;
        let ev = log_event(message, now_ms);
        self.events.push(ev);
        assert(self@ =~= pre.map_values(|e: LogEvent| e@).push(ev@));
    }

    pub fn len(&self) -> (n: usize)
        ensures
            n == self@.len(),
    {
        self.events.len()
    }

    /// The queued messages, in queue order.
    #[verifier::loop_isolation(false)]
    pub fn messages(&self) -> (r: Vec<String>)
        ensures
            r@.len() == self@.len(),
            forall|i: int| 0 <= i < self@.len() ==> (#[trigger] r@[i])@ == self@[i].message,
    {
        let mut r: Vec<String> = Vec::new();
        let mut i: usize = 0;
        while i < self.events.len()
            invariant
                i <= self.events.len(),
                r@.len() == i,
                forall|j: int| 0 <= j < i ==> (#[trigger] r@[j])@ == self@[j].message,
            decreases self.events.len() - i,
        {
            r.push(self.events[i].message.clone());
            i = i + 1;
        }
        r
    }

    /// Drains the batch and hands back the text to append to the log
    /// file: every queued record as a JSON line, in queue order. An
    /// empty batch yields nothing, so no write happens for it.
    #[verifier::loop_isolation(false)]
    pub fn serialize_events(&mut self) -> (r: Option<String>)
        ensures
            final(self)@ == Seq::<LogEventV>::empty(),
            old(self)@.len() == 0 ==> r is None,
            old(self)@.len() > 0 ==> (r matches Some(s) && s@ == batch_lines_of(old(self)@)),
    {
        let ghost pre = self@;
        if self.events.len() == 0 {
            assert(self@ =~= Seq::<LogEventV>::empty());
            return None;
        }
        let mut s = String::new();
        let mut i: usize = 0;
        while i < self.events.len()
            invariant
                i <= self.events.len(),
                self@ == pre,
                s@ == batch_lines_of(pre.subrange(0, i as int)),
            decreases self.events.len() - i,
        {
            let line = log_line(&self.events[i]);
            s.append(line.as_str());
            s.append("\n");
            proof {
                let ext = pre.subrange(0, i + 1 as int);
                assert(ext =~= pre.subrange(0, i as int).push(pre[i as int]));
                assert(ext.drop_last() =~= pre.subrange(0, i as int));
                assert(self.events@[i as int]@ == pre[i as int]);
                assert(s@ =~= batch_lines_of(ext));
            }
            i = i + 1;
        }
        assert(pre.subrange(0, pre.len() as int) =~= pre);
        self.events.clear();
        assert(self@ =~= Seq::<LogEventV>::empty());
        Some(s)
    }
}

} // verus!
