use vstd::prelude::*;
use vstd::string::StringExecFns;

use crate::logging::{
    batch_lines_of, lemma_batch_lines_concat, log_line, log_line_of, LogEvent, LogEventV,
};

verus! {

/// A two-slot buffer of log records. An enqueue that finds the primary
/// slot free goes there; one that finds it contended falls back to the
/// secondary slot. Either way the record is kept: nothing is dropped
/// short of an I/O failure downstream.
pub struct LogBuffer {
    primary: Vec<LogEvent>,
    secondary: Vec<LogEvent>,
}

impl LogBuffer {
    pub closed spec fn spec_primary(&self) -> Seq<LogEventV> {
        self.primary@.map_values(|e: LogEvent| e@)
    }

    pub closed spec fn spec_secondary(&self) -> Seq<LogEventV> {
        self.secondary@.map_values(|e: LogEvent| e@)
    }

    /// Every record the buffer holds: primary slot first, then the
    /// overflow of the secondary slot, each in enqueue order.
    pub open spec fn spec_records(&self) -> Seq<LogEventV> {
        self.spec_primary() + self.spec_secondary()
    }

    pub fn new() -> (r: Self)
        ensures
            r.spec_primary() == Seq::<LogEventV>::empty(),
            r.spec_secondary() == Seq::<LogEventV>::empty(),
    {
        let r = LogBuffer { primary: Vec::new(), secondary: Vec::new() };
        assert(r.spec_primary() =~= Seq::<LogEventV>::empty());
        assert(r.spec_secondary() =~= Seq::<LogEventV>::empty());
        r
    }

    pub fn primary_len(&self) -> (n: usize)
        ensures
            n == self.spec_primary().len(),
    {
        self.primary.len()
    }

    pub fn secondary_len(&self) -> (n: usize)
        ensures
            n == self.spec_secondary().len(),
    {
        self.secondary.len()
    }

    /// Queues `event`, into the primary slot when it is free, else into
    /// the secondary slot; no record is ever lost or reordered within
    /// its slot.
    pub fn push_to_batch(&mut self, event: LogEvent, primary_free: bool)
        ensures
            primary_free ==> final(self).spec_primary() == old(self).spec_primary().push(event@)
                && final(self).spec_secondary() == old(self).spec_secondary(),
            !primary_free ==> final(self).spec_secondary() == old(self).spec_secondary().push(
                event@,
            ) && final(self).spec_primary() == old(self).spec_primary(),
    {
        if primary_free {
            let ghost pre = self.primary@;
            self.primary.push(event);
            assert(self.spec_primary() =~= pre.map_values(|e: LogEvent| e@).push(event@));
        } else {
            let ghost pre = self.secondary@;
            self.secondary.push(event);
            assert(self.spec_secondary() =~= pre.map_values(|e: LogEvent| e@).push(event@));
        }
    }

    /// Drains what can be drained and hands back the text to append to
    /// the log file: each drained record as a JSON line, primary slot
    /// first, then secondary, in enqueue order. The primary slot is
    /// left alone when it is contended; an empty drain yields nothing,
    /// so no write happens for it.
    #[verifier::loop_isolation(false)]
    pub fn drain_batch(&mut self, primary_free: bool) -> (r: Option<String>)
        ensures
            final(self).spec_secondary() == Seq::<LogEventV>::empty(),
            primary_free ==> final(self).spec_primary() == Seq::<LogEventV>::empty(),
            !primary_free ==> final(self).spec_primary() == old(self).spec_primary(),
            ({
                let drained = if primary_free {
                    old(self).spec_primary() + old(self).spec_secondary()
                } else {
                    old(self).spec_secondary()
                };
                &&& drained.len() == 0 ==> r is None
                &&& drained.len() > 0 ==> (r matches Some(s) && s@ == batch_lines_of(drained))
            }),
    {
        let mut s = String::new();
        let ghost prim = self.spec_primary();
        let ghost sec = self.spec_secondary();
        if primary_free {
            let n = self.primary.len();
            let mut i: usize = 0;
            while i < n
                invariant
                    i <= n,
                    n == self.primary.len(),
                    *self == *old(self),
                    s@ == batch_lines_of(prim.subrange(0, i as int)),
                decreases n - i,
            {
                let line = log_line(&self.primary[i]);
                s.append(line.as_str());
                s.append("\n");
                proof {
                    let ext = prim.subrange(0, i + 1 as int);
                    assert(ext =~= prim.subrange(0, i as int).push(prim[i as int]));
                    assert(ext.drop_last() =~= prim.subrange(0, i as int));
                    assert(self.primary@[i as int]@ == prim[i as int]);
                    assert(s@ =~= batch_lines_of(ext));
                }
                i = i + 1;
            }
            assert(prim.subrange(0, prim.len() as int) =~= prim);
            self.primary.clear();
            assert(self.spec_primary() =~= Seq::<LogEventV>::empty());
        }
        let ghost mid = s@;
        let ghost head = if primary_free {
            prim
        } else {
            Seq::<LogEventV>::empty()
        };
        assert(mid == batch_lines_of(head));
        let n2 = self.secondary.len();
        let mut j: usize = 0;
        while j < n2
            invariant
                j <= n2,
                n2 == self.secondary.len(),
                self.spec_secondary() == sec,
                s@ == batch_lines_of(head) + batch_lines_of(sec.subrange(0, j as int)),
            decreases n2 - j,
        {
            let line = log_line(&self.secondary[j]);
            s.append(line.as_str());
            s.append("\n");
            proof {
                let ext = sec.subrange(0, j + 1 as int);
                assert(ext =~= sec.subrange(0, j as int).push(sec[j as int]));
                assert(ext.drop_last() =~= sec.subrange(0, j as int));
                assert(self.secondary@[j as int]@ == sec[j as int]);
                assert(s@ =~= batch_lines_of(head) + batch_lines_of(ext));
            }
            j = j + 1;
        }
        assert(sec.subrange(0, sec.len() as int) =~= sec);
        self.secondary.clear();
        assert(self.spec_secondary() =~= Seq::<LogEventV>::empty());
        proof {
            lemma_batch_lines_concat(head, sec);
        }
        let ghost drained = head + sec;
        if s.as_str().is_empty() {
            proof {
                if drained.len() > 0 {
                    lemma_batch_lines_nonempty(drained);
                }
            }
            None
        } else {
            proof {
                if drained.len() == 0 {
                    assert(drained =~= Seq::<LogEventV>::empty());
                    assert(batch_lines_of(drained) == Seq::<char>::empty());
                }
            }
            Some(s)
        }
    }
}

/// A non-empty batch serialises to non-empty text: its last line ends
/// with a newline.
proof fn lemma_batch_lines_nonempty(records: Seq<LogEventV>)
    requires
        records.len() > 0,
    ensures
        batch_lines_of(records).len() > 0,
{
    reveal_strlit("\n");
    assert(batch_lines_of(records) == batch_lines_of(records.drop_last()) + log_line_of(
        records.last(),
    ) + "\n"@);
}

} // verus!
