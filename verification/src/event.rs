use vstd::prelude::*;

verus! {

/// An event recorded by the service: the instant it was recorded, in
/// milliseconds since the Unix epoch (UTC), together with an opaque
/// string payload.
pub struct Event {
    pub timestamp: i64,
    pub payload: String,
}

impl Clone for Event {
    fn clone(&self) -> (r: Self)
        ensures
            r == self,
    {
        Event { timestamp: self.timestamp, payload: self.payload.clone() }
    }
}

/// Events appear in recording order, and timestamps are assigned at
/// recording time, so a well-formed run of events never decreases in time.
pub open spec fn sorted_by_ts(s: Seq<Event>) -> bool {
    forall|i: int, j: int| 0 <= i <= j < s.len() ==> s[i].timestamp <= s[j].timestamp
}

/// Holds of an event recorded at or after `t`.
pub open spec fn since_pred(t: i64) -> spec_fn(Event) -> bool {
    |e: Event| e.timestamp >= t
}

/// The events of `s` at or after `time`, in order; all of them when no
/// lower bound is given.
pub open spec fn events_since_spec(s: Seq<Event>, time: Option<i64>) -> Seq<Event> {
    match time {
        None => s,
        Some(t) => s.filter(since_pred(t)),
    }
}

/// A fixed-capacity, append-only run of events, kept in time order, with
/// the first and last recorded timestamps cached.
pub struct EventQueue {
    start_timestamp: Option<i64>,
    end_timestamp: Option<i64>,
    events: Vec<Event>,
    capacity: usize,
}

impl View for EventQueue {
    type V = Seq<Event>;

    closed spec fn view(&self) -> Seq<Event> {
        self.events@
    }
}

impl EventQueue {
    pub closed spec fn spec_capacity(&self) -> usize {
        self.capacity
    }

    pub closed spec fn spec_start_ts(&self) -> Option<i64> {
        self.start_timestamp
    }

    pub closed spec fn spec_end_ts(&self) -> Option<i64> {
        self.end_timestamp
    }

    /// Internal consistency: the buffer respects its capacity, is time
    /// ordered, and the cached boundary timestamps match the contents.
    pub open spec fn wf(&self) -> bool {
        &&& self@.len() <= self.spec_capacity()
        &&& sorted_by_ts(self@)
        &&& self.spec_start_ts() == (if self@.len() == 0 {
            None::<i64>
        } else {
            Some(self@[0].timestamp)
        })
        &&& self.spec_end_ts() == (if self@.len() == 0 {
            None::<i64>
        } else {
            Some(self@.last().timestamp)
        })
    }

    pub fn new(capacity: usize) -> (q: Self)
        ensures
            q.wf(),
            q@ == Seq::<Event>::empty(),
            q.spec_capacity() == capacity,
    {
        let q = EventQueue {
            start_timestamp: None,
            end_timestamp: None,
            events: Vec::with_capacity(capacity),
            capacity,
        };
        assert(q@ =~= Seq::<Event>::empty());
        q
    }

    /// Appends `event` if there is room; reports whether the append
    /// happened. The event may not be older than what is already recorded.
    pub fn push(&mut self, event: Event) -> (ok: bool)
        requires
            old(self).wf(),
            old(self)@.len() > 0 ==> event.timestamp >= old(self)@.last().timestamp,
        ensures
            final(self).wf(),
            final(self).spec_capacity() == old(self).spec_capacity(),
            ok == (old(self)@.len() < old(self).spec_capacity()),
            ok ==> final(self)@ == old(self)@.push(event),
            !ok ==> final(self)@ == old(self)@,
    {
        if self.events.len() >= self.capacity {
            return false;
        }
        if self.start_timestamp.is_none() {
            self.start_timestamp = Some(event.timestamp);
        }
        self.end_timestamp = Some(event.timestamp);
        let ghost prev = self.events@;
        self.events.push(event);
        assert(self@ =~= prev.push(event));
        assert forall|i: int, j: int| 0 <= i <= j < self@.len() implies self@[i].timestamp
            <= self@[j].timestamp by {
            if j < prev.len() {
            } else {
                assert(self@[j] == event);
            }
        }
        true
    }

    /// Drains the queue, handing back everything it held, oldest first.
    pub fn pop(&mut self) -> (drained: Vec<Event>)
        ensures
            final(self).wf(),
            final(self)@ == Seq::<Event>::empty(),
            final(self).spec_capacity() == old(self).spec_capacity(),
            drained@ == old(self)@,
    {
        self.start_timestamp = None;
        self.end_timestamp = None;
        let mut drained: Vec<Event> = Vec::new();
        std::mem::swap(&mut drained, &mut self.events);
        assert(self@ =~= Seq::<Event>::empty());
        drained
    }

    pub fn is_full(&self) -> (r: bool)
        ensures
            r == (self@.len() >= self.spec_capacity()),
    {
        self.events.len() >= self.capacity
    }

    /// Forgets all recorded events.
    pub fn reset(&mut self)
        ensures
            final(self).wf(),
            final(self)@ == Seq::<Event>::empty(),
            final(self).spec_capacity() == old(self).spec_capacity(),
    {
        self.start_timestamp = None;
        self.end_timestamp = None;
        self.events.clear();
        assert(self@ =~= Seq::<Event>::empty());
    }

    /// True when every recorded event is strictly older than `time`;
    /// an empty queue counts as before everything.
    pub fn is_before(&self, time: i64) -> (r: bool)
        requires
            self.wf(),
        ensures
            r == (self@.len() == 0 || self@.last().timestamp < time),
    {
        match self.end_timestamp {
            Some(end) => end < time,
            None => true,
        }
    }

    /// A copy of the events at or after `time`, oldest first; all of them
    /// when `time` is `None`.
    #[verifier::loop_isolation(false)]
    pub fn get_events(&self, time: Option<i64>) -> (r: Vec<Event>)
        ensures
            r@ == events_since_spec(self@, time),
    {
        match time {
            Some(t) => {
                let ghost pred = since_pred(t);
                let mut r: Vec<Event> = Vec::new();
                let mut i: usize = 0;
                while i < self.events.len()
                    invariant
                        i <= self.events.len(),
                        r@ == self.events@.subrange(0, i as int).filter(pred),
                    decreases self.events.len() - i,
                {
                    let ghost prefix = self.events@.subrange(0, i as int);
                    if self.events[i].timestamp >= t {
                        r.push(self.events[i].clone());
                    }
                    proof {
                        assert(self.events@.subrange(0, i + 1 as int) =~= prefix.push(
                            self.events@[i as int],
                        ));
                        prefix.lemma_filter_push(self.events@[i as int], pred);
                    }
                    i = i + 1;
                }
                proof {
                    assert(self.events@.subrange(0, self.events@.len() as int) =~= self.events@);
                }
                r
            },
            None => {
                let mut r: Vec<Event> = Vec::new();
                let mut i: usize = 0;
                while i < self.events.len()
                    invariant
                        i <= self.events.len(),
                        r@ == self.events@.subrange(0, i as int),
                    decreases self.events.len() - i,
                {
                    r.push(self.events[i].clone());
                    assert(r@ =~= self.events@.subrange(0, i + 1 as int));
                    i = i + 1;
                }
                assert(r@ =~= self.events@);
                r
            },
        }
    }

    pub fn len(&self) -> (n: usize)
        ensures
            n == self@.len(),
    {
        self.events.len()
    }

    pub fn capacity(&self) -> (n: usize)
        ensures
            n == self.spec_capacity(),
    {
        self.capacity
    }

    pub fn start_timestamp(&self) -> (r: Option<i64>)
        ensures
            r == self.spec_start_ts(),
    {
        self.start_timestamp
    }

    pub fn end_timestamp(&self) -> (r: Option<i64>)
        ensures
            r == self.spec_end_ts(),
    {
        self.end_timestamp
    }
}

} // verus!
