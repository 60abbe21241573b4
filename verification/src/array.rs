use vstd::prelude::*;

use std::collections::VecDeque;

use crate::event::{events_since_spec, since_pred, sorted_by_ts, Event, EventQueue};

verus! {

/// The shape the store keeps its segments in: every segment holds at
/// least one event, every segment is time ordered, and consecutive
/// segments do not overlap in time.
pub open spec fn store_ordered(v: Seq<Seq<Event>>) -> bool {
    &&& forall|i: int| 0 <= i < v.len() ==> (#[trigger] v[i]).len() > 0
    &&& forall|i: int| 0 <= i < v.len() ==> sorted_by_ts(#[trigger] v[i])
    &&& forall|i: int|
        0 <= i < v.len() - 1 ==> (#[trigger] v[i]).last().timestamp <= v[i + 1].first().timestamp
}

/// Every event recorded anywhere in `v` is at or before `t`.
pub open spec fn all_at_or_before(v: Seq<Seq<Event>>, t: i64) -> bool {
    forall|i: int, j: int|
        0 <= i < v.len() && 0 <= j < v[i].len() ==> (#[trigger] v[i][j]).timestamp <= t
}

/// True when every event of the segment is strictly older than `t`; an
/// empty segment counts as before everything.
pub open spec fn seg_is_before(s: Seq<Event>, t: i64) -> bool {
    s.len() == 0 || s.last().timestamp < t
}

/// One append step, seen abstractly: extend the open tail segment if it
/// has room, otherwise start a new segment, evicting the oldest whole
/// segment when the store is at its segment bound.
pub open spec fn spec_append(segs: Seq<Seq<Event>>, e: Event, cap: int, max: int) -> Seq<
    Seq<Event>,
> {
    if segs.len() > 0 && segs.last().len() < cap {
        segs.update(segs.len() - 1, segs.last().push(e))
    } else if segs.len() < max {
        segs.push(seq![e])
    } else {
        segs.subrange(1, segs.len() as int).push(seq![e])
    }
}

/// A bounded ring of time-ordered segments: appends fill the newest
/// segment, retention evicts the oldest whole segment, and range queries
/// skip segments that end before the bound.
pub struct EventArray {
    segments: VecDeque<EventQueue>,
    segment_capacity: usize,
    max_segments: usize,
}

impl View for EventArray {
    type V = Seq<Seq<Event>>;

    closed spec fn view(&self) -> Seq<Seq<Event>> {
        self.segments@.map_values(|q: EventQueue| q@)
    }
}

impl EventArray {
    pub closed spec fn spec_segment_capacity(&self) -> usize {
        self.segment_capacity
    }

    pub closed spec fn spec_max_segments(&self) -> usize {
        self.max_segments
    }

    pub closed spec fn wf(&self) -> bool {
        &&& 1 <= self.segment_capacity
        &&& 1 <= self.max_segments
        &&& self.segments@.len() <= self.max_segments
        &&& forall|i: int| 0 <= i < self.segments@.len() ==> (#[trigger] self.segments@[i]).wf()
        &&& forall|i: int|
            0 <= i < self.segments@.len() ==> (#[trigger] self.segments@[i]).spec_capacity()
                == self.segment_capacity
        &&& forall|i: int| 0 <= i < self.segments@.len() ==> (#[trigger] self.segments@[i])@.len() > 0
        &&& forall|i: int|
            0 <= i < self.segments@.len() - 1 ==> (#[trigger] self.segments@[i])@.last().timestamp
                <= self.segments@[i + 1]@.first().timestamp
    }

    /// The store never holds more than its segment bound, no segment
    /// exceeds the per-segment capacity, and the contents are ordered.
    pub proof fn lemma_wf_properties(&self)
        requires
            self.wf(),
        ensures
            store_ordered(self@),
            self@.len() <= self.spec_max_segments(),
            forall|i: int|
                0 <= i < self@.len() ==> (#[trigger] self@[i]).len()
                    <= self.spec_segment_capacity(),
            1 <= self.spec_segment_capacity(),
            1 <= self.spec_max_segments(),
    {
        assert forall|i: int| 0 <= i < self@.len() implies (#[trigger] self@[i]).len()
            <= self.spec_segment_capacity() by {
            assert(self@[i] == self.segments@[i]@);
        }
        assert forall|i: int| 0 <= i < self@.len() implies (#[trigger] self@[i]).len() > 0 by {
            assert(self@[i] == self.segments@[i]@);
        }
        assert forall|i: int| 0 <= i < self@.len() implies sorted_by_ts(#[trigger] self@[i]) by {
            assert(self@[i] == self.segments@[i]@);
        }
        assert forall|i: int| 0 <= i < self@.len() - 1 implies (#[trigger] self@[i]).last().timestamp
            <= self@[i + 1].first().timestamp by {
            assert(self@[i] == self.segments@[i]@);
            assert(self@[i + 1] == self.segments@[i + 1]@);
        }
    }

    pub fn new(segment_capacity: usize, max_segments: usize) -> (a: Self)
        requires
            1 <= segment_capacity,
            1 <= max_segments,
        ensures
            a.wf(),
            a@ == Seq::<Seq<Event>>::empty(),
            a.spec_segment_capacity() == segment_capacity,
            a.spec_max_segments() == max_segments,
    {
        let a = EventArray {
            segments: VecDeque::with_capacity(max_segments),
            segment_capacity,
            max_segments,
        };
        assert(a@ =~= Seq::<Seq<Event>>::empty());
        a
    }

    /// Records `event` at the tail of the store. The event may not be
    /// older than anything already recorded; when the store is full, the
    /// oldest whole segment is evicted to make room.
    pub fn append(&mut self, event: Event)
        requires
            old(self).wf(),
            all_at_or_before(old(self)@, event.timestamp),
        ensures
            final(self).wf(),
            final(self).spec_segment_capacity() == old(self).spec_segment_capacity(),
            final(self).spec_max_segments() == old(self).spec_max_segments(),
            final(self)@ == spec_append(
                old(self)@,
                event,
                old(self).spec_segment_capacity() as int,
                old(self).spec_max_segments() as int,
            ),
            all_at_or_before(final(self)@, event.timestamp),
    {
        let ghost v0 = self@;
        let ghost segs0 = self.segments@;
        if self.segments.len() > 0 {
            let n = self.segments.len();
            let mut last_seg = self.segments.pop_back().unwrap();
            assert(last_seg == segs0[n - 1]);
            assert(last_seg@ == v0[n - 1]);
            if !last_seg.is_full() {
                proof {
                    if last_seg@.len() > 0 {
                        assert(v0[n - 1][last_seg@.len() - 1].timestamp <= event.timestamp);
                    }
                }
                let ok = last_seg.push(event);
                assert(ok);
                self.segments.push_back(last_seg);
                proof {
                    assert(self.segments@ =~= segs0.update(n - 1 as int, last_seg));
                    assert(self@ =~= v0.update(n - 1 as int, v0.last().push(event)));
                    assert forall|i: int|
                        0 <= i < self.segments@.len() - 1 implies (
                    #[trigger] self.segments@[i])@.last().timestamp
                        <= self.segments@[i + 1]@.first().timestamp by {
                        if i + 1 == n - 1 {
                            assert(self.segments@[i + 1]@.first() == v0[n - 1].first());
                        }
                    }
                    assert(spec_append(
                        v0,
                        event,
                        self.segment_capacity as int,
                        self.max_segments as int,
                    ) == v0.update(n - 1 as int, v0.last().push(event)));
                    assert forall|i: int, j: int|
                        0 <= i < self@.len() && 0 <= j < self@[i].len() implies (
                    #[trigger] self@[i][j]).timestamp <= event.timestamp by {
                        if i == n - 1 && j == self@[i].len() - 1 {
                        } else {
                            assert(self@[i][j] == v0[i][j]);
                        }
                    }
                }
                return;
            }
            self.segments.push_back(last_seg);
            assert(self.segments@ =~= segs0);
            assert(self@ =~= v0);
        }
        if self.segments.len() < self.max_segments {
            let mut seg = EventQueue::new(self.segment_capacity);
            let ok = seg.push(event);
            assert(ok);
            assert(seg@ =~= Seq::<Event>::empty().push(event));
            self.segments.push_back(seg);
            proof {
                assert(self@ =~= v0.push(seq![event]));
                assert(seq![event].first() == event);
                assert(spec_append(
                    v0,
                    event,
                    self.segment_capacity as int,
                    self.max_segments as int,
                ) == v0.push(seq![event]));
                let n0 = v0.len() as int;
                assert forall|i: int|
                    0 <= i < self.segments@.len() - 1 implies (
                #[trigger] self.segments@[i])@.last().timestamp
                    <= self.segments@[i + 1]@.first().timestamp by {
                    if i == n0 - 1 {
                        let s = v0[i];
                        assert(s[s.len() - 1].timestamp <= event.timestamp);
                    }
                }
                assert forall|i: int, j: int|
                    0 <= i < self@.len() && 0 <= j < self@[i].len() implies (
                #[trigger] self@[i][j]).timestamp <= event.timestamp by {
                    if i < n0 {
                        assert(self@[i][j] == v0[i][j]);
                    }
                }
            }
        } else {
            let mut front = self.segments.pop_front().unwrap();
            front.reset();
            let ok = front.push(event);
            assert(ok);
            assert(front@ =~= Seq::<Event>::empty().push(event));
            self.segments.push_back(front);
            proof {
                assert(self@ =~= v0.subrange(1, v0.len() as int).push(seq![event]));
                assert(seq![event].first() == event);
                assert(spec_append(
                    v0,
                    event,
                    self.segment_capacity as int,
                    self.max_segments as int,
                ) == v0.subrange(1, v0.len() as int).push(seq![event]));
                let m = self.segments@.len() as int;
                assert forall|i: int|
                    0 <= i < m - 1 implies (#[trigger] self.segments@[i])@.last().timestamp
                    <= self.segments@[i + 1]@.first().timestamp by {
                    if i + 1 == m - 1 {
                        let s = self.segments@[i]@;
                        assert(s == v0[i + 1]);
                        assert(s[s.len() - 1].timestamp <= event.timestamp);
                    } else {
                        assert(self.segments@[i] == segs0[i + 1]);
                        assert(self.segments@[i + 1] == segs0[i + 2]);
                    }
                }
                assert forall|i: int, j: int|
                    0 <= i < self@.len() && 0 <= j < self@[i].len() implies (
                #[trigger] self@[i][j]).timestamp <= event.timestamp by {
                    if i < m - 1 {
                        assert(self@[i][j] == v0[i + 1][j]);
                    }
                }
            }
        }
    }

    /// Every event the store currently retains, oldest first.
    #[verifier::loop_isolation(false)]
    pub fn query_all(&self) -> (r: Vec<Event>)
        requires
            self.wf(),
        ensures
            r@ == self@.flatten(),
    {
        let mut results: Vec<Event> = Vec::new();
        let mut i: usize = 0;
        while i < self.segments.len()
            invariant
                i <= self.segments.len(),
                results@ == self@.subrange(0, i as int).flatten(),
            decreases self.segments.len() - i,
        {
            let mut evs = self.segments[i].get_events(None);
            proof {
                assert(self@.subrange(0, i + 1 as int) =~= self@.subrange(0, i as int).push(
                    self@[i as int],
                ));
                self@.subrange(0, i as int).lemma_flatten_push(self@[i as int]);
            }
            results.append(&mut evs);
            i = i + 1;
        }
        assert(self@.subrange(0, self@.len() as int) =~= self@);
        results
    }

    /// Drops every retained event and every segment.
    pub fn flush_all(&mut self)
        requires
            old(self).wf(),
        ensures
            final(self).wf(),
            final(self)@ == Seq::<Seq<Event>>::empty(),
            final(self).spec_segment_capacity() == old(self).spec_segment_capacity(),
            final(self).spec_max_segments() == old(self).spec_max_segments(),
    {
        self.segments.clear();
        assert(self@ =~= Seq::<Seq<Event>>::empty());
    }

    pub fn segment_count(&self) -> (n: usize)
        ensures
            n == self@.len(),
    {
        self.segments.len()
    }

    /// The timestamp of the newest retained event, if any; everything in
    /// the store is at or before it.
    pub fn last_timestamp(&self) -> (r: Option<i64>)
        requires
            self.wf(),
        ensures
            match r {
                None => self@.len() == 0,
                Some(t) => self@.len() > 0 && t == self@.last().last().timestamp
                    && all_at_or_before(self@, t),
            },
    {
        let n = self.segments.len();
        if n == 0 {
            return None;
        }
        let r = self.segments[n - 1].end_timestamp();
        proof {
            self.lemma_wf_properties();
            assert(self@[n - 1] == self.segments@[n - 1]@);
            assert(self@[n - 1].len() > 0);
            let t = self@.last().last().timestamp;
            assert forall|i: int, j: int|
                0 <= i < self@.len() && 0 <= j < self@[i].len() implies (
            #[trigger] self@[i][j]).timestamp <= t by {
                assert(self@[i][j].timestamp <= self@[i].last().timestamp);
                if i < self@.len() - 1 {
                    lemma_store_chain(self@, i, self@.len() - 1);
                    assert(self@[i].last().timestamp <= self@.last().first().timestamp);
                    assert(self@.last().first().timestamp <= t);
                }
            }
        }
        r
    }
}

impl EventArray {
    /// The retained events recorded at or after `since`, oldest first.
    /// Whole segments that end before `since` are skipped by binary
    /// search; the rest are filtered.
    #[verifier::loop_isolation(false)]
    pub fn query_since(&self, since: i64) -> (r: Vec<Event>)
        requires
            self.wf(),
        ensures
            r@ == self@.flatten().filter(since_pred(since)),
    {
        let ghost pred = since_pred(since);
        proof {
            self.lemma_wf_properties();
        }
        let mut results: Vec<Event> = Vec::new();
        if self.segments.len() == 0 {
            proof {
                assert(self@ =~= Seq::<Seq<Event>>::empty());
                assert(self@.flatten() =~= Seq::<Event>::empty());
                Seq::<Event>::empty().lemma_all_neg_filter_empty(pred);
                assert(self@.flatten().filter(pred) =~= results@);
            }
            return results;
        }
        let mut lo: usize = 0;
        let mut hi: usize = self.segments.len();
        while lo < hi
            invariant
                lo <= hi <= self.segments.len(),
                forall|i: int| 0 <= i < lo ==> seg_is_before(#[trigger] self@[i], since),
                forall|i: int| hi <= i < self@.len() ==> !seg_is_before(#[trigger] self@[i], since),
            decreases hi - lo,
        {
            let mid = lo + (hi - lo) / 2;
            if self.segments[mid].is_before(since) {
                proof {
                    assert forall|i: int| 0 <= i < mid + 1 implies seg_is_before(
                        #[trigger] self@[i],
                        since,
                    ) by {
                        if i < mid {
                            lemma_store_chain(self@, i, mid as int);
                            assert(self@[mid as int].first().timestamp
                                <= self@[mid as int].last().timestamp);
                        }
                    }
                }
                lo = mid + 1;
            } else {
                proof {
                    assert forall|i: int| mid <= i < self@.len() implies !seg_is_before(
                        #[trigger] self@[i],
                        since,
                    ) by {
                        if i > mid {
                            lemma_store_chain(self@, mid as int, i);
                            assert(self@[i].first().timestamp <= self@[i].last().timestamp);
                        }
                    }
                }
                hi = mid;
            }
        }
        let start = lo;
        proof {
            assert forall|i: int| 0 <= i < start implies (#[trigger] self@[i]).filter(pred).len()
                == 0 by {
                let negp = |x: Event| !pred(x);
                assert forall|j: int| 0 <= j < self@[i].len() implies #[trigger] negp(
                    self@[i][j],
                ) by {
                    assert(self@[i][j].timestamp <= self@[i].last().timestamp);
                }
                self@[i].lemma_all_neg_filter_empty(pred);
            }
            lemma_prefix_filter_empty(self@, pred, start as int);
            assert(results@ =~= self@.subrange(0, start as int).flatten().filter(pred));
        }
        let mut i = start;
        while i < self.segments.len()
            invariant
                start <= i <= self.segments.len(),
                results@ == self@.subrange(0, i as int).flatten().filter(pred),
            decreases self.segments.len() - i,
        {
            let mut evs = self.segments[i].get_events(Some(since));
            proof {
                assert(evs@ == self@[i as int].filter(pred));
                assert(self@.subrange(0, i + 1 as int) =~= self@.subrange(0, i as int).push(
                    self@[i as int],
                ));
                self@.subrange(0, i as int).lemma_flatten_push(self@[i as int]);
                Seq::<Event>::filter_distributes_over_add(
                    self@.subrange(0, i as int).flatten(),
                    self@[i as int],
                    pred,
                );
            }
            results.append(&mut evs);
            i = i + 1;
        }
        assert(self@.subrange(0, self@.len() as int) =~= self@);
        results
    }
}

/// If every segment among the first `k` filters to nothing, the filtered
/// flattening of those segments is empty too.
proof fn lemma_prefix_filter_empty(v: Seq<Seq<Event>>, pred: spec_fn(Event) -> bool, k: int)
    requires
        0 <= k <= v.len(),
        forall|i: int| 0 <= i < k ==> (#[trigger] v[i]).filter(pred).len() == 0,
    ensures
        v.subrange(0, k).flatten().filter(pred).len() == 0,
    decreases k,
{
    if k == 0 {
        assert(v.subrange(0, 0) =~= Seq::<Seq<Event>>::empty());
        Seq::<Event>::empty().lemma_all_neg_filter_empty(pred);
    } else {
        lemma_prefix_filter_empty(v, pred, k - 1);
        assert(v.subrange(0, k) =~= v.subrange(0, k - 1).push(v[k - 1]));
        v.subrange(0, k - 1).lemma_flatten_push(v[k - 1]);
        Seq::<Event>::filter_distributes_over_add(v.subrange(0, k - 1).flatten(), v[k - 1], pred);
    }
}

/// Filtering keeps a time-ordered run of events time ordered.
pub proof fn lemma_filter_preserves_sorted(s: Seq<Event>, pred: spec_fn(Event) -> bool)
    requires
        sorted_by_ts(s),
    ensures
        sorted_by_ts(s.filter(pred)),
    decreases s.len(),
{
    reveal(Seq::filter);
    if s.len() == 0 {
    } else {
        let rest = s.drop_last();
        assert(sorted_by_ts(rest));
        lemma_filter_preserves_sorted(rest, pred);
        let fr = rest.filter(pred);
        if pred(s.last()) {
            assert(s.filter(pred) == fr.push(s.last()));
            assert forall|i: int, j: int|
                0 <= i <= j < fr.push(s.last()).len() implies fr.push(s.last())[i].timestamp
                <= fr.push(s.last())[j].timestamp by {
                if j < fr.len() {
                } else if i < fr.len() {
                    rest.lemma_filter_contains_rev(pred, fr[i]);
                    let k = choose|k: int| 0 <= k < rest.len() && rest[k] == fr[i];
                    assert(rest[k].timestamp <= s.last().timestamp);
                }
            }
        }
    }
}

/// A well-shaped store flattens to a time-ordered run whose events are
/// all at or before the last event of the last segment.
pub proof fn lemma_store_flatten_sorted(v: Seq<Seq<Event>>)
    requires
        store_ordered(v),
    ensures
        sorted_by_ts(v.flatten()),
        v.len() > 0 ==> forall|k: int|
            0 <= k < v.flatten().len() ==> (#[trigger] v.flatten()[k]).timestamp
                <= v.last().last().timestamp,
    decreases v.len(),
{
    if v.len() == 0 {
    } else {
        let w = v.drop_last();
        assert(store_ordered(w));
        lemma_store_flatten_sorted(w);
        w.lemma_flatten_push(v.last());
        assert(w.push(v.last()) =~= v);
        let f = v.flatten();
        let fw = w.flatten();
        assert(f == fw + v.last());
        assert forall|k: int| 0 <= k < f.len() implies (#[trigger] f[k]).timestamp
            <= v.last().last().timestamp by {
            if k < fw.len() {
                if w.len() > 0 {
                    assert(fw[k].timestamp <= w.last().last().timestamp);
                    lemma_store_chain(v, v.len() - 2, v.len() - 1);
                    assert(v.last().first().timestamp <= v.last().last().timestamp);
                }
            } else {
                assert(f[k] == v.last()[k - fw.len()]);
                assert(f[k].timestamp <= v.last().last().timestamp);
            }
        }
        assert forall|i: int, j: int| 0 <= i <= j < f.len() implies f[i].timestamp
            <= f[j].timestamp by {
            if j < fw.len() {
            } else if i < fw.len() {
                if w.len() > 0 {
                    assert(fw[i].timestamp <= w.last().last().timestamp);
                    lemma_store_chain(v, v.len() - 2, v.len() - 1);
                    assert(v.last()[0].timestamp <= v.last()[j - fw.len()].timestamp);
                }
            } else {
                assert(f[i] == v.last()[i - fw.len()]);
                assert(f[j] == v.last()[j - fw.len()]);
            }
        }
    }
}

/// For any bound `t`, the ranged query is exactly the full query
/// restricted to events at or after `t`, and it is time ordered.
pub proof fn lemma_query_since_is_filtered_query_all(v: Seq<Seq<Event>>, t: i64)
    requires
        store_ordered(v),
    ensures
        v.flatten().filter(since_pred(t)) == events_since_spec(v.flatten(), Some(t)),
        sorted_by_ts(v.flatten().filter(since_pred(t))),
{
    lemma_store_flatten_sorted(v);
    lemma_filter_preserves_sorted(v.flatten(), since_pred(t));
}

/// A flushed store retains nothing: the full query of an empty store is
/// the empty run of events.
pub proof fn lemma_flush_then_query_all_empty(v: Seq<Seq<Event>>)
    requires
        v == Seq::<Seq<Event>>::empty(),
    ensures
        v.flatten() == Seq::<Event>::empty(),
{
    assert(v.flatten() =~= Seq::<Event>::empty());
}

/// The store contents after appending the events of `evs`, oldest first,
/// into an initially empty store with per-segment capacity `cap` and
/// segment bound `max`.
pub open spec fn apply_appends(evs: Seq<Event>, cap: int, max: int) -> Seq<Seq<Event>>
    decreases evs.len(),
{
    if evs.len() == 0 {
        Seq::empty()
    } else {
        spec_append(apply_appends(evs.drop_last(), cap, max), evs.last(), cap, max)
    }
}

/// How m % cap and m / cap move when m grows by one.
proof fn lemma_div_mod_step(m: int, cap: int)
    requires
        m >= 0,
        cap >= 1,
    ensures
        0 <= m % cap < cap,
        m / cap >= 0,
        m % cap == cap - 1 ==> (m + 1) % cap == 0 && (m + 1) / cap == m / cap + 1,
        m % cap < cap - 1 ==> (m + 1) % cap == m % cap + 1 && (m + 1) / cap == m / cap,
{
    vstd::arithmetic::div_mod::lemma_fundamental_div_mod(m, cap);
    assert(0 <= m % cap < cap) by {
        vstd::arithmetic::div_mod::lemma_mod_bound(m, cap);
    }
    assert(m / cap >= 0) by {
        vstd::arithmetic::div_mod::lemma_div_pos_is_pos(m, cap);
    }
    let q = m / cap;
    if m % cap == cap - 1 {
        assert((q + 1) * cap == cap * q + cap) by (nonlinear_arith);
        assert(m + 1 == (q + 1) * cap + 0);
        vstd::arithmetic::div_mod::lemma_fundamental_div_mod_converse(m + 1, cap, q + 1, 0);
    } else {
        assert(q * cap == cap * q) by (nonlinear_arith);
        assert(m + 1 == q * cap + (m % cap + 1));
        vstd::arithmetic::div_mod::lemma_fundamental_div_mod_converse(m + 1, cap, q, m % cap + 1);
    }
}

/// The exact shape of a store grown from empty by the appends of `evs`:
/// how many segments it holds, how full each is, and which suffix of
/// `evs` its flattening is.
proof fn lemma_apply_appends_shape(evs: Seq<Event>, cap: int, max: int)
    requires
        cap >= 1,
        max >= 1,
        evs.len() >= 1,
    ensures
        ({
            let n = evs.len() as int;
            let segs = apply_appends(evs, cap, max);
            let cfull = (n - 1) / cap + 1;
            let count = if cfull <= max {
                cfull
            } else {
                max
            };
            let keep = cap * (count - 1) + (n - 1) % cap + 1;
            &&& segs.len() == count
            &&& segs.last().len() == (n - 1) % cap + 1
            &&& forall|i: int| 0 <= i < count - 1 ==> (#[trigger] segs[i]).len() == cap
            &&& 1 <= keep <= n
            &&& segs.flatten() == evs.subrange(n - keep, n)
        }),
    decreases evs.len(),
{
    let n = evs.len() as int;
    let segs = apply_appends(evs, cap, max);
    let e = evs.last();
    if n == 1 {
        lemma_div_mod_step(0, cap);
        assert(0 == 0 * cap + 0) by (nonlinear_arith);
        vstd::arithmetic::div_mod::lemma_fundamental_div_mod_converse(0, cap, 0, 0);
        assert(apply_appends(evs.drop_last(), cap, max) == Seq::<Seq<Event>>::empty());
        assert(segs == spec_append(Seq::<Seq<Event>>::empty(), e, cap, max));
        assert(segs == Seq::<Seq<Event>>::empty().push(seq![e]));
        assert(segs.len() == 1);
        assert(segs.last() == seq![e]);
        segs.lemma_flatten_singleton();
        assert(segs.flatten() =~= evs.subrange(0, 1));
    } else {
        let w = evs.drop_last();
        lemma_apply_appends_shape(w, cap, max);
        let prev = apply_appends(w, cap, max);
        let m = n - 2;
        let cfull0 = m / cap + 1;
        let count0 = if cfull0 <= max {
            cfull0
        } else {
            max
        };
        let keep0 = cap * (count0 - 1) + m % cap + 1;
        lemma_div_mod_step(m, cap);
        assert(prev.flatten() == w.subrange(n - 1 - keep0, n - 1));
        assert(prev.flatten() =~= evs.subrange(n - 1 - keep0, n - 1)) by {
            assert forall|k: int| 0 <= k < keep0 implies #[trigger] w.subrange(
                n - 1 - keep0,
                n - 1,
            )[k] == evs.subrange(n - 1 - keep0, n - 1)[k] by {
                assert(w[n - 1 - keep0 + k] == evs[n - 1 - keep0 + k]);
            }
        }
        let cfull = (n - 1) / cap + 1;
        let count = if cfull <= max {
            cfull
        } else {
            max
        };
        let keep = cap * (count - 1) + (n - 1) % cap + 1;
        if m % cap < cap - 1 {
            // the open tail segment has room: the append lands there
            assert(prev.last().len() == m % cap + 1 < cap);
            assert(cfull == cfull0 && count == count0);
            assert(segs == prev.update(prev.len() - 1, prev.last().push(e)));
            assert(segs =~= prev.drop_last().push(prev.last().push(e)));
            prev.drop_last().lemma_flatten_push(prev.last().push(e));
            prev.drop_last().lemma_flatten_push(prev.last());
            assert(prev.drop_last().push(prev.last()) =~= prev);
            assert(segs.flatten() =~= prev.flatten().push(e));
            assert(keep == keep0 + 1);
            assert(segs.flatten() =~= evs.subrange(n - keep, n));
            assert forall|i: int| 0 <= i < count - 1 implies (#[trigger] segs[i]).len() == cap by {
                assert(segs[i] == prev[i]);
            }
        } else {
            // the tail segment is full: a new segment is started
            assert(prev.last().len() == cap);
            assert((n - 1) % cap == 0);
            assert((n - 1) / cap == cfull0);
            if count0 < max {
                assert(count0 == cfull0);
                assert(count == count0 + 1);
                assert(segs == prev.push(seq![e]));
                prev.lemma_flatten_push(seq![e]);
                assert(segs.flatten() =~= prev.flatten().push(e));
                assert(cap * (count0 + 1 - 1) == cap * (count0 - 1) + cap) by (nonlinear_arith);
                assert(keep == keep0 + 1);
                assert(segs.flatten() =~= evs.subrange(n - keep, n));
                assert forall|i: int| 0 <= i < count - 1 implies (#[trigger] segs[i]).len()
                    == cap by {
                    assert(segs[i] == prev[i]);
                    if i == count0 - 1 {
                        assert(prev[i] == prev.last());
                    }
                }
            } else {
                // the store is at its bound: the oldest segment is evicted
                assert(count0 == max);
                assert(cfull0 >= max);
                assert(count == max);
                assert(segs == prev.subrange(1, prev.len() as int).push(seq![e]));
                assert(prev[0].len() == cap) by {
                    if max == 1 {
                        assert(prev[0] == prev.last());
                    }
                }
                let tail = prev.subrange(1, prev.len() as int);
                assert(prev.flatten() == prev.first() + prev.drop_first().flatten());
                assert(tail =~= prev.drop_first());
                tail.lemma_flatten_push(seq![e]);
                assert(segs.flatten() =~= tail.flatten().push(e));
                assert(tail.flatten() =~= evs.subrange(n - 1 - keep0 + cap, n - 1)) by {
                    assert(prev.flatten() =~= prev[0] + tail.flatten());
                    assert forall|k: int| 0 <= k < tail.flatten().len() implies tail.flatten()[k]
                        == evs.subrange(n - 1 - keep0 + cap, n - 1)[k] by {
                        assert(tail.flatten()[k] == prev.flatten()[k + cap]);
                        assert(prev.flatten()[k + cap] == evs.subrange(n - 1 - keep0, n - 1)[k
                            + cap]);
                    }
                    assert(prev.flatten().len() == keep0);
                }
                assert(keep == cap * (max - 1) + 1);
                assert(cap * (max - 1) + cap == cap * max) by (nonlinear_arith);
                assert(keep0 == cap * max);
                assert(segs.flatten() =~= evs.subrange(n - keep, n));
                assert forall|i: int| 0 <= i < count - 1 implies (#[trigger] segs[i]).len()
                    == cap by {
                    assert(segs[i] == prev[i + 1]);
                    if i + 1 == max - 1 && max - 1 == prev.len() - 1 {
                        assert(prev[i + 1] == prev.last());
                    }
                }
            }
        }
    }
}

/// While no more events have been appended than the store can hold, the
/// full query returns exactly every appended payload, in append order.
pub proof fn lemma_retention_keeps_all(evs: Seq<Event>, cap: int, max: int)
    requires
        cap >= 1,
        max >= 1,
        evs.len() <= cap * max,
    ensures
        apply_appends(evs, cap, max).flatten() == evs,
{
    if evs.len() == 0 {
        assert(apply_appends(evs, cap, max).flatten() =~= evs);
    } else {
        lemma_apply_appends_shape(evs, cap, max);
        let n = evs.len() as int;
        lemma_div_mod_step(n - 1, cap);
        vstd::arithmetic::div_mod::lemma_fundamental_div_mod(n - 1, cap);
        let cfull = (n - 1) / cap + 1;
        assert(cfull <= max) by {
            if cfull > max {
                assert((n - 1) / cap >= max);
                assert(cap * ((n - 1) / cap) >= cap * max) by (nonlinear_arith)
                    requires
                        cap >= 1,
                        (n - 1) / cap >= max,
                ;
                assert(n - 1 >= cap * max);
            }
        }
        let keep = cap * (cfull - 1) + (n - 1) % cap + 1;
        assert(keep == n);
        assert(apply_appends(evs, cap, max).flatten() == evs.subrange(0, n));
        assert(evs.subrange(0, n) =~= evs);
    }
}

/// Once more events have been appended than the store can hold, the full
/// query returns exactly the most recent `keep` payloads, in append
/// order, where whole-segment eviction keeps `keep` within one segment
/// of the store's total capacity.
pub proof fn lemma_retention_keeps_recent(evs: Seq<Event>, cap: int, max: int)
    requires
        cap >= 1,
        max >= 1,
        evs.len() > cap * max,
    ensures
        ({
            let n = evs.len() as int;
            let keep = cap * (max - 1) + (n - 1) % cap + 1;
            &&& cap * (max - 1) < keep <= cap * max
            &&& apply_appends(evs, cap, max).flatten() == evs.subrange(n - keep, n)
        }),
{
    lemma_apply_appends_shape(evs, cap, max);
    let n = evs.len() as int;
    lemma_div_mod_step(n - 1, cap);
    vstd::arithmetic::div_mod::lemma_fundamental_div_mod(n - 1, cap);
    let cfull = (n - 1) / cap + 1;
    assert(cfull > max) by {
        if cfull <= max {
            assert((n - 1) / cap <= max - 1);
            assert(cap * ((n - 1) / cap) <= cap * (max - 1)) by (nonlinear_arith)
                requires
                    cap >= 1,
                    (n - 1) / cap <= max - 1,
            ;
            assert(cap * (max - 1) + cap == cap * max) by (nonlinear_arith);
            assert(n - 1 <= cap * max - 1);
        }
    }
    assert(cap * (max - 1) + cap == cap * max) by (nonlinear_arith);
}

/// In an ordered store, the last event of an earlier segment is no newer
/// than the first event of any later segment.
pub proof fn lemma_store_chain(v: Seq<Seq<Event>>, i: int, j: int)
    requires
        store_ordered(v),
        0 <= i < j < v.len(),
    ensures
        v[i].last().timestamp <= v[j].first().timestamp,
    decreases j - i,
{
    if i + 1 == j {
    } else {
        lemma_store_chain(v, i, j - 1);
        assert(v[j - 1].first().timestamp <= v[j - 1].last().timestamp);
    }
}

} // verus!
