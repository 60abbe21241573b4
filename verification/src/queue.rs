use vstd::prelude::*;

use std::collections::VecDeque;

verus! {

/// Once this many drained queues have accumulated at the front of an
/// `EventQueue`, the backlog is compacted away.
pub const COMPACT_THRESHOLD: usize = 10;

/// A bounded first-in, first-out queue: pushes are refused once the
/// queue holds `capacity` items.
pub struct Queue<T> {
    items: VecDeque<T>,
    capacity: usize,
}

impl<T> View for Queue<T> {
    type V = Seq<T>;

    closed spec fn view(&self) -> Seq<T> {
        self.items@
    }
}

impl<T> Queue<T> {
    pub closed spec fn spec_capacity(&self) -> usize {
        self.capacity
    }

    pub fn new(capacity: usize) -> (q: Self)
        ensures
            q@ == Seq::<T>::empty(),
            q.spec_capacity() == capacity,
    {
        let q = Queue { items: VecDeque::with_capacity(capacity), capacity };
        assert(q@ =~= Seq::<T>::empty());
        q
    }

    pub fn is_full(&self) -> (r: bool)
        ensures
            r == (self@.len() >= self.spec_capacity()),
    {
        self.items.len() >= self.capacity
    }

    pub fn is_empty(&self) -> (r: bool)
        ensures
            r == (self@.len() == 0),
    {
        self.items.len() == 0
    }

    /// Appends `item` at the back, unless the queue is full, in which
    /// case the item is handed back unchanged.
    pub fn push(&mut self, item: T) -> (r: Result<(), T>)
        ensures
            final(self).spec_capacity() == old(self).spec_capacity(),
            old(self)@.len() < old(self).spec_capacity() ==> r is Ok && final(self)@ == old(
                self,
            )@.push(item),
            old(self)@.len() >= old(self).spec_capacity() ==> (r matches Err(it) && it == item)
                && final(self)@ == old(self)@,
    {
        if self.is_full() {
            Err(item)
        } else {
            self.items.push_back(item);
            Ok(())
        }
    }

    /// Removes and returns the oldest item, if any.
    pub fn pop(&mut self) -> (r: Option<T>)
        ensures
            final(self).spec_capacity() == old(self).spec_capacity(),
            match r {
                Some(x) => old(self)@.len() > 0 && x == old(self)@[0] && final(self)@ == old(
                    self,
                )@.drop_first(),
                None => old(self)@.len() == 0 && final(self)@ == old(self)@,
            },
    {
        let r = self.items.pop_front();
        proof {
            if old(self)@.len() > 0 {
                assert(self@ =~= old(self)@.drop_first());
            }
        }
        r
    }
}

/// An unbounded queue built from a list of bounded queues: pushes fill
/// the newest queue, starting a fresh one as each fills, and pops drain
/// from the oldest, dropping queues as they empty.
pub struct EventQueue<T> {
    queues: Vec<Queue<T>>,
    queue_capacity: usize,
    front_index: usize,
}

impl<T> View for EventQueue<T> {
    type V = Seq<T>;

    closed spec fn view(&self) -> Seq<T> {
        self.queues@.map_values(|q: Queue<T>| q@).subrange(
            self.front_index as int,
            self.queues@.len() as int,
        ).flatten()
    }
}

impl<T> EventQueue<T> {
    pub closed spec fn spec_queue_capacity(&self) -> usize {
        self.queue_capacity
    }

    pub closed spec fn wf(&self) -> bool {
        &&& 1 <= self.queue_capacity
        &&& self.front_index <= self.queues@.len()
        &&& forall|i: int|
            0 <= i < self.front_index ==> (#[trigger] self.queues@[i])@.len() == 0
        &&& forall|i: int|
            0 <= i < self.queues@.len() ==> (#[trigger] self.queues@[i]).spec_capacity()
                == self.queue_capacity
        &&& forall|i: int|
            self.front_index <= i < self.queues@.len() ==> (#[trigger] self.queues@[i])@.len() > 0
    }

    spec fn inner(&self) -> Seq<Seq<T>> {
        self.queues@.map_values(|q: Queue<T>| q@).subrange(
            self.front_index as int,
            self.queues@.len() as int,
        )
    }

    pub fn new(queue_capacity: usize) -> (q: Self)
        requires
            1 <= queue_capacity,
        ensures
            q.wf(),
            q@ == Seq::<T>::empty(),
            q.spec_queue_capacity() == queue_capacity,
    {
        let q = EventQueue { queues: Vec::new(), queue_capacity, front_index: 0 };
        assert(q.inner() =~= Seq::<Seq<T>>::empty());
        assert(q@ =~= Seq::<T>::empty());
        q
    }

    /// Appends `item` at the back, never refusing it: a fresh bounded
    /// queue is started whenever the newest one is full.
    pub fn push(&mut self, item: T)
        requires
            old(self).wf(),
        ensures
            final(self).wf(),
            final(self).spec_queue_capacity() == old(self).spec_queue_capacity(),
            final(self)@ == old(self)@.push(item),
    {
        if self.front_index >= self.queues.len() {
            // everything before the front has been drained already
            self.queues.clear();
            self.front_index = 0;
            assert(self.inner() =~= Seq::<Seq<T>>::empty());
            assert(old(self).inner() =~= Seq::<Seq<T>>::empty());
        }
        let ghost pre = *self;
        assert(pre@ == old(self)@);
        let n = self.queues.len();
        if n > 0 {
            let mut last = self.queues.pop().unwrap();
            if !last.is_full() {
                let r = last.push(item);
                assert(r is Ok);
                self.queues.push(last);
                proof {
                    let f = self.front_index as int;
                    assert(self.inner() =~= pre.inner().update(
                        pre.inner().len() - 1,
                        pre.inner().last().push(item),
                    ));
                    assert(self.inner() =~= pre.inner().drop_last().push(
                        pre.inner().last().push(item),
                    ));
                    pre.inner().drop_last().lemma_flatten_push(pre.inner().last().push(item));
                    pre.inner().drop_last().lemma_flatten_push(pre.inner().last());
                    assert(pre.inner().drop_last().push(pre.inner().last()) =~= pre.inner());
                    assert(self@ =~= pre@.push(item));
                }
                return;
            }
            self.queues.push(last);
            assert(self.queues@ =~= pre.queues@);
        }
        let mut fresh: Queue<T> = Queue::new(self.queue_capacity);
        let r = fresh.push(item);
        assert(r is Ok);
        assert(fresh@ =~= Seq::<T>::empty().push(item));
        self.queues.push(fresh);
        proof {
            assert(self.inner() =~= pre.inner().push(fresh@));
            pre.inner().lemma_flatten_push(fresh@);
            assert(self@ =~= pre@.push(item));
        }
    }

    /// Removes and returns the oldest item, if any; drained queues at
    /// the front are compacted away once enough accumulate.
    pub fn pop(&mut self) -> (r: Option<T>)
        requires
            old(self).wf(),
        ensures
            final(self).wf(),
            final(self).spec_queue_capacity() == old(self).spec_queue_capacity(),
            match r {
                Some(x) => old(self)@.len() > 0 && x == old(self)@.first() && final(self)@ == old(
                    self,
                )@.drop_first(),
                None => old(self)@.len() == 0 && final(self)@ == old(self)@,
            },
    {
        if self.front_index >= self.queues.len() {
            assert(old(self).inner() =~= Seq::<Seq<T>>::empty());
            assert(old(self)@ =~= Seq::<T>::empty());
            if self.front_index > COMPACT_THRESHOLD {
                self.queues.clear();
                self.front_index = 0;
                assert(self.inner() =~= Seq::<Seq<T>>::empty());
                assert(self@ =~= old(self)@);
            }
            return None;
        }
        let ghost pre = *self;
        let idx = self.front_index;
        let ghost f = idx as int;
        proof {
            assert(pre.inner().first() == pre.queues@[f]@);
            assert(pre@ == pre.inner().first() + pre.inner().drop_first().flatten());
        }
        let mut q = self.queues.remove(idx);
        let item = q.pop();
        let x = match item {
            Some(x) => x,
            None => {
                // unreachable: the front queue is never empty
                proof {
                    assert(pre.queues@[f]@.len() > 0);
                }
                assert(false);
                return None;
            },
        };
        let now_empty = q.is_empty();
        self.queues.insert(idx, q);
        assert(self.queues@ =~= pre.queues@.update(f, q));
        if now_empty {
            self.front_index = idx + 1;
            proof {
                assert(self.inner() =~= pre.inner().drop_first());
                assert(pre.inner().first().len() == 1);
                assert(pre@.drop_first() =~= pre.inner().drop_first().flatten());
                assert(self@ == pre@.drop_first());
            }
        } else {
            proof {
                assert(self.inner() =~= pre.inner().update(0, q@));
                assert(self.inner() =~= Seq::<Seq<T>>::empty().push(q@)
                    + pre.inner().drop_first());
                vstd::seq_lib::lemma_flatten_concat(
                    Seq::<Seq<T>>::empty().push(q@),
                    pre.inner().drop_first(),
                );
                Seq::<Seq<T>>::empty().push(q@).lemma_flatten_singleton();
                assert(self@ =~= q@ + pre.inner().drop_first().flatten());
                assert(q@ == pre.queues@[f]@.drop_first());
                assert(self@ =~= pre@.drop_first());
            }
        }
        proof {
            assert(x == pre@.first());
        }
        Some(x)
    }

    /// Whether the queue as a whole holds nothing.
    pub fn is_empty(&self) -> (r: bool)
        requires
            self.wf(),
        ensures
            r == (self@.len() == 0),
    {
        proof {
            if self.front_index < self.queues@.len() {
                assert(self.inner().first() == self.queues@[self.front_index as int]@);
                assert(self@ == self.inner().first() + self.inner().drop_first().flatten());
            } else {
                assert(self.inner() =~= Seq::<Seq<T>>::empty());
                assert(self@ =~= Seq::<T>::empty());
            }
        }
        self.front_index >= self.queues.len()
    }

    /// Whether the newest bounded queue, if any, is at capacity; the
    /// next push would then start a fresh queue.
    pub closed spec fn spec_tail_full(&self) -> bool {
        self.queues@.len() > 0 && self.queues@.last()@.len() >= self.queues@.last().spec_capacity()
    }

    pub fn is_full(&self) -> (r: bool)
        ensures
            r == self.spec_tail_full(),
    {
        let n = self.queues.len();
        if n == 0 {
            false
        } else {
            self.queues[n - 1].is_full()
        }
    }
}

} // verus!
