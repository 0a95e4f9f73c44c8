//! The private run queue of a worker: the processes that it has drained from
//! the ready set, handed out lowest key first.

use vstd::prelude::*;

verus! {

/// An entry of a run queue: the scheduling key of a process at the time it
/// was drained, and its number.
pub type Entry = (i128, u32);

/// Whether the keys never rise from the front of the queue to its back.
pub open spec fn descending(s: Seq<Entry>) -> bool {
    forall|i: int, j: int| 0 <= i < j < s.len() ==> s[i].0 >= s[j].0
}

/// A queue of entries that hands out the entry with the lowest key first.
/// Entries with equal keys come out in no particular order.
pub struct RunHeap {
    items: Vec<Entry>,
}

impl View for RunHeap {
    type V = Seq<Entry>;

    closed spec fn view(&self) -> Seq<Entry> {
        self.items@
    }
}

impl RunHeap {
    /// The queue's invariant: the entries stand by falling key, so that the
    /// last one has the lowest.
    pub open spec fn wf(&self) -> bool {
        descending(self@)
    }

    /// An empty queue.
    pub fn new() -> (heap: RunHeap)
        ensures
            heap@ == Seq::<Entry>::empty(),
            heap.wf(),
    {
        RunHeap { items: Vec::new() }
    }

    /// The number of entries.
    pub fn len(&self) -> (n: usize)
        ensures
            n == self@.len(),
    {
        self.items.len()
    }

    /// Whether the queue holds no entry.
    pub fn is_empty(&self) -> (empty: bool)
        ensures
            empty == (self@.len() == 0),
    {
        self.items.len() == 0
    }

    /// Puts an entry into the queue, at a place that keeps the keys falling.
    pub fn push(&mut self, key: i128, id: u32)
        requires
            old(self).wf(),
        ensures
            final(self).wf(),
            exists|at: int|
                0 <= at <= old(self)@.len() && #[trigger] old(self)@.insert(at, (key, id))
                    == final(self)@,
    {
        let n = self.items.len();
        let mut at: usize = 0;
        while at < n && self.items[at].0 >= key
            invariant
                at <= n,
                n == self.items.len(),
                self.items@ == old(self).items@,
                forall|k: int| 0 <= k < at ==> self.items@[k].0 >= key,
            decreases n - at,
        {
            at += 1;
        }
        self.items.insert(at, (key, id));
        proof {
            let before = old(self)@;
            let after = self@;
            assert(after == before.insert(at as int, (key, id)));
            assert forall|i: int, j: int| 0 <= i < j < after.len() implies after[i].0
                >= after[j].0 by {
                if j < at {
                    assert(after[i] == before[i] && after[j] == before[j]);
                } else if j == at {
                    assert(after[i] == before[i]);
                } else if i < at {
                    assert(after[i] == before[i] && after[j] == before[j - 1]);
                    if at < n {
                        assert(before[at as int].0 < key);
                    }
                } else if i == at {
                    assert(after[j] == before[j - 1]);
                    assert(before[at as int].0 < key);
                } else {
                    assert(after[i] == before[i - 1] && after[j] == before[j - 1]);
                }
            }
        }
    }

    /// Takes out the entry with the lowest key, if there is any.
    pub fn pop(&mut self) -> (popped: Option<Entry>)
        requires
            old(self).wf(),
        ensures
            final(self).wf(),
            match popped {
                Some(e) => {
                    &&& old(self)@.len() > 0
                    &&& e == old(self)@.last()
                    &&& final(self)@ == old(self)@.drop_last()
                    &&& forall|k: int| 0 <= k < old(self)@.len() ==> e.0 <= old(self)@[k].0
                },
                None => old(self)@.len() == 0 && final(self)@ == old(self)@,
            },
    {
        self.items.pop()
    }
}

} // verus!
