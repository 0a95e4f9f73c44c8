//! The scheduler as a mathematical state machine: its state, the invariant
//! of that state, and the steps that the scheduler takes.

use vstd::prelude::*;
use vstd::multiset::Multiset;
use crate::heap::descending;
use crate::heap::Entry;
use crate::pcb::PInfoView;
use crate::pcb::PcbView;
use crate::scheduler::Share;
use crate::worker_info::WorkerInfo;

verus! {

/// Where an admitted process is. It is in one place at a time.
#[derive(Debug, Clone, Copy, PartialEq, Eq, Structural)]
pub enum Place {
    /// In the ready set, where any worker can take it: in the injector or in
    /// the ring of a local queue.
    Ready,
    /// In the ready set, in the slot at the front of the local queue of the
    /// worker with this number, where only that worker can take it.
    Slot(usize),
    /// In the private run queue of the worker with this number.
    Heap(usize),
    /// Taken out by the worker with this number, which polls it.
    Running(usize),
    /// With the offload pool, for a file operation.
    InFlight,
    /// Finished.
    Retired,
}

/// Whether the scheduler itself holds the control block of a process in this
/// place. A process that runs or is with the offload pool has its block with
/// it.
pub open spec fn held(p: Place) -> bool {
    p is Ready || p is Slot || p is Heap || p is Retired
}

/// The number of finished processes among the places.
pub open spec fn retired_count(places: Seq<Place>) -> nat
    decreases places.len(),
{
    if places.len() == 0 {
        0
    } else {
        retired_count(places.drop_last()) + if places.last() is Retired {
            1nat
        } else {
            0nat
        }
    }
}

/// The worker that a re-admission wakes: one of the others, chosen by
/// `pick`, or none where the worker is alone.
pub open spec fn peer_of(w: usize, pick: usize, workers: nat) -> Option<usize> {
    if workers <= 1 {
        None
    } else {
        let j = pick as nat % ((workers - 1) as nat);
        if j < w {
            Some(j as usize)
        } else {
            Some((j + 1) as usize)
        }
    }
}

/// The number of processes that a worker drains at most in one round: its
/// share of those that are not finished, and at least one.
pub open spec fn batch_of(processes: nat, done: nat, workers: nat) -> nat {
    if workers == 0 || processes < done || (processes - done) / (workers as int) < 1 {
        1
    } else {
        ((processes - done) / (workers as int)) as nat
    }
}

/// The state of a scheduler.
pub struct SchedView {
    /// The unit of time accounting, in nanoseconds.
    pub time_slice: u64,
    /// Whether the state is to be rendered while the scheduler runs.
    pub print: bool,
    /// The time between two renderings, in nanoseconds.
    pub print_interval: u64,
    /// The number of workers.
    pub workers: nat,
    /// The place of each admitted process; the process with number `id`
    /// stands at `id - 1`.
    pub places: Seq<Place>,
    /// The control block of each admitted process, where the scheduler holds
    /// it.
    pub slots: Seq<Option<PcbView>>,
    /// For each admitted process its record as the scheduler last saw it
    /// when the control block left.
    pub records: Seq<PInfoView>,
    /// The numbers in the ready set that any worker can take.
    pub ready: Multiset<u32>,
    /// For each worker the number in the slot of its local queue.
    pub kept: Seq<Option<u32>>,
    /// The private run queue of each worker.
    pub heaps: Seq<Seq<Entry>>,
    pub share: Share,
    /// Workers that wake up are to return.
    pub worker_exit: bool,
    pub worker_infos: Seq<WorkerInfo>,
}

impl SchedView {
    /// Whether a process was admitted under this number.
    pub open spec fn valid_id(self, id: u32) -> bool {
        1 <= id <= self.places.len()
    }

    /// The place of the process with this number.
    pub open spec fn place_of(self, id: u32) -> Place {
        self.places[id - 1]
    }

    /// The scheduler holds the control block of a process exactly while the
    /// process waits or is finished; the block carries the process's number,
    /// its record is consistent, and it is marked done exactly when the
    /// process is retired.
    pub open spec fn slot_ok(self, i: int) -> bool {
        match self.slots[i] {
            Some(pv) => {
                &&& held(self.places[i])
                &&& pv.pinfo.id == i + 1
                &&& pv.pinfo.wf()
                &&& pv.pinfo.done == (self.places[i] is Retired)
            },
            None => !held(self.places[i]),
        }
    }

    /// The record of a process as the scheduler shows it: that in its
    /// control block where the scheduler holds the block, else the record as
    /// it was when the block left.
    pub open spec fn shown(self, id: u32) -> PInfoView {
        match self.slots[id - 1] {
            Some(pv) => pv.pinfo,
            None => self.records[id - 1],
        }
    }

    /// The record that was kept of a process is consistent and carries the
    /// process's number.
    pub open spec fn record_ok(self, i: int) -> bool {
        self.records[i].id == i + 1 && self.records[i].wf()
    }

    /// A process that is said to be in a worker's run queue is there, and a
    /// worker that is named exists.
    pub open spec fn place_ok(self, i: int) -> bool {
        match self.places[i] {
            Place::Heap(w) => w < self.workers && exists|k: int|
                0 <= k < self.heaps[w as int].len() && (#[trigger] self.heaps[w as int][k]).1 == i
                    + 1,
            Place::Running(w) => w < self.workers,
            Place::Slot(w) => w < self.workers && self.kept[w as int] == Some((i + 1) as u32),
            _ => true,
        }
    }

    /// The number in the slot of a local queue names a process whose place
    /// is that slot.
    pub open spec fn kept_ok(self, w: int) -> bool {
        match self.kept[w] {
            Some(id) => self.valid_id(id) && self.place_of(id) == Place::Slot(w as usize),
            None => true,
        }
    }

    /// A number is among those that any worker can take once if its process
    /// is ready, and not at all otherwise.
    pub open spec fn ready_ok(self, id: u32) -> bool {
        self.ready.count(id) == if self.valid_id(id) && self.place_of(id) is Ready {
            1nat
        } else {
            0nat
        }
    }

    /// An entry of a run queue names a process whose place is that queue,
    /// carries the key of that process, and is the only entry for it.
    pub open spec fn entry_ok(self, w: int, k: int) -> bool {
        let e = self.heaps[w][k];
        &&& self.valid_id(e.1)
        &&& self.place_of(e.1) == Place::Heap(w as usize)
        &&& self.slots[e.1 - 1] is Some
        &&& e.0 == self.slots[e.1 - 1].unwrap().pinfo.metric.key()
        &&& forall|j: int|
            0 <= j < self.heaps[w].len() && j != k ==> (#[trigger] self.heaps[w][j]).1 != e.1
    }

    /// A run queue stands by falling key and all its entries are in order.
    pub open spec fn heap_ok(self, w: int) -> bool {
        &&& descending(self.heaps[w])
        &&& forall|k: int| 0 <= k < self.heaps[w].len() ==> #[trigger] self.entry_ok(w, k)
    }

    /// The invariant of the scheduler's state.
    pub open spec fn inv(self) -> bool {
        &&& 1 <= self.workers <= usize::MAX
        &&& self.kept.len() == self.workers
        &&& self.heaps.len() == self.workers
        &&& self.worker_infos.len() == self.workers
        &&& self.slots.len() == self.places.len()
        &&& self.records.len() == self.places.len()
        &&& forall|i: int| 0 <= i < self.places.len() ==> #[trigger] self.record_ok(i)
        &&& self.places.len() < u32::MAX
        &&& self.share.processes == self.places.len()
        &&& self.share.done == retired_count(self.places)
        &&& forall|i: int| 0 <= i < self.places.len() ==> #[trigger] self.slot_ok(i)
        &&& forall|i: int| 0 <= i < self.places.len() ==> #[trigger] self.place_ok(i)
        &&& forall|id: u32| #[trigger] self.ready_ok(id)
        &&& forall|w: int| 0 <= w < self.heaps.len() ==> #[trigger] self.heap_ok(w)
        &&& forall|w: int| 0 <= w < self.kept.len() ==> #[trigger] self.kept_ok(w)
    }

    /// The number of processes that worker `w` can take from the ready set.
    pub open spec fn available(self, w: usize) -> nat {
        self.ready.len() + if self.kept[w as int] is Some {
            1nat
        } else {
            0nat
        }
    }

    /// The state after the admission of a process with the control block
    /// `pv`: the process is ready under the next free number.
    pub open spec fn after_admission(self, pv: PcbView) -> SchedView {
        SchedView {
            places: self.places.push(Place::Ready),
            slots: self.slots.push(Some(pv)),
            records: self.records.push(pv.pinfo),
            ready: self.ready.insert((self.places.len() + 1) as u32),
            share: Share { processes: (self.share.processes + 1) as usize, ..self.share },
            ..self
        }
    }

    /// The state after worker `w` has drained the process `id` from the ready
    /// set into its run queue, at the position `at`: from the slot of its
    /// local queue where that held a process, else from the processes that
    /// any worker can take.
    pub open spec fn after_drain(self, w: usize, id: u32, at: int) -> SchedView {
        let key = self.slots[id - 1].unwrap().pinfo.metric.key() as i128;
        SchedView {
            places: self.places.update(id - 1, Place::Heap(w)),
            ready: if self.kept[w as int] is Some {
                self.ready
            } else {
                self.ready.remove(id)
            },
            kept: self.kept.update(w as int, None),
            heaps: self.heaps.update(w as int, self.heaps[w as int].insert(at, (key, id))),
            ..self
        }
    }

    /// The state after worker `w` has taken the last entry of its run queue
    /// to poll the process. The scheduler keeps the record as it is now.
    pub open spec fn after_take(self, w: usize) -> SchedView {
        let id = self.heaps[w as int].last().1;
        SchedView {
            places: self.places.update(id - 1, Place::Running(w)),
            slots: self.slots.update(id - 1, None),
            records: self.records.update(id - 1, self.slots[id - 1].unwrap().pinfo),
            heaps: self.heaps.update(w as int, self.heaps[w as int].drop_last()),
            ..self
        }
    }

    /// The state after the process with the control block `pv` has finished.
    pub open spec fn after_retire(self, pv: PcbView) -> SchedView {
        let i = pv.pinfo.id - 1;
        SchedView {
            places: self.places.update(i, Place::Retired),
            slots: self.slots.update(i, Some(PcbView { pinfo: pv.pinfo.finished(), ..pv })),
            share: Share { done: (self.share.done + 1) as usize, ..self.share },
            ..self
        }
    }

    /// The state after the process `id` has gone to the offload pool.
    pub open spec fn after_offload(self, id: u32) -> SchedView {
        SchedView { places: self.places.update(id - 1, Place::InFlight), ..self }
    }

    /// The state after the process with the control block `pv` has come back
    /// into the ready set through the injector, from a worker or from the
    /// offload pool.
    pub open spec fn after_inject(self, pv: PcbView) -> SchedView {
        let i = pv.pinfo.id - 1;
        SchedView {
            places: self.places.update(i, Place::Ready),
            slots: self.slots.update(i, Some(pv)),
            ready: self.ready.insert(pv.pinfo.id),
            ..self
        }
    }

    /// The state after worker `w` has put the process with the control block
    /// `pv` back into its local queue: the process is in the slot of that
    /// queue, and the process that was there has moved on to where any
    /// worker can take it.
    pub open spec fn after_keep(self, w: usize, pv: PcbView) -> SchedView {
        let i = pv.pinfo.id - 1;
        let places = self.places.update(i, Place::Slot(w));
        SchedView {
            places: match self.kept[w as int] {
                Some(previous) => places.update(previous - 1, Place::Ready),
                None => places,
            },
            slots: self.slots.update(i, Some(pv)),
            ready: match self.kept[w as int] {
                Some(previous) => self.ready.insert(previous),
                None => self.ready,
            },
            kept: self.kept.update(w as int, Some(pv.pinfo.id)),
            ..self
        }
    }
}

/// No more processes are finished than there are places.
pub proof fn lemma_retired_count_bound(places: Seq<Place>)
    ensures
        retired_count(places) <= places.len(),
    decreases places.len(),
{
    if places.len() > 0 {
        lemma_retired_count_bound(places.drop_last());
    }
}

/// All processes are finished exactly when each place is `Retired`.
pub proof fn lemma_retired_count_full(places: Seq<Place>)
    ensures
        retired_count(places) == places.len() <==> forall|i: int|
            0 <= i < places.len() ==> #[trigger] places[i] is Retired,
    decreases places.len(),
{
    if places.len() > 0 {
        let front = places.drop_last();
        lemma_retired_count_full(front);
        lemma_retired_count_bound(front);
        if retired_count(places) == places.len() {
            assert forall|i: int| 0 <= i < places.len() implies #[trigger] places[i] is Retired by {
                if i < front.len() {
                    assert(front[i] is Retired);
                }
            }
        }
        if forall|i: int| 0 <= i < places.len() ==> #[trigger] places[i] is Retired {
            assert forall|i: int| 0 <= i < front.len() implies #[trigger] front[i] is Retired by {
                assert(places[i] is Retired);
            }
            assert(places.last() == places[places.len() - 1]);
        }
    }
}

/// A change of one place changes the count of finished processes by what
/// that place adds or takes.
pub proof fn lemma_retired_count_update(places: Seq<Place>, i: int, p: Place)
    requires
        0 <= i < places.len(),
    ensures
        retired_count(places.update(i, p)) + (if places[i] is Retired {
            1nat
        } else {
            0nat
        }) == retired_count(places) + (if p is Retired {
            1nat
        } else {
            0nat
        }),
    decreases places.len(),
{
    let after = places.update(i, p);
    if i == places.len() - 1 {
        assert(after.drop_last() =~= places.drop_last());
    } else {
        assert(after.drop_last() =~= places.drop_last().update(i, p));
        lemma_retired_count_update(places.drop_last(), i, p);
    }
}

/// A new place that is not `Retired` leaves the count of finished processes
/// as it is.
pub proof fn lemma_retired_count_push(places: Seq<Place>, p: Place)
    ensures
        retired_count(places.push(p)) == retired_count(places) + (if p is Retired {
            1nat
        } else {
            0nat
        }),
{
    assert(places.push(p).drop_last() =~= places);
}

} // verus!
