//! The scheduler: admission, the steps of a worker, the return of offloaded
//! work, and shutdown.

use vstd::prelude::*;
use vstd::multiset::Multiset;
use crate::heap::RunHeap;
use crate::metric::Metric;
use crate::model::batch_of;
use crate::model::lemma_retired_count_bound;
use crate::model::peer_of;
use crate::model::Place;
use crate::model::SchedView;
use crate::ops::FileOp;
use crate::ops::Op;
use crate::ops::OpsRes;
use crate::ops::OpsType;
use crate::pcb::PInfo;
use crate::pcb::PInfoView;
use crate::pcb::Pcb;
use crate::pcb::PcbView;
use crate::pcb::PollRes;
use crate::pcb::Process;
use crate::pcb::label;
use crate::pcb::line_view;
use crate::pcb::priority_line;
use crate::pcb::INIT_PRIORITY;
use crate::ready::ReadySet;
use crate::steps::lemma_admission_keeps_inv;
use crate::steps::lemma_drain_keeps_inv;
use crate::steps::lemma_inject_keeps_inv;
use crate::steps::lemma_keep_keeps_inv;
use crate::steps::lemma_offload_keeps_inv;
use crate::steps::lemma_retire_keeps_inv;
use crate::steps::lemma_take_keeps_inv;
use crate::worker_info::WorkerInfo;

verus! {

/// The number of places in the local queue of a worker.
pub const LOCAL_QUEUE_SIZE: u16 = 32;

/// The counters and flags that the scheduler shares with the threads around
/// it.
#[derive(Debug, Clone, Copy, PartialEq, Eq, Structural)]
pub struct Share {
    /// The number of processes admitted.
    pub processes: usize,
    /// The number of processes finished.
    pub done: usize,
    /// The renderer has shown the final state.
    pub printer_done: bool,
    /// The scheduler has seen every admitted process finish.
    pub scheduler_done: bool,
}

impl Share {
    /// Nothing admitted, nothing finished, no flag set.
    pub fn new() -> (share: Share)
        ensures
            share == (Share { processes: 0, done: 0, printer_done: false, scheduler_done: false }),
    {
        Share { processes: 0, done: 0, printer_done: false, scheduler_done: false }
    }
}

/// The settings of a scheduler. Times are in nanoseconds.
pub struct SchedulerBuilder {
    pub time_slice: u64,
    pub print: bool,
    pub print_interval: u64,
}

impl SchedulerBuilder {
    /// The default settings: a time slice of 20 ms, rendering switched on,
    /// one rendering every 200 ms.
    pub fn new() -> (builder: SchedulerBuilder)
        ensures
            builder.time_slice == 20_000_000,
            builder.print,
            builder.print_interval == 200_000_000,
    {
        SchedulerBuilder { time_slice: 20_000_000, print: true, print_interval: 200_000_000 }
    }

    /// Sets the unit of time accounting.
    pub fn time_slice(self, time_slice: u64) -> (builder: SchedulerBuilder)
        ensures
            builder.time_slice == time_slice,
            builder.print == self.print,
            builder.print_interval == self.print_interval,
    {
        let mut builder = self;
        builder.time_slice = time_slice;
        builder
    }

    /// Switches rendering on or off.
    pub fn print(self, print: bool) -> (builder: SchedulerBuilder)
        ensures
            builder.time_slice == self.time_slice,
            builder.print == print,
            builder.print_interval == self.print_interval,
    {
        let mut builder = self;
        builder.print = print;
        builder
    }

    /// Sets the time between two renderings.
    pub fn print_interval(self, d: u64) -> (builder: SchedulerBuilder)
        ensures
            builder.time_slice == self.time_slice,
            builder.print == self.print,
            builder.print_interval == d,
    {
        let mut builder = self;
        builder.print_interval = d;
        builder
    }

    /// A scheduler for `threads` workers with these settings: nothing is
    /// admitted, every run queue is empty, and every worker is busy and has
    /// never been parked.
    pub fn build(self, threads: usize) -> (s: Scheduler)
        requires
            threads >= 1,
        ensures
            s.wf(),
            s@.time_slice == self.time_slice,
            s@.print == self.print,
            s@.print_interval == self.print_interval,
            s@.workers == threads,
            s@.places.len() == 0,
            s@.ready == Multiset::<u32>::empty(),
            forall|w: int| 0 <= w < threads ==> (#[trigger] s@.kept[w]) is None,
            forall|w: int| 0 <= w < threads ==> (#[trigger] s@.heaps[w]).len() == 0,
            s@.share == (Share {
                processes: 0,
                done: 0,
                printer_done: false,
                scheduler_done: false,
            }),
            !s@.worker_exit,
            forall|w: int|
                0 <= w < threads ==> {
                    &&& (#[trigger] s@.worker_infos[w]).id == w
                    &&& s@.worker_infos[w].waiting_time == 0
                    &&& !s@.worker_infos[w].idle
                },
    {
        let mut heaps: Vec<RunHeap> = Vec::new();
        let mut worker_infos: Vec<WorkerInfo> = Vec::new();
        let mut id: usize = 0;
        while id < threads
            invariant
                id <= threads,
                heaps@.len() == id,
                worker_infos@.len() == id,
                forall|w: int| 0 <= w < id ==> (#[trigger] heaps@[w])@.len() == 0,
                forall|w: int|
                    0 <= w < id ==> {
                        &&& (#[trigger] worker_infos@[w]).id == w
                        &&& worker_infos@[w].waiting_time == 0
                        &&& !worker_infos@[w].idle
                    },
            decreases threads - id,
        {
            heaps.push(RunHeap::new());
            worker_infos.push(WorkerInfo::new(id));
            id += 1;
        }
        let s = Scheduler {
            time_slice: self.time_slice,
            print: self.print,
            print_interval: self.print_interval,
            ready: ReadySet::new(threads, LOCAL_QUEUE_SIZE),
            heaps,
            slots: Vec::new(),
            records: Vec::new(),
            places: Vec::new(),
            share: Share::new(),
            worker_infos,
            worker_exit: false,
        };
        proof {
            let v = s@;
            assert forall|x: u32| #[trigger] v.ready_ok(x) by {}
            assert forall|w: int| 0 <= w < v.heaps.len() implies #[trigger] v.heap_ok(w) by {
                assert(s.heaps@[w]@.len() == 0);
            }
            assert forall|w: int| 0 <= w < v.kept.len() implies #[trigger] v.kept_ok(w) by {}
        }
        s
    }
}

/// Whether `block` is the control block under which a process with the
/// record `pinfo` is admitted: the record has the number and the priority
/// set and carries a label, and nothing is pending.
pub open spec fn enters(block: PcbView, pinfo: PInfoView, id: u32, priority: i32) -> bool {
    &&& block.pinfo.name is Some
    &&& block.pinfo == (PInfoView {
        id,
        name: block.pinfo.name,
        metric: Metric { priority, running_time: pinfo.metric.running_time },
        ..pinfo
    })
    &&& block.ops_res == OpsRes::Empty
    &&& block.outbox == Seq::<String>::empty()
}

/// The control block of the process that was admitted last.
pub open spec fn newest(s: SchedView) -> PcbView {
    s.slots.last().unwrap()
}

/// The view of a slot of the process table.
pub open spec fn slot_view(slot: Option<Pcb>) -> Option<PcbView> {
    match slot {
        Some(pcb) => Some(pcb@),
        None => None,
    }
}

/// The scheduling core. It holds the ready set, the run queue of each
/// worker, and the control block of every process that is not out for a poll
/// or a file operation.
pub struct Scheduler {
    time_slice: u64,
    print: bool,
    print_interval: u64,
    ready: ReadySet,
    heaps: Vec<RunHeap>,
    slots: Vec<Option<Pcb>>,
    records: Vec<PInfo>,
    places: Vec<Place>,
    share: Share,
    worker_infos: Vec<WorkerInfo>,
    worker_exit: bool,
}

impl View for Scheduler {
    type V = SchedView;

    closed spec fn view(&self) -> SchedView {
        SchedView {
            time_slice: self.time_slice,
            print: self.print,
            print_interval: self.print_interval,
            workers: self.heaps@.len(),
            places: self.places@,
            slots: Seq::new(self.slots@.len(), |i: int| slot_view(self.slots@[i])),
            records: Seq::new(self.records@.len(), |i: int| self.records@[i]@),
            ready: self.ready@.shared,
            kept: self.ready@.kept,
            heaps: Seq::new(self.heaps@.len(), |w: int| self.heaps@[w]@),
            share: self.share,
            worker_exit: self.worker_exit,
            worker_infos: self.worker_infos@,
        }
    }
}

impl Scheduler {
    /// The scheduler's invariant: that of its state and that of its ready
    /// set.
    pub closed spec fn wf(&self) -> bool {
        self@.inv() && self.ready.wf()
    }

    /// The state of a scheduler satisfies the invariant of the state.
    pub proof fn lemma_wf_inv(&self)
        requires
            self.wf(),
        ensures
            self@.inv(),
    {
    }

    /// Admits the process `p` with the initial priority.
    pub fn execute(&mut self, p: Box<dyn Process>, pinfo: PInfo)
        requires
            old(self).wf(),
            pinfo@.wf(),
            !pinfo@.done,
            old(self)@.places.len() + 1 < u32::MAX,
        ensures
            final(self).wf(),
            final(self)@ == old(self)@.after_admission(newest(final(self)@)),
            newest(final(self)@).p =~= p,
            enters(
                newest(final(self)@),
                pinfo@,
                (old(self)@.places.len() + 1) as u32,
                INIT_PRIORITY,
            ),
    {
        let mut pinfo = pinfo;
        pinfo.metric.priority = INIT_PRIORITY;
        let id: u32 = (self.places.len() + 1) as u32;
        let name = p.name();
        let pinfo = PInfo::entered(pinfo, id, name);
        // The block is made here, where `p` came in: Verus follows a boxed
        // process through one handing-over and no further.
        let pcb = Pcb { p, pinfo, ops_res: OpsRes::Empty, outbox: Vec::new() };
        let ghost block = pcb@;
        proof {
            assert(pcb.p =~= p);
            assert(block.p == pcb.p);
        }
        self.admit_block(pcb);
        assert(newest(self@).p =~= p);
    }

    /// Admits the process `p` with the given priority: the process gets the
    /// next free number, its record `pinfo` takes that number, the priority
    /// and the label that the process has now, and the process is ready. The
    /// control block that the scheduler holds from now on, the newest in its
    /// table, holds `p`.
    pub fn execute_priority(&mut self, p: Box<dyn Process>, pinfo: PInfo, priority: i32)
        requires
            old(self).wf(),
            pinfo@.wf(),
            !pinfo@.done,
            old(self)@.places.len() + 1 < u32::MAX,
        ensures
            final(self).wf(),
            final(self)@ == old(self)@.after_admission(newest(final(self)@)),
            newest(final(self)@).p =~= p,
            enters(newest(final(self)@), pinfo@, (old(self)@.places.len() + 1) as u32, priority),
    {
        let mut pinfo = pinfo;
        pinfo.metric.priority = priority;
        let id: u32 = (self.places.len() + 1) as u32;
        let name = p.name();
        let pinfo = PInfo::entered(pinfo, id, name);
        // The block is made here, where `p` came in: Verus follows a boxed
        // process through one handing-over and no further.
        let pcb = Pcb { p, pinfo, ops_res: OpsRes::Empty, outbox: Vec::new() };
        let ghost block = pcb@;
        proof {
            assert(pcb.p =~= p);
            assert(block.p == pcb.p);
        }
        self.admit_block(pcb);
        assert(newest(self@).p =~= p);
    }

    /// Takes in a control block that was made for the next free number: its
    /// process is ready, in the injector.
    fn admit_block(&mut self, pcb: Pcb)
        requires
            old(self).wf(),
            old(self)@.places.len() + 1 < u32::MAX,
            pcb@.pinfo.id == old(self)@.places.len() + 1,
            pcb@.pinfo.wf(),
            !pcb@.pinfo.done,
        ensures
            final(self).wf(),
            final(self)@ == old(self)@.after_admission(pcb@),
            newest(final(self)@) == pcb@,
    {
        let id = pcb.pinfo.id;
        let ghost pv = pcb@;
        self.records.push(pcb.pinfo.snapshot());
        self.slots.push(Some(pcb));
        self.places.push(Place::Ready);
        self.ready.inject(id);
        self.share.processes = self.share.processes + 1;
        proof {
            let t = old(self)@.after_admission(pv);
            lemma_same_state(self@, t);
            lemma_admission_keeps_inv(old(self)@, pv);
        }
    }

    /// The number of workers.
    pub fn workers(&self) -> (n: usize)
        ensures
            n == self@.workers,
    {
        self.heaps.len()
    }

    /// The unit of time accounting, in nanoseconds.
    pub fn time_slice(&self) -> (d: u64)
        ensures
            d == self@.time_slice,
    {
        self.time_slice
    }

    /// Whether the state is to be rendered while the scheduler runs.
    pub fn print(&self) -> (on: bool)
        ensures
            on == self@.print,
    {
        self.print
    }

    /// The time between two renderings, in nanoseconds.
    pub fn print_interval(&self) -> (d: u64)
        ensures
            d == self@.print_interval,
    {
        self.print_interval
    }

    /// The counters and flags.
    pub fn share(&self) -> (share: Share)
        ensures
            share == self@.share,
    {
        self.share
    }

    /// Whether workers that wake up are to return.
    pub fn worker_exit(&self) -> (exit: bool)
        ensures
            exit == self@.worker_exit,
    {
        self.worker_exit
    }

    /// The number of threads of the offload pool: half the workers, rounded
    /// up, and one more.
    pub fn io_pool_size(&self) -> (n: usize)
        requires
            self.wf(),
        ensures
            n == (self@.workers + 1) / 2 + 1,
    {
        let workers = self.heaps.len();
        workers / 2 + workers % 2 + 1
    }

    /// The place of the process `id`, if one was admitted under that number.
    pub fn place(&self, id: u32) -> (place: Option<Place>)
        requires
            self.wf(),
        ensures
            place == if self@.valid_id(id) {
                Some(self@.place_of(id))
            } else {
                None
            },
    {
        if id >= 1 && (id as usize) <= self.places.len() {
            Some(self.places[(id - 1) as usize])
        } else {
            None
        }
    }

    /// The record of the process `id`, if one was admitted under that
    /// number: the record in its control block or, while the process is out
    /// for a poll or a file operation, the record as it was when it left.
    pub fn pinfo(&self, id: u32) -> (record: Option<&PInfo>)
        requires
            self.wf(),
        ensures
            match record {
                Some(pinfo) => self@.valid_id(id) && pinfo@ == self@.shown(id),
                None => !self@.valid_id(id),
            },
    {
        if id >= 1 && (id as usize) <= self.slots.len() {
            match &self.slots[(id - 1) as usize] {
                Some(pcb) => Some(&pcb.pinfo),
                None => Some(&self.records[(id - 1) as usize]),
            }
        } else {
            None
        }
    }

    /// The state of worker `w`.
    pub fn worker_info(&self, w: usize) -> (info: &WorkerInfo)
        requires
            self.wf(),
            w < self@.workers,
        ensures
            *info == self@.worker_infos[w as int],
    {
        &self.worker_infos[w]
    }

    /// The number of entries in the run queue of worker `w`.
    pub fn heap_len(&self, w: usize) -> (n: usize)
        requires
            w < self@.workers,
        ensures
            n == self@.heaps[w as int].len(),
    {
        self.heaps[w].len()
    }

    /// The number of workers that are not parked.
    pub fn running_workers(&self) -> (n: usize)
        requires
            self.wf(),
        ensures
            n == busy_count(self@.worker_infos),
    {
        let total = self.worker_infos.len();
        let mut n: usize = 0;
        let mut w: usize = 0;
        assert(self.worker_infos@.take(0) =~= Seq::<WorkerInfo>::empty());
        while w < total
            invariant
                w <= total,
                total == self.worker_infos@.len(),
                n <= w,
                n == busy_count(self.worker_infos@.take(w as int)),
            decreases total - w,
        {
            proof {
                let upto = self.worker_infos@.take(w + 1);
                assert(upto.drop_last() =~= self.worker_infos@.take(w as int));
                assert(upto.last() == self.worker_infos@[w as int]);
            }
            if !self.worker_infos[w].idle {
                n += 1;
            }
            w += 1;
        }
        assert(self.worker_infos@.take(total as int) =~= self.worker_infos@);
        n
    }

    /// The number of processes that a worker drains at most in one round.
    pub fn batch_size(&self) -> (n: usize)
        requires
            self.wf(),
        ensures
            n == batch_of(self@.share.processes as nat, self@.share.done as nat, self@.workers),
    {
        proof {
            lemma_retired_count_bound(self@.places);
        }
        let remain = self.share.processes - self.share.done;
        let avg = remain / self.heaps.len();
        if avg < 1 {
            1
        } else {
            avg
        }
    }

    /// Moves one process from the ready set into the run queue of worker
    /// `w` and returns its number: the process in the slot of the worker's
    /// local queue or, with an empty slot, one of those that any worker can
    /// take, which the ready set chooses. The entry in the run queue carries
    /// the key that the process has now. Nothing moves exactly where the
    /// ready set has nothing for the worker.
    pub fn worker_drain(&mut self, w: usize) -> (moved: Option<u32>)
        requires
            old(self).wf(),
            w < old(self)@.workers,
        ensures
            final(self).wf(),
            moved is None <==> old(self)@.available(w) == 0,
            match moved {
                Some(id) => {
                    &&& old(self)@.valid_id(id)
                    &&& match old(self)@.kept[w as int] {
                        Some(front) => id == front,
                        None => old(self)@.place_of(id) is Ready,
                    }
                    &&& exists|at: int|
                        0 <= at <= old(self)@.heaps[w as int].len() && #[trigger] old(
                            self,
                        )@.after_drain(w, id, at) == final(self)@
                },
                None => final(self)@ == old(self)@,
            },
    {
        match self.ready.pop(w) {
            None => {
                proof {
                    lemma_same_state(self@, old(self)@);
                }
                None
            },
            Some(id) => {
                proof {
                    assert(old(self)@.ready_ok(id));
                    assert(old(self)@.kept_ok(w as int));
                    assert(old(self)@.slot_ok(id - 1));
                    assert(old(self)@.heap_ok(w as int));
                    if old(self)@.kept[w as int] is None {
                        assert(old(self)@.ready.len() > 0) by {
                            vstd::multiset::axiom_count_le_len(old(self)@.ready, id);
                        }
                    }
                }
                let i: usize = (id - 1) as usize;
                let key = match &self.slots[i] {
                    Some(pcb) => pcb.pinfo.metric.value(),
                    None => 0,
                };
                self.heaps[w].push(key, id);
                self.places.set(i, Place::Heap(w));
                proof {
                    let before = old(self)@.heaps[w as int];
                    let after = self.heaps@[w as int]@;
                    let at = choose|at: int|
                        0 <= at <= before.len() && #[trigger] before.insert(at, (key, id)) == after;
                    let t = old(self)@.after_drain(w, id, at);
                    lemma_same_state(self@, t);
                    lemma_drain_keeps_inv(old(self)@, w, id, at);
                }
                Some(id)
            },
        }
    }

    /// One round of draining for worker `w`: moves processes from the ready
    /// set into the worker's run queue until the batch is full or the ready
    /// set has nothing more for the worker, and returns how many it moved.
    /// The ready set chooses the processes.
    pub fn worker_fill(&mut self, w: usize) -> (moved: usize)
        requires
            old(self).wf(),
            w < old(self)@.workers,
        ensures
            final(self).wf(),
            moved == vstd::math::min(
                batch_of(
                    old(self)@.share.processes as nat,
                    old(self)@.share.done as nat,
                    old(self)@.workers,
                ) as int,
                old(self)@.available(w) as int,
            ),
            drained_into(old(self)@, final(self)@, w, moved as nat),
    {
        let batch = self.batch_size();
        let mut moved: usize = 0;
        proof {
            assert(self@.heaps[w as int] =~= old(self)@.heaps[w as int]);
        }
        while moved < batch
            invariant
                self.wf(),
                w < self@.workers,
                moved <= batch,
                batch == batch_of(
                    old(self)@.share.processes as nat,
                    old(self)@.share.done as nat,
                    old(self)@.workers,
                ),
                self@.available(w) + moved == old(self)@.available(w),
                drained_into(old(self)@, self@, w, moved as nat),
            decreases batch - moved,
        {
            let ghost mid = self@;
            match self.worker_drain(w) {
                None => {
                    return moved;
                },
                Some(id) => {
                    proof {
                        let at = choose|at: int|
                            0 <= at <= mid.heaps[w as int].len() && #[trigger] mid.after_drain(
                                w,
                                id,
                                at,
                            ) == self@;
                        assert(self@.heaps[w as int].len() == mid.heaps[w as int].len() + 1);
                        assert forall|v: int| 0 <= v < self@.heaps.len() && v != w implies (
                        #[trigger] self@.heaps[v]) == old(self)@.heaps[v] by {
                            assert(self@.heaps[v] == mid.heaps[v]);
                        }
                        assert forall|i: int| 0 <= i < self@.places.len() implies moved_or_same(
                            old(self)@.places[i],
                            #[trigger] self@.places[i],
                            w,
                        ) by {
                            assert(moved_or_same(old(self)@.places[i], mid.places[i], w));
                            assert(mid.kept_ok(w as int));
                        }
                        assert forall|v: int| 0 <= v < self@.kept.len() && v != w implies (
                        #[trigger] self@.kept[v]) == old(self)@.kept[v] by {
                            assert(self@.kept[v] == mid.kept[v]);
                        }
                        if mid.kept[w as int] is None {
                            assert(mid.ready_ok(id));
                            lemma_remove_len(mid.ready, id);
                        }
                    }
                    moved += 1;
                },
            }
        }
        moved
    }

    /// Takes the process with the lowest key out of the run queue of worker
    /// `w`, for the worker to poll. The control block that comes out is the
    /// one that the scheduler held, with the process that it held. With an
    /// empty run queue nothing changes and nothing is returned.
    pub fn worker_next(&mut self, w: usize) -> (next: Option<Pcb>)
        requires
            old(self).wf(),
            w < old(self)@.workers,
        ensures
            final(self).wf(),
            match next {
                Some(pcb) => {
                    let e = old(self)@.heaps[w as int].last();
                    &&& old(self)@.heaps[w as int].len() > 0
                    &&& old(self)@.slots[e.1 - 1] == Some(pcb@)
                    &&& forall|k: int|
                        0 <= k < old(self)@.heaps[w as int].len() ==> e.0 <= (#[trigger] old(
                            self,
                        )@.heaps[w as int][k]).0
                    &&& final(self)@ == old(self)@.after_take(w)
                    &&& final(self)@.place_of(pcb@.pinfo.id) == Place::Running(w)
                    &&& pcb@.pinfo.wf()
                    &&& !pcb@.pinfo.done
                },
                None => old(self)@.heaps[w as int].len() == 0 && final(self)@ == old(self)@,
            },
    {
        proof {
            assert(self@.heap_ok(w as int));
        }
        match self.heaps[w].pop() {
            None => {
                proof {
                    lemma_same_state(self@, old(self)@);
                }
                None
            },
            Some(e) => {
                proof {
                    lemma_take_keeps_inv(old(self)@, w);
                    assert(old(self)@.slot_ok(e.1 - 1));
                }
                let i: usize = (e.1 - 1) as usize;
                let next = self.slots[i].take();
                match &next {
                    Some(pcb) => {
                        self.records[i] = pcb.pinfo.snapshot();
                    },
                    None => {},
                }
                self.places.set(i, Place::Running(w));
                proof {
                    let t = old(self)@.after_take(w);
                    lemma_same_state(self@, t);
                }
                next
            },
        }
    }

    /// Worker `w` has found nothing to run and parks: it is shown as idle.
    pub fn worker_parks(&mut self, w: usize)
        requires
            old(self).wf(),
            w < old(self)@.workers,
        ensures
            final(self).wf(),
            final(self)@ == (SchedView {
                worker_infos: old(self)@.worker_infos.update(
                    w as int,
                    WorkerInfo { idle: true, ..old(self)@.worker_infos[w as int] },
                ),
                ..old(self)@
            }),
    {
        self.worker_infos[w].park();
        proof {
            let t = SchedView {
                worker_infos: old(self)@.worker_infos.update(
                    w as int,
                    WorkerInfo { idle: true, ..old(self)@.worker_infos[w as int] },
                ),
                ..old(self)@
            };
            lemma_same_state(self@, t);
            lemma_frame_keeps_inv(old(self)@, self@);
        }
    }

    /// Worker `w` has woken up after `parked` nanoseconds. Where the workers
    /// are to return, nothing changes and `true` comes back: the worker
    /// returns. Otherwise the time is added to the worker's waiting time,
    /// the worker is busy again, and `false` comes back.
    pub fn worker_wakes(&mut self, w: usize, parked: u64) -> (exit: bool)
        requires
            old(self).wf(),
            w < old(self)@.workers,
        ensures
            final(self).wf(),
            exit == old(self)@.worker_exit,
            final(self)@ == if exit {
                old(self)@
            } else {
                SchedView {
                    worker_infos: old(self)@.worker_infos.update(
                        w as int,
                        woken(old(self)@.worker_infos[w as int], parked),
                    ),
                    ..old(self)@
                }
            },
    {
        if self.worker_exit {
            return true;
        }
        self.worker_infos[w].unpark(parked);
        proof {
            let t = SchedView {
                worker_infos: old(self)@.worker_infos.update(
                    w as int,
                    woken(old(self)@.worker_infos[w as int], parked),
                ),
                ..old(self)@
            };
            lemma_same_state(self@, t);
            lemma_frame_keeps_inv(old(self)@, self@);
        }
        false
    }

    /// Carries out what the poll of `pcb` by worker `w` has asked for.
    ///
    /// A finished process is retired; with it the last unfinished one, the
    /// shutdown ticket is issued. A file operation takes the process to the
    /// offload pool. After any other request the priority is changed as
    /// asked and the process is ready again: in the injector where `choice`
    /// is 0, else in the local queue of `w`. The caller draws `choice` from
    /// `0..=workers` and `pick` from anywhere, both at random; `pick` selects
    /// the worker to wake. A control block that goes back into the scheduler
    /// or on to the offload pool holds the process that it came with.
    pub fn dispatch(&mut self, w: usize, pcb: Pcb, res: PollRes, choice: usize, pick: usize) -> (action:
        Action)
        requires
            old(self).wf(),
            w < old(self)@.workers,
            old(self)@.valid_id(pcb@.pinfo.id),
            old(self)@.place_of(pcb@.pinfo.id) == Place::Running(w),
            pcb@.pinfo.wf(),
            !pcb@.pinfo.done,
        ensures
            final(self).wf(),
            final(self)@ == dispatched(old(self)@, w, pcb@, res, choice),
            answers(action, old(self)@, w, pcb, res, choice, pick),
    {
        let id = pcb.pinfo.id;
        let i: usize = (id - 1) as usize;
        let ghost given = pcb@;
        match res {
            PollRes::Ready => {
                let mut pcb = pcb;
                pcb.done();
                proof {
                    lemma_retire_keeps_inv(old(self)@, given);
                }
                self.slots[i] = Some(pcb);
                self.places.set(i, Place::Retired);
                self.share.done = self.share.done + 1;
                proof {
                    let t = old(self)@.after_retire(given);
                    lemma_same_state(self@, t);
                }
                if self.share.done == self.share.processes {
                    Action::Retired { shutdown: Some(self.share.processes) }
                } else {
                    Action::Retired { shutdown: None }
                }
            },
            PollRes::Polling(Op::FileOp(op)) => {
                self.places.set(i, Place::InFlight);
                proof {
                    let t = old(self)@.after_offload(id);
                    lemma_same_state(self@, t);
                    lemma_offload_keeps_inv(old(self)@, id);
                }
                Action::Offload { pcb, op }
            },
            PollRes::Polling(op) => {
                let mut pcb = pcb;
                let log = pcb.pinfo.announce(&op);
                pcb.pinfo.adjust(&op);
                let ghost pv = pcb@;
                self.slots[i] = Some(pcb);
                let global = choice == 0;
                if global {
                    self.places.set(i, Place::Ready);
                    self.ready.inject(id);
                    proof {
                        let t = old(self)@.after_inject(pv);
                        lemma_same_state(self@, t);
                        lemma_inject_keeps_inv(old(self)@, pv);
                    }
                } else {
                    proof {
                        assert(old(self)@.kept_ok(w as int));
                    }
                    self.places.set(i, Place::Slot(w));
                    match self.ready.slot(w) {
                        Some(previous) => {
                            self.places.set((previous - 1) as usize, Place::Ready);
                        },
                        None => {},
                    }
                    self.ready.keep(w, id);
                    proof {
                        let t = old(self)@.after_keep(w, pv);
                        lemma_same_state(self@, t);
                        lemma_keep_keeps_inv(old(self)@, w, pv);
                    }
                }
                Action::Requeued { global, wake: peer(w, pick, self.heaps.len()), log }
            },
        }
    }

    /// Takes back the process `pcb` from the offload pool with the outcome
    /// `res` of its file operation: the outcome waits for the next poll, the
    /// timeline gets the marker of a file operation, and the process is
    /// ready again, in the injector, in the control block that it came with.
    /// Returns the worker to wake, which the caller's random `pick` selects
    /// among all workers.
    pub fn io_complete(&mut self, pcb: Pcb, res: OpsRes, pick: usize) -> (wake: usize)
        requires
            old(self).wf(),
            old(self)@.valid_id(pcb@.pinfo.id),
            old(self)@.place_of(pcb@.pinfo.id) is InFlight,
            pcb@.pinfo.wf(),
            !pcb@.pinfo.done,
        ensures
            final(self).wf(),
            final(self)@ == old(self)@.after_inject(completed(pcb@, res)),
            wake == pick as nat % old(self)@.workers,
    {
        let id = pcb.pinfo.id;
        let i: usize = (id - 1) as usize;
        let mut pcb = pcb;
        pcb.ops_res = res;
        pcb.pinfo.mark(OpsType::File);
        let ghost pv = pcb@;
        self.slots[i] = Some(pcb);
        self.places.set(i, Place::Ready);
        self.ready.inject(id);
        proof {
            let t = old(self)@.after_inject(pv);
            lemma_same_state(self@, t);
            lemma_inject_keeps_inv(old(self)@, pv);
        }
        pick % self.heaps.len()
    }

    /// Takes a shutdown ticket. A ticket that names the present number of
    /// admitted processes, all of them finished, stops the scheduler:
    /// workers that wake up from now on return, and the scheduler is marked
    /// done. Any other ticket was issued before a later admission, or not by
    /// this scheduler, and changes nothing.
    pub fn join(&mut self, ticket: usize) -> (stopped: bool)
        requires
            old(self).wf(),
        ensures
            final(self).wf(),
            stopped == (ticket == old(self)@.share.processes && old(self)@.share.done == old(
                self,
            )@.share.processes),
            final(self)@ == if stopped {
                SchedView {
                    worker_exit: true,
                    share: Share { scheduler_done: true, ..old(self)@.share },
                    ..old(self)@
                }
            } else {
                old(self)@
            },
    {
        if ticket != self.share.processes || self.share.done != self.share.processes {
            return false;
        }
        self.worker_exit = true;
        self.share.scheduler_done = true;
        proof {
            let t = SchedView {
                worker_exit: true,
                share: Share { scheduler_done: true, ..old(self)@.share },
                ..old(self)@
            };
            lemma_same_state(self@, t);
            lemma_frame_keeps_inv(old(self)@, t);
        }
        true
    }

    /// One look of the renderer at the end of a frame: where the scheduler
    /// is done and every admitted process has finished, the final state has
    /// been shown, which is recorded and answered with `true`.
    pub fn printer_tick(&mut self) -> (all_done: bool)
        requires
            old(self).wf(),
        ensures
            final(self).wf(),
            all_done == (old(self)@.share.scheduler_done && old(self)@.share.done == old(
                self,
            )@.share.processes),
            final(self)@ == if all_done {
                SchedView { share: Share { printer_done: true, ..old(self)@.share }, ..old(self)@ }
            } else {
                old(self)@
            },
    {
        if !(self.share.scheduler_done && self.share.done == self.share.processes) {
            return false;
        }
        self.share.printer_done = true;
        proof {
            let t = SchedView {
                share: Share { printer_done: true, ..old(self)@.share },
                ..old(self)@
            };
            lemma_same_state(self@, t);
            lemma_frame_keeps_inv(old(self)@, t);
        }
        true
    }

    /// Whether `join` may return: the scheduler has stopped, the renderer,
    /// if there is one, has shown the final state, and the message forwarder
    /// has delivered everything.
    pub fn finished(&self, msg_done: bool) -> (over: bool)
        ensures
            over == (self@.share.scheduler_done && (self@.share.printer_done || !self@.print)
                && msg_done),
    {
        self.share.scheduler_done && (self.share.printer_done || !self.print) && msg_done
    }
}

/// What the scheduler tells the worker to do after a poll.
pub enum Action {
    /// The process has finished. With the last unfinished process the
    /// shutdown ticket comes: the number of admitted processes.
    Retired { shutdown: Option<usize> },
    /// The process is ready again, in the injector if `global`, else in the
    /// worker's local queue. `wake` is the worker to wake, `log` the line to
    /// send to the message sink.
    Requeued { global: bool, wake: Option<usize>, log: Option<String> },
    /// The process goes to the offload pool with this file operation.
    Offload { pcb: Pcb, op: FileOp },
}

/// The state after the poll of a process by worker `w` has been dispatched:
/// a finished process is retired, one that asks for a file operation is with
/// the offload pool, and any other is ready again with its priority
/// adjusted, in the injector where `choice` is 0 and in the local queue of
/// `w` otherwise.
pub open spec fn dispatched(s: SchedView, w: usize, pcb: PcbView, res: PollRes, choice: usize) -> SchedView {
    match res {
        PollRes::Ready => s.after_retire(pcb),
        PollRes::Polling(Op::FileOp(_)) => s.after_offload(pcb.pinfo.id),
        PollRes::Polling(op) => if choice == 0 {
            s.after_inject(PcbView { pinfo: pcb.pinfo.adjusted(op), ..pcb })
        } else {
            s.after_keep(w, PcbView { pinfo: pcb.pinfo.adjusted(op), ..pcb })
        },
    }
}

/// Whether `action` is the answer to the poll result `res` of the process
/// `pcb`, polled by worker `w` in the state `s`.
pub open spec fn answers(
    action: Action,
    s: SchedView,
    w: usize,
    pcb: Pcb,
    res: PollRes,
    choice: usize,
    pick: usize,
) -> bool {
    match res {
        PollRes::Ready => action == (Action::Retired {
            shutdown: if s.share.done + 1 == s.share.processes {
                Some(s.share.processes)
            } else {
                None
            },
        }),
        PollRes::Polling(Op::FileOp(op)) => action == (Action::Offload { pcb, op }),
        PollRes::Polling(op) => match action {
            Action::Requeued { global, wake, log } => {
                &&& global == (choice == 0)
                &&& wake == peer_of(w, pick, s.workers)
                &&& line_view(log) == priority_line(label(pcb@.pinfo.name), op)
            },
            _ => false,
        },
    }
}

/// The control block of a process that comes back from the offload pool
/// with the outcome `res`.
pub open spec fn completed(pcb: PcbView, res: OpsRes) -> PcbView {
    PcbView { pinfo: pcb.pinfo.marked(OpsType::File), ops_res: res, ..pcb }
}

fn peer(w: usize, pick: usize, workers: usize) -> (p: Option<usize>)
    requires
        w < workers,
    ensures
        p == peer_of(w, pick, workers as nat),
{
    if workers <= 1 {
        None
    } else {
        let j = pick % (workers - 1);
        if j < w {
            Some(j)
        } else {
            Some(j + 1)
        }
    }
}

/// The number of workers among these that are not parked.
pub open spec fn busy_count(infos: Seq<WorkerInfo>) -> nat
    decreases infos.len(),
{
    if infos.len() == 0 {
        0
    } else {
        busy_count(infos.drop_last()) + if infos.last().idle {
            0nat
        } else {
            1nat
        }
    }
}

/// A worker's state after a park of `parked` nanoseconds: busy, with the
/// time added to its waiting time, which stops at the largest `u64`.
pub open spec fn woken(info: WorkerInfo, parked: u64) -> WorkerInfo {
    WorkerInfo {
        idle: false,
        waiting_time: if info.waiting_time + parked > u64::MAX {
            u64::MAX
        } else {
            (info.waiting_time + parked) as u64
        },
        ..info
    }
}

/// A place after a round of draining by worker `w`: as before, or the run
/// queue of `w` where the process was ready or in the slot of `w`.
pub open spec fn moved_or_same(before: Place, after: Place, w: usize) -> bool {
    after == before || ((before is Ready || before == Place::Slot(w)) && after == Place::Heap(w))
}

/// What a round of draining by worker `w` changes: `moved` processes that
/// were ready or in the slot of `w` are now in the run queue of `w`, which
/// has grown by as many entries, and the slot of `w` is empty if any process
/// has moved. The other run queues and slots, the control blocks, the
/// counters, the flags and the workers' states are as before.
pub open spec fn drained_into(before: SchedView, after: SchedView, w: usize, moved: nat) -> bool {
    &&& after.places.len() == before.places.len()
    &&& forall|i: int|
        0 <= i < after.places.len() ==> moved_or_same(
            before.places[i],
            #[trigger] after.places[i],
            w,
        )
    &&& after.heaps.len() == before.heaps.len()
    &&& after.heaps[w as int].len() == before.heaps[w as int].len() + moved
    &&& forall|v: int|
        0 <= v < after.heaps.len() && v != w ==> (#[trigger] after.heaps[v]) == before.heaps[v]
    &&& after.kept.len() == before.kept.len()
    &&& forall|v: int|
        0 <= v < after.kept.len() && v != w ==> (#[trigger] after.kept[v]) == before.kept[v]
    &&& moved > 0 ==> after.kept[w as int] is None
    &&& moved == 0 ==> after.kept[w as int] == before.kept[w as int]
    &&& after.slots == before.slots
    &&& after.records == before.records
    &&& after.share == before.share
    &&& after.worker_infos == before.worker_infos
    &&& after.worker_exit == before.worker_exit
    &&& after.workers == before.workers
    &&& after.time_slice == before.time_slice
    &&& after.print == before.print
    &&& after.print_interval == before.print_interval
}

/// Two states with the same content are one state.
proof fn lemma_same_state(a: SchedView, b: SchedView)
    requires
        a.time_slice == b.time_slice,
        a.print == b.print,
        a.print_interval == b.print_interval,
        a.workers == b.workers,
        a.places =~= b.places,
        a.slots =~= b.slots,
        a.records =~= b.records,
        a.ready =~= b.ready,
        a.kept =~= b.kept,
        a.heaps =~= b.heaps,
        a.share == b.share,
        a.worker_exit == b.worker_exit,
        a.worker_infos =~= b.worker_infos,
    ensures
        a == b,
{
}

/// A change of the settings, the flags or the workers' states alone keeps
/// the invariant.
pub proof fn lemma_frame_keeps_inv(s: SchedView, t: SchedView)
    requires
        s.inv(),
        t.workers == s.workers,
        t.kept == s.kept,
        t.places == s.places,
        t.slots == s.slots,
        t.records == s.records,
        t.ready == s.ready,
        t.heaps == s.heaps,
        t.share.processes == s.share.processes,
        t.share.done == s.share.done,
        t.worker_infos.len() == s.worker_infos.len(),
    ensures
        t.inv(),
{
    assert forall|i: int| 0 <= i < t.places.len() implies #[trigger] t.slot_ok(i) by {
        assert(s.slot_ok(i));
    }
    assert forall|i: int| 0 <= i < t.places.len() implies #[trigger] t.record_ok(i) by {
        assert(s.record_ok(i));
    }
    assert forall|i: int| 0 <= i < t.places.len() implies #[trigger] t.place_ok(i) by {
        assert(s.place_ok(i));
    }
    assert forall|id: u32| #[trigger] t.ready_ok(id) by {
        assert(s.ready_ok(id));
    }
    assert forall|w: int| 0 <= w < t.heaps.len() implies #[trigger] t.heap_ok(w) by {
        assert(s.heap_ok(w));
        assert forall|k: int| 0 <= k < t.heaps[w].len() implies #[trigger] t.entry_ok(w, k) by {
            assert(s.entry_ok(w, k));
        }
    }
    assert forall|w: int| 0 <= w < t.kept.len() implies #[trigger] t.kept_ok(w) by {
        assert(s.kept_ok(w));
    }
}

/// Taking out one of the items leaves one item less.
pub proof fn lemma_remove_len(m: Multiset<u32>, x: u32)
    requires
        m.count(x) > 0,
    ensures
        m.remove(x).len() == m.len() - 1,
{
    broadcast use vstd::multiset::group_multiset_axioms;

    assert(m.remove(x).insert(x) =~= m);
    vstd::multiset::lemma_insert_len(m.remove(x), x);
}

} // verus!
