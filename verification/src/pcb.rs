//! The process control block: a process, its record and what a poll costs it.

use vstd::prelude::*;
use vstd::string::StringExecFns;
use std::time::Instant;
use crate::clock::elapsed_nanos;
use crate::metric::Metric;
use crate::ops::Op;
use crate::ops::OpsRes;
use crate::ops::OpsType;
use crate::ops::Stone;
use crate::text::decimal;
use crate::text::push_decimal;
use crate::timeline::coalesced;
use crate::timeline::lemma_with_op;
use crate::timeline::lemma_with_time;
use crate::timeline::record_op;
use crate::timeline::record_time;
use crate::timeline::time_total;
use crate::timeline::with_op;
use crate::timeline::with_time;

verus! {

/// The priority of a process that was admitted without one.
pub const INIT_PRIORITY: i32 = 0;

/// The number of parts into which `run_slices` divides one time slice.
pub const SLICE_PARTS: u64 = 1000;

/// What a poll of a process gives.
#[derive(Debug)]
pub enum PollRes {
    /// The process is not done: handle the request, then poll it again.
    Polling(Op),
    /// The process is done and is never polled again.
    Ready,
}

/// A step machine that the scheduler polls until it is ready.
pub trait Process: Send + Sync {
    /// The label under which the process is shown. It may change from poll to
    /// poll.
    fn name(&self) -> String;

    /// Advances the process by one step. `outbox` takes the messages that the
    /// step wants delivered; `ops_res` is the outcome of the file operation
    /// that the last step asked for, or `OpsRes::Empty`.
    fn poll(&mut self, outbox: &mut Vec<String>, ops_res: OpsRes) -> PollRes;

    /// The buffer that a read fills, if the process has one. A process that
    /// does not say otherwise has none.
    fn file_buf(&mut self) -> (buf: Option<&mut String>)
        default_ensures
            buf is None,
    {
        None
    }
}

/// The durable record of a process.
#[derive(Debug)]
pub struct PInfo {
    /// The number under which the process was admitted; 0 before admission.
    pub id: u32,
    pub metric: Metric,
    /// The label of the process at its last poll.
    pub name: Option<String>,
    /// The time slices that the process has run, in thousandths of a slice.
    pub run_slices: u64,
    /// Whether the process has finished.
    pub done: bool,
    /// The timeline of the process.
    pub stones: Vec<Stone>,
}

/// The mathematical content of a `PInfo`.
pub struct PInfoView {
    pub id: u32,
    pub metric: Metric,
    pub name: Option<Seq<char>>,
    pub run_slices: u64,
    pub done: bool,
    pub stones: Seq<Stone>,
}

/// The part of `elapsed` that still fits on top of `running_time`.
pub open spec fn charge(running_time: u64, elapsed: u64) -> u64 {
    if running_time + elapsed > u64::MAX {
        (u64::MAX - running_time) as u64
    } else {
        elapsed
    }
}

/// `d` nanoseconds in thousandths of a slice of `time_slice` nanoseconds,
/// rounded down and cut off at the largest `u64`. An empty slice makes any
/// positive time count as the largest value.
pub open spec fn slices_of(d: u64, time_slice: u64) -> u64 {
    if time_slice == 0 {
        if d == 0 {
            0
        } else {
            u64::MAX
        }
    } else if d * 1000 / (time_slice as int) > u64::MAX {
        u64::MAX
    } else {
        (d * 1000 / (time_slice as int)) as u64
    }
}

/// The sum of two counts, cut off at the largest `u64`.
pub open spec fn capped_sum(a: u64, b: u64) -> u64 {
    if a + b > u64::MAX {
        u64::MAX
    } else {
        (a + b) as u64
    }
}

/// The priority after a request: a sum or difference that leaves the range of
/// `i32` stops at its end.
pub open spec fn priority_after(priority: i32, op: Op) -> i32 {
    match op {
        Op::AddPriority(x) => clamp_priority(priority + x),
        Op::SubPriority(x) => clamp_priority(priority - x),
        Op::SetPriority(x) => x,
        _ => priority,
    }
}

/// The label under which a record is reported: its name, or nothing where it
/// has none yet.
pub open spec fn label(name: Option<Seq<char>>) -> Seq<char> {
    match name {
        Some(n) => n,
        None => Seq::empty(),
    }
}

/// The line that reports a priority request of the process with this label;
/// other requests are not reported.
pub open spec fn priority_line(name: Seq<char>, op: Op) -> Option<Seq<char>> {
    match op {
        Op::AddPriority(x) => Some(name + " ADD PRIORITY => "@ + decimal(x as int)),
        Op::SubPriority(x) => Some(name + " SUB PRIORITY => "@ + decimal(x as int)),
        Op::SetPriority(x) => Some(name + " SET PRIORITY => "@ + decimal(x as int)),
        _ => None,
    }
}

/// The text of a line, if there is one.
pub open spec fn line_view(line: Option<String>) -> Option<Seq<char>> {
    match line {
        Some(l) => Some(l@),
        None => None,
    }
}

/// The nearest `i32`.
pub open spec fn clamp_priority(p: int) -> i32 {
    if p > i32::MAX {
        i32::MAX
    } else if p < i32::MIN {
        i32::MIN
    } else {
        p as i32
    }
}

impl PInfoView {
    /// The record's invariant: no two stretches of running time stand side
    /// by side on the timeline, and the running time is their sum.
    pub open spec fn wf(self) -> bool {
        &&& coalesced(self.stones)
        &&& time_total(self.stones) == self.metric.running_time
    }

    /// The record after a poll that took `elapsed` nanoseconds and left the
    /// process with the label `name`.
    pub open spec fn accounted(self, name: Seq<char>, elapsed: u64, time_slice: u64) -> PInfoView {
        let d = charge(self.metric.running_time, elapsed);
        PInfoView {
            id: self.id,
            metric: Metric {
                priority: self.metric.priority,
                running_time: (self.metric.running_time + d) as u64,
            },
            name: Some(name),
            run_slices: capped_sum(self.run_slices, slices_of(d, time_slice)),
            done: self.done,
            stones: with_time(self.stones, d),
        }
    }

    /// The record after a priority request.
    pub open spec fn adjusted(self, op: Op) -> PInfoView {
        PInfoView {
            metric: Metric {
                priority: priority_after(self.metric.priority, op),
                running_time: self.metric.running_time,
            },
            ..self
        }
    }

    /// The record after an offloaded operation of the given kind.
    pub open spec fn marked(self, kind: OpsType) -> PInfoView {
        PInfoView { stones: with_op(self.stones, kind), ..self }
    }

    /// The record of a finished process.
    pub open spec fn finished(self) -> PInfoView {
        PInfoView { done: true, ..self }
    }
}

impl View for PInfo {
    type V = PInfoView;

    open spec fn view(&self) -> PInfoView {
        PInfoView {
            id: self.id,
            metric: self.metric,
            name: match self.name {
                Some(n) => Some(n@),
                None => None,
            },
            run_slices: self.run_slices,
            done: self.done,
            stones: self.stones@,
        }
    }
}

impl Default for PInfo {
    /// The record of a process that has not been admitted yet.
    fn default() -> (pinfo: PInfo)
        ensures
            pinfo@ == (PInfoView {
                id: 0,
                metric: Metric { priority: INIT_PRIORITY, running_time: 0 },
                name: None,
                run_slices: 0,
                done: false,
                stones: Seq::empty(),
            }),
            pinfo@.wf(),
    {
        PInfo::new()
    }
}

impl PInfo {
    /// The record of a process that has not been admitted yet.
    pub fn new() -> (pinfo: PInfo)
        ensures
            pinfo@ == (PInfoView {
                id: 0,
                metric: Metric { priority: INIT_PRIORITY, running_time: 0 },
                name: None,
                run_slices: 0,
                done: false,
                stones: Seq::empty(),
            }),
            pinfo@.wf(),
    {
        PInfo {
            id: 0,
            metric: Metric { priority: INIT_PRIORITY, running_time: 0 },
            name: None,
            run_slices: 0,
            done: false,
            stones: Vec::new(),
        }
    }

    /// The record `pinfo` as it binds a process: with the number `id` and the
    /// label `name`.
    pub fn entered(pinfo: PInfo, id: u32, name: String) -> (bound: PInfo)
        ensures
            bound@ == (PInfoView { id, name: Some(name@), ..pinfo@ }),
    {
        let mut bound = pinfo;
        bound.id = id;
        bound.name = Some(name);
        bound
    }

    /// A copy of the record.
    pub fn snapshot(&self) -> (copy: PInfo)
        ensures
            copy@ == self@,
    {
        let mut stones: Vec<Stone> = Vec::new();
        let n = self.stones.len();
        let mut i: usize = 0;
        while i < n
            invariant
                i <= n,
                n == self.stones@.len(),
                stones@ == self.stones@.take(i as int),
            decreases n - i,
        {
            stones.push(self.stones[i]);
            assert(stones@ =~= self.stones@.take(i + 1));
            i += 1;
        }
        assert(self.stones@.take(n as int) =~= self.stones@);
        let name = match &self.name {
            Some(n) => Some(n.clone()),
            None => None,
        };
        PInfo {
            id: self.id,
            metric: self.metric,
            name,
            run_slices: self.run_slices,
            done: self.done,
            stones,
        }
    }

    /// Whether the record is consistent.
    pub fn is_consistent(&self) -> (ok: bool)
        ensures
            ok == self@.wf(),
    {
        let n = self.stones.len();
        let mut sum: u64 = 0;
        let mut over = false;
        let mut paired = false;
        let mut i: usize = 0;
        assert(self.stones@.take(0) =~= Seq::<Stone>::empty());
        while i < n
            invariant
                i <= n,
                n == self.stones@.len(),
                !over ==> sum == time_total(self.stones@.take(i as int)),
                over ==> time_total(self.stones@.take(i as int)) > u64::MAX,
                paired == !coalesced(self.stones@.take(i as int)),
            decreases n - i,
        {
            proof {
                let upto = self.stones@.take(i + 1);
                let sofar = self.stones@.take(i as int);
                assert(upto.drop_last() =~= sofar);
                assert(upto.last() == self.stones@[i as int]);
                if i > 0 {
                    assert(sofar[i - 1] == self.stones@[i - 1]);
                    assert(upto[i - 1] == self.stones@[i - 1]);
                }
                if coalesced(upto) {
                    assert forall|k: int| 0 <= k < sofar.len() - 1 implies !(#[trigger] sofar[k] is Time
                        && sofar[k + 1] is Time) by {
                        assert(upto[k] == sofar[k] && upto[k + 1] == sofar[k + 1]);
                    }
                }
                if coalesced(sofar) && !(i > 0 && self.stones@[i - 1] is Time && self.stones@[i as int] is Time) {
                    assert forall|k: int| 0 <= k < upto.len() - 1 implies !(#[trigger] upto[k] is Time
                        && upto[k + 1] is Time) by {
                        if k < sofar.len() - 1 {
                            assert(upto[k] == sofar[k] && upto[k + 1] == sofar[k + 1]);
                        }
                    }
                }
            }
            match self.stones[i] {
                Stone::Time(d) => {
                    if i > 0 {
                        match self.stones[i - 1] {
                            Stone::Time(_) => {
                                paired = true;
                            },
                            Stone::Ops(_) => {},
                        }
                    }
                    if !over {
                        if d > u64::MAX - sum {
                            over = true;
                        } else {
                            sum = sum + d;
                        }
                    }
                },
                Stone::Ops(_) => {},
            }
            i += 1;
        }
        assert(self.stones@.take(n as int) =~= self.stones@);
        !over && !paired && sum == self.metric.running_time
    }

    /// Books a poll that took `elapsed` nanoseconds: refreshes the label,
    /// adds the time to the running time and to the timeline, and the slices
    /// that it makes to `run_slices`. Time beyond what the running time can
    /// hold is dropped.
    pub fn account(&mut self, name: String, elapsed: u64, time_slice: u64)
        requires
            old(self)@.wf(),
        ensures
            final(self)@ == old(self)@.accounted(name@, elapsed, time_slice),
            final(self)@.wf(),
    {
        let room: u64 = u64::MAX - self.metric.running_time;
        let d: u64 = if elapsed > room {
            room
        } else {
            elapsed
        };
        let slices = slices(d, time_slice);
        proof {
            lemma_with_time(self.stones@, d);
        }
        self.name = Some(name);
        self.run_slices = if slices > u64::MAX - self.run_slices {
            u64::MAX
        } else {
            self.run_slices + slices
        };
        self.metric.running_time = self.metric.running_time + d;
        record_time(&mut self.stones, d);
    }

    /// Carries out a priority request; any other request changes nothing.
    pub fn adjust(&mut self, op: &Op)
        ensures
            final(self)@ == old(self)@.adjusted(*op),
            old(self)@.wf() ==> final(self)@.wf(),
    {
        let p = self.metric.priority;
        match op {
            Op::AddPriority(x) => {
                self.metric.priority = clamped(p as i64 + *x as i64);
            },
            Op::SubPriority(x) => {
                self.metric.priority = clamped(p as i64 - *x as i64);
            },
            Op::SetPriority(x) => {
                self.metric.priority = *x;
            },
            _ => {},
        }
    }

    /// The line that reports the request `op` for this record, if `op` is a
    /// priority request.
    pub fn announce(&self, op: &Op) -> (line: Option<String>)
        ensures
            line_view(line) == priority_line(label(self@.name), *op),
    {
        let (verb, amount): (&str, i32) = match op {
            Op::AddPriority(x) => (" ADD PRIORITY => ", *x),
            Op::SubPriority(x) => (" SUB PRIORITY => ", *x),
            Op::SetPriority(x) => (" SET PRIORITY => ", *x),
            _ => {
                return None;
            },
        };
        let mut line = String::new();
        match &self.name {
            Some(n) => {
                line.append(n.as_str());
            },
            None => {},
        }
        assert(line@ =~= label(self@.name));
        line.append(verb);
        push_decimal(&mut line, amount as i64);
        Some(line)
    }

    /// Puts the marker of an offloaded operation on the timeline.
    pub fn mark(&mut self, kind: OpsType)
        ensures
            final(self)@ == old(self)@.marked(kind),
            old(self)@.wf() ==> final(self)@.wf(),
    {
        proof {
            lemma_with_op(self.stones@, kind);
        }
        record_op(&mut self.stones, kind);
    }
}

/// The scheduling envelope of a process: the process with its record, the
/// outcome of its last offloaded operation and the messages it wants sent.
pub struct Pcb {
    pub p: Box<dyn Process>,
    pub pinfo: PInfo,
    pub ops_res: OpsRes,
    /// Messages that polls have left for delivery, oldest first.
    pub outbox: Vec<String>,
}

/// The mathematical content of a `Pcb`. The process in it is carried as it
/// is: nothing is known of what is inside.
pub struct PcbView<P = Box<dyn Process>> {
    pub p: P,
    pub pinfo: PInfoView,
    pub ops_res: OpsRes,
    pub outbox: Seq<String>,
}

/// The content of a control block that holds `p`.
pub open spec fn block_of<P>(p: P, pinfo: PInfoView, ops_res: OpsRes, outbox: Seq<String>) -> PcbView<
    P,
> {
    PcbView { p, pinfo, ops_res, outbox }
}

impl View for Pcb {
    type V = PcbView;

    open spec fn view(&self) -> PcbView {
        let block = block_of(self.p, self.pinfo@, self.ops_res, self.outbox@);
        block
    }
}

impl Pcb {
    /// Binds the process `p` to the record `pinfo` under the number `id`. The
    /// record takes the number and the label that the process has now. The
    /// block holds `p`: handed on into the block, the process is known to be
    /// the same in all that can be told of it.
    pub fn new(id: u32, p: Box<dyn Process>, pinfo: PInfo) -> (pcb: Pcb)
        ensures
            pcb.p =~= p,
            pcb.pinfo@.id == id,
            pcb.pinfo@.name is Some,
            pcb.pinfo@ == (PInfoView { id, name: pcb.pinfo@.name, ..pinfo@ }),
            pcb.ops_res == OpsRes::Empty,
            pcb.outbox@ == Seq::<String>::empty(),
    {
        let name = p.name();
        Pcb { p, pinfo: PInfo::entered(pinfo, id, name), ops_res: OpsRes::Empty, outbox: Vec::new() }
    }

    /// Marks the process as finished.
    pub fn done(&mut self)
        ensures
            final(self).pinfo@ == old(self).pinfo@.finished(),
            final(self).p == old(self).p,
            final(self).ops_res == old(self).ops_res,
            final(self).outbox == old(self).outbox,
    {
        self.pinfo.done = true;
    }

    /// Polls the process once, handing it the outcome of its last offloaded
    /// operation. The process decides what comes back; the record is not
    /// touched and no outcome is pending afterwards.
    pub fn step(&mut self) -> (res: PollRes)
        ensures
            final(self).pinfo == old(self).pinfo,
            final(self).ops_res == OpsRes::Empty,
    {
        let mut last = OpsRes::Empty;
        std::mem::swap(&mut self.ops_res, &mut last);
        self.p.poll(&mut self.outbox, last)
    }

    /// Books a poll that took `elapsed` nanoseconds under the label that the
    /// process has now.
    pub fn charge(&mut self, elapsed: u64, time_slice: u64)
        requires
            old(self).pinfo@.wf(),
        ensures
            exists|name: Seq<char>| #[trigger]
                old(self).pinfo@.accounted(name, elapsed, time_slice) == final(self).pinfo@,
            final(self).pinfo@.wf(),
            final(self).p == old(self).p,
            final(self).ops_res == old(self).ops_res,
            final(self).outbox == old(self).outbox,
    {
        let name = self.p.name();
        self.pinfo.account(name, elapsed, time_slice);
        assert(old(self).pinfo@.accounted(name@, elapsed, time_slice) == self.pinfo@);
    }

    /// Polls the process once and books the time that the poll took on the
    /// monotonic clock. The clock decides the time and the process the
    /// result, which is returned as it came.
    pub fn poll_wrap(&mut self, time_slice: u64) -> (res: PollRes)
        requires
            old(self).pinfo@.wf(),
        ensures
            exists|name: Seq<char>, elapsed: u64| #[trigger]
                old(self).pinfo@.accounted(name, elapsed, time_slice) == final(self).pinfo@,
            final(self).pinfo@.wf(),
            final(self).ops_res == OpsRes::Empty,
    {
        let start = Instant::now();
        let res = self.step();
        let elapsed = elapsed_nanos(&start);
        self.charge(elapsed, time_slice);
        res
    }
}

/// The nearest `i32` to a sum or difference of two of them.
fn clamped(p: i64) -> (c: i32)
    ensures
        c == clamp_priority(p as int),
{
    if p > i32::MAX as i64 {
        i32::MAX
    } else if p < i32::MIN as i64 {
        i32::MIN
    } else {
        p as i32
    }
}

/// `d` nanoseconds in thousandths of a slice.
pub fn slices(d: u64, time_slice: u64) -> (s: u64)
    ensures
        s == slices_of(d, time_slice),
{
    if time_slice == 0 {
        if d == 0 {
            0
        } else {
            u64::MAX
        }
    } else {
        let wide: u128 = d as u128;
        let parts: u128 = SLICE_PARTS as u128;
        assert(wide * parts <= 0xffff_ffff_ffff_ffff * 1000) by (nonlinear_arith)
            requires
                wide <= 0xffff_ffff_ffff_ffff,
                parts == 1000,
        ;
        let scaled: u128 = wide * parts;
        let q: u128 = scaled / (time_slice as u128);
        if q > u64::MAX as u128 {
            u64::MAX
        } else {
            q as u64
        }
    }
}

} // verus!
