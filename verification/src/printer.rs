//! The picture of a scheduler: its counters, its workers, and the timeline
//! of each process as a row of glyphs.

use vstd::prelude::*;
use vstd::string::StringExecFns;
use crate::ops::OpsType;
use crate::ops::Stone;
use std::time::Instant;
use crate::clock::elapsed_nanos;
use crate::laws::lemma_done_at_most_admitted;
use crate::model::SchedView;
use crate::pcb::PInfo;
use crate::pcb::PInfoView;
use crate::scheduler::busy_count;
use crate::scheduler::Scheduler;
use crate::scheduler::Share;
use crate::text::decimal;
use crate::text::digits;
use crate::text::millis_text;
use crate::text::percent_text;
use crate::text::permille;
use crate::text::push_decimal;
use crate::text::push_digits;
use crate::text::push_millis;
use crate::text::push_percent;
use crate::text::push_tenths;
use crate::text::rate_permille;
use crate::text::tenths_text;
use crate::worker_info::WorkerInfo;

verus! {

/// The running time that the first glyph stands for: ten seconds.
pub const SUN_NANOS: u64 = 10_000_000_000;

/// The running time that the second glyph stands for: one second.
pub const MOON_NANOS: u64 = 1_000_000_000;

/// The running time that the third glyph stands for: fifty milliseconds.
pub const STAR_NANOS: u64 = 50_000_000;

/// The whole tens of seconds in `d` nanoseconds.
pub open spec fn suns(d: u64) -> nat {
    d as nat / 10_000_000_000
}

/// The whole seconds in what the tens of seconds leave of `d`.
pub open spec fn moons(d: u64) -> nat {
    (d as nat % 10_000_000_000) / 1_000_000_000
}

/// The whole fifty milliseconds in what the seconds leave of `d`.
pub open spec fn stars(d: u64) -> nat {
    (d as nat % 1_000_000_000) / 50_000_000
}

/// `n` times the same glyph.
pub open spec fn repeated(glyph: Seq<char>, n: nat) -> Seq<char>
    decreases n,
{
    if n == 0 {
        Seq::empty()
    } else {
        repeated(glyph, (n - 1) as nat) + glyph
    }
}

/// The glyphs of one stone: for running time the largest glyphs first, for
/// an operation the glyph of its kind.
pub open spec fn stone_glyphs(s: Stone) -> Seq<char> {
    match s {
        Stone::Time(d) => repeated("☀️"@, suns(d)) + repeated("🌛"@, moons(d)) + repeated(
            "⭐️"@,
            stars(d),
        ),
        Stone::Ops(OpsType::File) => "📃"@,
        Stone::Ops(OpsType::Net) => "🌏"@,
    }
}

/// The glyphs of a timeline, stone after stone.
pub open spec fn timeline_glyphs(stones: Seq<Stone>) -> Seq<char>
    decreases stones.len(),
{
    if stones.len() == 0 {
        Seq::empty()
    } else {
        timeline_glyphs(stones.drop_last()) + stone_glyphs(stones.last())
    }
}

/// The row of a process: its timeline, closed by the glyph of a finished
/// process where it has finished.
pub open spec fn rendered(p: PInfoView) -> Seq<char> {
    timeline_glyphs(p.stones) + if p.done {
        "🤡"@
    } else {
        Seq::empty()
    }
}

/// Splits `d` nanoseconds greedily into tens of seconds, seconds and fifty
/// milliseconds; what is left over is not shown.
pub fn time_glyphs(d: u64) -> (counts: (u64, u64, u64))
    ensures
        counts.0 == suns(d),
        counts.1 == moons(d),
        counts.2 == stars(d),
        counts.0 * 10_000_000_000 + counts.1 * 1_000_000_000 + counts.2 * 50_000_000 <= d,
        d - (counts.0 * 10_000_000_000 + counts.1 * 1_000_000_000 + counts.2 * 50_000_000)
            < 50_000_000,
{
    let x_sun = d / SUN_NANOS;
    let rest = d - x_sun * SUN_NANOS;
    let x_moon = rest / MOON_NANOS;
    let rest = rest - x_moon * MOON_NANOS;
    let x_star = rest / STAR_NANOS;
    (x_sun, x_moon, x_star)
}

fn push_repeated(out: &mut String, glyph: &str, n: u64)
    ensures
        final(out)@ == old(out)@ + repeated(glyph@, n as nat),
{
    let mut k: u64 = 0;
    assert(out@ =~= old(out)@ + repeated(glyph@, 0));
    while k < n
        invariant
            k <= n,
            out@ == old(out)@ + repeated(glyph@, k as nat),
        decreases n - k,
    {
        out.append(glyph);
        k += 1;
        assert(out@ =~= old(out)@ + repeated(glyph@, k as nat));
    }
}

fn push_stone(out: &mut String, stone: &Stone)
    ensures
        final(out)@ == old(out)@ + stone_glyphs(*stone),
{
    match stone {
        Stone::Time(d) => {
            let (x_sun, x_moon, x_star) = time_glyphs(*d);
            push_repeated(out, "☀️", x_sun);
            push_repeated(out, "🌛", x_moon);
            push_repeated(out, "⭐️", x_star);
            assert(out@ =~= old(out)@ + stone_glyphs(*stone));
        },
        Stone::Ops(OpsType::File) => {
            out.append("📃");
        },
        Stone::Ops(OpsType::Net) => {
            out.append("🌏");
        },
    }
}

/// The row of glyphs that shows the timeline of a process.
pub fn render_timeline(pinfo: &PInfo) -> (row: String)
    ensures
        row@ == rendered(pinfo@),
{
    let mut row = String::new();
    let n = pinfo.stones.len();
    let mut i: usize = 0;
    assert(pinfo.stones@.take(0) =~= Seq::<Stone>::empty());
    while i < n
        invariant
            i <= n,
            n == pinfo.stones@.len(),
            row@ == timeline_glyphs(pinfo.stones@.take(i as int)),
        decreases n - i,
    {
        push_stone(&mut row, &pinfo.stones[i]);
        proof {
            let upto = pinfo.stones@.take(i + 1);
            assert(upto.drop_last() =~= pinfo.stones@.take(i as int));
            assert(upto.last() == pinfo.stones@[i as int]);
        }
        i += 1;
    }
    assert(pinfo.stones@.take(n as int) =~= pinfo.stones@);
    if pinfo.done {
        row.append("🤡");
    } else {
        assert(row@ =~= rendered(pinfo@));
    }
    row
}

/// The share of its lifetime that a worker was not parked, in thousandths.
pub open spec fn busy_permille(waiting: u64, lifetime: u64) -> u64 {
    rate_permille(
        if waiting >= lifetime {
            0
        } else {
            (lifetime - waiting) as u64
        },
        lifetime,
    )
}

/// The number of workers that could be busy: one for each unfinished
/// process, and no more than there are workers.
pub open spec fn busy_target(share: Share, workers: nat) -> nat {
    if share.processes - share.done < workers {
        (share.processes - share.done) as nat
    } else {
        workers
    }
}

/// Whether a frame shows the final state: the scheduler is done and every
/// admitted process has finished.
pub open spec fn shows_all_done(s: SchedView) -> bool {
    s.share.scheduler_done && s.share.done == s.share.processes
}

/// The head of a frame: the time since the renderer started, the number of
/// worker threads, and how many of the admitted processes have finished.
pub open spec fn head_text(elapsed: u64, threads: usize, share: Share) -> Seq<char> {
    "☆ Cost Time: "@ + millis_text(elapsed) + " \n☆ Threads: "@ + digits(threads as nat)
        + " \n☆ Compeletes : "@ + digits(share.done as nat) + "/"@ + digits(
        share.processes as nat,
    ) + "\n"@
}

/// What a frame shows of a worker that started `lifetime` nanoseconds ago:
/// whether it is parked, its number, and the share of its lifetime that it
/// was not parked.
pub open spec fn worker_text(info: WorkerInfo, lifetime: u64) -> Seq<char> {
    (if info.idle {
        "😭"@
    } else {
        "😁"@
    }) + digits(info.id as nat) + ":"@ + percent_text(busy_permille(info.waiting_time, lifetime))
}

/// What a frame shows of the first `upto` workers.
pub open spec fn workload_text(infos: Seq<WorkerInfo>, lifetimes: Seq<u64>, upto: nat) -> Seq<char>
    decreases upto,
{
    if upto == 0 {
        Seq::empty()
    } else {
        workload_text(infos, lifetimes, (upto - 1) as nat) + worker_text(
            infos[upto - 1],
            lifetimes[upto - 1],
        )
    }
}

/// The lines that sum up the workers: how many are not parked, and their
/// share in the number that could be busy.
pub open spec fn summary_text(s: SchedView) -> Seq<char> {
    "\n☆ Running Threads: "@ + digits(busy_count(s.worker_infos)) + "/"@ + digits(s.workers)
        + "\n☆ Threads Efficiency: "@ + percent_text(
        rate_permille(busy_count(s.worker_infos) as u64, busy_target(s.share, s.workers) as u64),
    ) + "\n\n"@
}

/// The line of a process: its number, its label, its priority, the time it
/// has run, the slices that makes, and its timeline.
pub open spec fn row_text(p: PInfoView) -> Seq<char> {
    "🍀 "@ + digits(p.id as nat) + ". "@ + (match p.name {
        Some(n) => n,
        None => "[x]"@,
    }) + "("@ + decimal(p.metric.priority as int) + " "@ + millis_text(p.metric.running_time)
        + " 🍒x"@ + tenths_text(p.run_slices as nat / 100) + "): "@ + rendered(p) + "\n"@
}

/// The lines of the processes with the numbers from 1 to `upto`.
pub open spec fn rows_text(s: SchedView, upto: nat) -> Seq<char>
    decreases upto,
{
    if upto == 0 {
        Seq::empty()
    } else {
        rows_text(s, (upto - 1) as nat) + row_text(s.shown(upto as u32))
    }
}

/// A whole frame of a scheduler with `threads` worker threads, rendered
/// `elapsed` nanoseconds after the renderer started, where worker `w`
/// started `lifetimes[w]` nanoseconds ago.
pub open spec fn frame_text(s: SchedView, threads: usize, elapsed: u64, lifetimes: Seq<u64>) -> Seq<
    char,
> {
    head_text(elapsed, threads, s.share) + "☆ Workload:"@ + workload_text(
        s.worker_infos,
        lifetimes,
        s.workers,
    ) + summary_text(s) + rows_text(s, s.places.len()) + if shows_all_done(s) {
        "\n\nALL DONE!\n"@
    } else {
        Seq::empty()
    }
}

fn push_head(out: &mut String, elapsed: u64, threads: usize, share: Share)
    ensures
        final(out)@ == old(out)@ + head_text(elapsed, threads, share),
{
    out.append("☆ Cost Time: ");
    push_millis(out, elapsed);
    out.append(" \n☆ Threads: ");
    push_digits(out, threads as u64);
    out.append(" \n☆ Compeletes : ");
    push_digits(out, share.done as u64);
    out.append("/");
    push_digits(out, share.processes as u64);
    out.append("\n");
    assert(out@ =~= old(out)@ + head_text(elapsed, threads, share));
}

fn push_worker(out: &mut String, info: &WorkerInfo, lifetime: u64)
    ensures
        final(out)@ == old(out)@ + worker_text(*info, lifetime),
{
    if info.idle {
        out.append("😭");
    } else {
        out.append("😁");
    }
    push_digits(out, info.id as u64);
    out.append(":");
    let busy: u64 = if info.waiting_time >= lifetime {
        0
    } else {
        lifetime - info.waiting_time
    };
    push_percent(out, permille(busy, lifetime));
    assert(out@ =~= old(out)@ + worker_text(*info, lifetime));
}

fn push_summary(out: &mut String, s: &Scheduler)
    requires
        s.wf(),
    ensures
        final(out)@ == old(out)@ + summary_text(s@),
{
    proof {
        s.lemma_wf_inv();
        lemma_done_at_most_admitted(s@);
    }
    let running = s.running_workers();
    let workers = s.workers();
    let share = s.share();
    let remain = share.processes - share.done;
    let target = if remain < workers {
        remain
    } else {
        workers
    };
    out.append("\n☆ Running Threads: ");
    push_digits(out, running as u64);
    out.append("/");
    push_digits(out, workers as u64);
    out.append("\n☆ Threads Efficiency: ");
    push_percent(out, permille(running as u64, target as u64));
    out.append("\n\n");
    assert(out@ =~= old(out)@ + summary_text(s@));
}

fn push_row(out: &mut String, pinfo: &PInfo)
    ensures
        final(out)@ == old(out)@ + row_text(pinfo@),
{
    out.append("🍀 ");
    push_digits(out, pinfo.id as u64);
    out.append(". ");
    match &pinfo.name {
        Some(n) => {
            out.append(n.as_str());
        },
        None => {
            out.append("[x]");
        },
    }
    out.append("(");
    push_decimal(out, pinfo.metric.priority as i64);
    out.append(" ");
    push_millis(out, pinfo.metric.running_time);
    out.append(" 🍒x");
    push_tenths(out, pinfo.run_slices / 100);
    out.append("): ");
    let glyphs = render_timeline(pinfo);
    out.append(glyphs.as_str());
    out.append("\n");
    assert(out@ =~= old(out)@ + row_text(pinfo@));
}

/// Renders a frame of the scheduler `s` with `threads` worker threads,
/// `elapsed` nanoseconds after the renderer started, where worker `w`
/// started `lifetimes[w]` nanoseconds ago.
pub fn render_frame(s: &Scheduler, threads: usize, elapsed: u64, lifetimes: &Vec<u64>) -> (frame:
    String)
    requires
        s.wf(),
        lifetimes@.len() == s@.workers,
    ensures
        frame@ == frame_text(s@, threads, elapsed, lifetimes@),
{
    proof {
        s.lemma_wf_inv();
    }
    let share = s.share();
    let mut out = String::new();
    push_head(&mut out, elapsed, threads, share);
    out.append("☆ Workload:");
    let ghost start = out@;
    let workers = s.workers();
    let mut w: usize = 0;
    assert(out@ =~= start + workload_text(s@.worker_infos, lifetimes@, 0));
    while w < workers
        invariant
            s.wf(),
            w <= workers,
            workers == s@.workers,
            lifetimes@.len() == workers,
            out@ == start + workload_text(s@.worker_infos, lifetimes@, w as nat),
        decreases workers - w,
    {
        push_worker(&mut out, s.worker_info(w), lifetimes[w]);
        w += 1;
        assert(out@ =~= start + workload_text(s@.worker_infos, lifetimes@, w as nat));
    }
    push_summary(&mut out, s);
    let ghost top = out@;
    let processes = share.processes;
    let mut n: usize = 0;
    assert(out@ =~= top + rows_text(s@, 0));
    while n < processes
        invariant
            s.wf(),
            s@.inv(),
            n <= processes,
            processes == s@.places.len(),
            out@ == top + rows_text(s@, n as nat),
        decreases processes - n,
    {
        n += 1;
        match s.pinfo(n as u32) {
            Some(pinfo) => {
                push_row(&mut out, pinfo);
            },
            None => {},
        }
        assert(out@ =~= top + rows_text(s@, n as nat));
    }
    if share.scheduler_done && share.done == share.processes {
        out.append("\n\nALL DONE!\n");
    }
    assert(out@ =~= frame_text(s@, threads, elapsed, lifetimes@));
    out
}

/// The renderer of a scheduler.
#[derive(Debug)]
pub struct Printer {
    /// When the renderer started.
    pub start_point: Instant,
    /// The number of worker threads that the frames name.
    pub schedule_threads: usize,
}

impl Printer {
    /// A renderer that starts now. The clock decides `start_point`.
    pub fn new(schedule_threads: usize) -> (printer: Printer)
        ensures
            printer.schedule_threads == schedule_threads,
    {
        Printer { start_point: Instant::now(), schedule_threads }
    }

    /// Renders one frame of the scheduler and says whether it shows the
    /// final state, which is then recorded in the scheduler. The clock
    /// decides the times that the frame shows.
    pub fn frame(&self, s: &mut Scheduler) -> (out: (String, bool))
        requires
            old(s).wf(),
        ensures
            final(s).wf(),
            out.1 == shows_all_done(old(s)@),
            final(s)@ == if out.1 {
                SchedView { share: Share { printer_done: true, ..old(s)@.share }, ..old(s)@ }
            } else {
                old(s)@
            },
            exists|elapsed: u64, lifetimes: Seq<u64>|
                lifetimes.len() == old(s)@.workers && #[trigger] frame_text(
                    old(s)@,
                    self.schedule_threads,
                    elapsed,
                    lifetimes,
                ) == out.0@,
    {
        let elapsed = elapsed_nanos(&self.start_point);
        let workers = s.workers();
        let mut lifetimes: Vec<u64> = Vec::new();
        let mut w: usize = 0;
        while w < workers
            invariant
                s.wf(),
                w <= workers,
                workers == s@.workers,
                lifetimes@.len() == w,
            decreases workers - w,
        {
            lifetimes.push(elapsed_nanos(&s.worker_info(w).start_point));
            w += 1;
        }
        let frame = render_frame(s, self.schedule_threads, elapsed, &lifetimes);
        assert(frame_text(old(s)@, self.schedule_threads, elapsed, lifetimes@) == frame@);
        let all_done = s.printer_tick();
        (frame, all_done)
    }
}

} // verus!
