use coop_scheduler::model::Place;
use coop_scheduler::ops::FileOp;
use coop_scheduler::ops::FileReadRes;
use coop_scheduler::ops::FileWriteRes;
use coop_scheduler::ops::Op;
use coop_scheduler::ops::OpsRes;
use coop_scheduler::ops::OpsType;
use coop_scheduler::ops::Stone;
use coop_scheduler::pcb::PInfo;
use coop_scheduler::pcb::PollRes;
use coop_scheduler::pcb::Process;
use coop_scheduler::printer::render_frame;
use coop_scheduler::printer::render_timeline;
use coop_scheduler::printer::Printer;
use coop_scheduler::processes::P1;
use coop_scheduler::scheduler::Action;
use coop_scheduler::scheduler::Scheduler;
use coop_scheduler::scheduler::SchedulerBuilder;
use std::io::Error;
use std::io::ErrorKind;
use std::sync::Arc;
use std::sync::Mutex;

const MS: u64 = 1_000_000;

#[derive(Clone, Debug)]
enum Step {
    Nop,
    Raise(i32),
    Lower(i32),
    Fix(i32),
    Read(&'static str),
    Write(&'static str, &'static str),
    Say(&'static str),
}

/// A process that answers its polls from a list and is ready when the list
/// is used up. It notes what each poll was handed.
struct Scripted {
    name: String,
    steps: Vec<Step>,
    at: usize,
    seen: Arc<Mutex<Vec<String>>>,
    buf: Option<String>,
}

impl Scripted {
    fn boxed(name: &str, steps: Vec<Step>) -> Box<dyn Process> {
        Box::new(Scripted {
            name: name.to_string(),
            steps,
            at: 0,
            seen: Arc::new(Mutex::new(Vec::new())),
            buf: None,
        })
    }

    fn observed(
        name: &str,
        steps: Vec<Step>,
        with_buf: bool,
    ) -> (Box<dyn Process>, Arc<Mutex<Vec<String>>>) {
        let seen = Arc::new(Mutex::new(Vec::new()));
        let p = Scripted {
            name: name.to_string(),
            steps,
            at: 0,
            seen: seen.clone(),
            buf: if with_buf { Some(String::new()) } else { None },
        };
        (Box::new(p), seen)
    }
}

impl Process for Scripted {
    fn name(&self) -> String {
        self.name.clone()
    }

    fn poll(&mut self, outbox: &mut Vec<String>, ops_res: OpsRes) -> PollRes {
        let note = match ops_res {
            OpsRes::Empty => "empty".to_string(),
            OpsRes::FileReadRes(FileReadRes::Done(n)) => format!("read {}", n),
            OpsRes::FileReadRes(FileReadRes::FileBufReturnNone) => "no buffer".to_string(),
            OpsRes::FileReadRes(FileReadRes::Failed(e)) => format!("read failed {:?}", e.kind()),
            OpsRes::FileWriteRes(FileWriteRes::Done { path }) => format!("wrote {}", path),
            OpsRes::FileWriteRes(FileWriteRes::Failed { path, err }) => {
                format!("write failed {} {:?}", path, err.kind())
            }
        };
        self.seen.lock().unwrap().push(note);
        let step = self.steps.get(self.at).cloned();
        self.at += 1;
        match step {
            None => PollRes::Ready,
            Some(Step::Nop) => PollRes::Polling(Op::Nop),
            Some(Step::Raise(x)) => PollRes::Polling(Op::AddPriority(x)),
            Some(Step::Lower(x)) => PollRes::Polling(Op::SubPriority(x)),
            Some(Step::Fix(x)) => PollRes::Polling(Op::SetPriority(x)),
            Some(Step::Read(path)) => PollRes::Polling(Op::FileOp(FileOp::Read(path.to_string()))),
            Some(Step::Write(path, content)) => PollRes::Polling(Op::FileOp(FileOp::Write {
                path: path.to_string(),
                content: content.to_string(),
            })),
            Some(Step::Say(text)) => {
                outbox.push(text.to_string());
                PollRes::Polling(Op::Nop)
            }
        }
    }

    fn file_buf(&mut self) -> Option<&mut String> {
        self.buf.as_mut()
    }
}

#[derive(Debug, PartialEq)]
enum Event {
    Polled(usize, u32),
    Retired(u32, Option<usize>),
    Requeued(u32, bool, Option<usize>, Option<String>),
    Offloaded(u32),
    Sent(u32, String),
}

/// What stands for the file system: a read of a path that begins with
/// `have/` gives as many bytes as the path is long, every other read fails;
/// a write fails exactly where the path begins with `deny/`.
fn file_system(op: &FileOp) -> Result<usize, Error> {
    match op {
        FileOp::Read(path) => {
            if path.starts_with("have/") {
                Ok(path.len())
            } else {
                Err(Error::from(ErrorKind::NotFound))
            }
        }
        FileOp::Write { path, content } => {
            if path.starts_with("deny/") {
                Err(Error::from(ErrorKind::PermissionDenied))
            } else {
                Ok(content.len())
            }
        }
    }
}

fn held(place: Place) -> bool {
    matches!(place, Place::Ready | Place::Slot(_) | Place::Heap(_) | Place::Retired)
}

/// Checks what must hold of every state: no more processes finished than
/// admitted, and each process in one place, with its record held exactly
/// where the place says so.
fn check_state(s: &Scheduler, out: Option<u32>) {
    let share = s.share();
    assert!(share.done <= share.processes);
    let mut retired = 0;
    let mut queued = 0;
    let mut slots = vec![0; s.workers()];
    for id in 1..=(share.processes as u32) {
        let place = s.place(id).unwrap();
        let record = s.pinfo(id);
        assert!(record.is_some(), "process {} at {:?}", id, place);
        if let Some(record) = record {
            assert_eq!(record.id, id);
            assert!(record.is_consistent());
            if held(place) {
                assert_eq!(record.done, place == Place::Retired);
            } else {
                assert!(!record.done);
            }
            for pair in record.stones.windows(2) {
                assert!(!(matches!(pair[0], Stone::Time(_)) && matches!(pair[1], Stone::Time(_))));
            }
            let sum: u64 = record
                .stones
                .iter()
                .map(|stone| match stone {
                    Stone::Time(d) => *d,
                    Stone::Ops(_) => 0,
                })
                .sum();
            assert_eq!(sum, record.metric.running_time);
        }
        match place {
            Place::Retired => retired += 1,
            Place::Heap(w) => {
                assert!(w < s.workers());
                queued += 1;
            }
            Place::Running(w) => {
                assert!(w < s.workers());
                assert_eq!(out, Some(id));
            }
            Place::InFlight => assert_eq!(out, Some(id)),
            Place::Slot(w) => {
                assert!(w < s.workers());
                slots[w] += 1;
            }
            Place::Ready => {}
        }
    }
    assert_eq!(retired, share.done);
    assert!(slots.iter().all(|n| *n <= 1));
    let in_heaps: usize = (0..s.workers()).map(|w| s.heap_len(w)).sum();
    assert_eq!(queued, in_heaps);
    assert!(s.place(0).is_none());
    assert!(s.place(share.processes as u32 + 1).is_none());
    assert!(s.pinfo(0).is_none());
    assert!(s.pinfo(share.processes as u32 + 1).is_none());
}

/// Runs the workers in turn, each draining one batch and polling all of it,
/// until a whole turn polls nothing. Every poll costs what `cost` says.
fn drive(s: &mut Scheduler, cost: &dyn Fn(u32) -> u64) -> Vec<Event> {
    let mut events = Vec::new();
    let workers = s.workers();
    let mut draw: usize = 0;
    loop {
        let mut polled = false;
        for w in 0..workers {
            let batch = s.batch_size();
            let moved = s.worker_fill(w);
            assert!(moved <= batch);
            check_state(s, None);
            while let Some(mut pcb) = s.worker_next(w) {
                polled = true;
                let id = pcb.pinfo.id;
                assert_eq!(s.place(id), Some(Place::Running(w)));
                check_state(s, Some(id));
                events.push(Event::Polled(w, id));
                let res = pcb.step();
                pcb.charge(cost(id), s.time_slice());
                for text in pcb.outbox.drain(..) {
                    events.push(Event::Sent(id, text));
                }
                draw += 1;
                match s.dispatch(w, pcb, res, draw % (workers + 1), draw) {
                    Action::Retired { shutdown } => {
                        assert_eq!(s.place(id), Some(Place::Retired));
                        events.push(Event::Retired(id, shutdown));
                    }
                    Action::Requeued { global, wake, log } => {
                        if global {
                            assert_eq!(s.place(id), Some(Place::Ready));
                        } else {
                            assert_eq!(s.place(id), Some(Place::Slot(w)));
                        }
                        assert_eq!(global, draw % (workers + 1) == 0);
                        if let Some(other) = wake {
                            assert!(other != w && other < workers);
                        }
                        assert_eq!(wake.is_some(), workers > 1);
                        events.push(Event::Requeued(id, global, wake, log));
                    }
                    Action::Offload { mut pcb, op } => {
                        assert_eq!(s.place(id), Some(Place::InFlight));
                        check_state(s, Some(id));
                        events.push(Event::Offloaded(id));
                        let outcome = file_system(&op);
                        let has_buffer = pcb.p.file_buf().is_some();
                        let res = OpsRes::from_file_op(op, has_buffer, outcome);
                        let wake = s.io_complete(pcb, res, draw);
                        assert_eq!(wake, draw % workers);
                        assert_eq!(s.place(id), Some(Place::Ready));
                    }
                }
                check_state(s, None);
            }
        }
        if !polled {
            break;
        }
    }
    events
}

fn polls_of(events: &[Event]) -> Vec<u32> {
    events
        .iter()
        .filter_map(|e| match e {
            Event::Polled(_, id) => Some(*id),
            _ => None,
        })
        .collect()
}

#[test]
fn built_scheduler_is_empty() {
    let s = SchedulerBuilder::new().time_slice(7).print(false).print_interval(9).build(3);
    assert_eq!(s.workers(), 3);
    assert_eq!(s.time_slice(), 7);
    assert!(!s.print());
    assert_eq!(s.print_interval(), 9);
    assert_eq!(s.share().processes, 0);
    assert_eq!(s.share().done, 0);
    assert!(!s.worker_exit());
    assert_eq!(s.io_pool_size(), 3);
    assert_eq!(s.running_workers(), 3);
    for w in 0..3 {
        assert_eq!(s.heap_len(w), 0);
        assert_eq!(s.worker_info(w).id, w);
        assert!(!s.worker_info(w).idle);
        assert_eq!(s.worker_info(w).waiting_time, 0);
    }
    assert!(s.place(1).is_none());
    check_state(&s, None);
}

#[test]
fn offload_pool_size() {
    assert_eq!(SchedulerBuilder::new().build(1).io_pool_size(), 2);
    assert_eq!(SchedulerBuilder::new().build(2).io_pool_size(), 2);
    assert_eq!(SchedulerBuilder::new().build(4).io_pool_size(), 3);
    assert_eq!(SchedulerBuilder::new().build(7).io_pool_size(), 5);
}

#[test]
fn admission_numbers_processes_from_one() {
    let mut s = SchedulerBuilder::new().build(2);
    s.execute(Scripted::boxed("a", vec![]), PInfo::new());
    s.execute_priority(Scripted::boxed("b", vec![]), PInfo::new(), 12);
    assert_eq!(s.share().processes, 2);
    assert_eq!(s.share().done, 0);
    assert_eq!(s.place(1), Some(Place::Ready));
    assert_eq!(s.place(2), Some(Place::Ready));
    let a = s.pinfo(1).unwrap();
    assert_eq!(a.id, 1);
    assert_eq!(a.name.as_deref(), Some("a"));
    assert_eq!(a.metric.priority, 0);
    let b = s.pinfo(2).unwrap();
    assert_eq!(b.id, 2);
    assert_eq!(b.name.as_deref(), Some("b"));
    assert_eq!(b.metric.priority, 12);
    assert!(b.stones.is_empty());
    check_state(&s, None);
}

#[test]
fn batch_is_the_share_of_a_worker_and_at_least_one() {
    let mut s = SchedulerBuilder::new().build(2);
    assert_eq!(s.batch_size(), 1);
    for _ in 0..5 {
        s.execute(Scripted::boxed("p", vec![]), PInfo::new());
    }
    assert_eq!(s.batch_size(), 2);
    let mut one = SchedulerBuilder::new().build(4);
    one.execute(Scripted::boxed("p", vec![]), PInfo::new());
    assert_eq!(one.batch_size(), 1);
}

#[test]
fn drain_moves_a_ready_process_into_the_run_queue() {
    let mut s = SchedulerBuilder::new().build(1);
    assert_eq!(s.worker_drain(0), None);
    s.execute(Scripted::boxed("a", vec![]), PInfo::new());
    assert_eq!(s.worker_drain(0), Some(1));
    assert_eq!(s.place(1), Some(Place::Heap(0)));
    assert_eq!(s.heap_len(0), 1);
    assert_eq!(s.worker_drain(0), None);
    assert_eq!(s.heap_len(0), 1);
    check_state(&s, None);
}

#[test]
fn fill_stops_at_the_batch() {
    let mut s = SchedulerBuilder::new().build(2);
    for _ in 0..6 {
        s.execute(Scripted::boxed("p", vec![]), PInfo::new());
    }
    assert_eq!(s.worker_fill(0), 3);
    assert_eq!(s.heap_len(0), 3);
    assert_eq!(s.heap_len(1), 0);
    assert_eq!(s.worker_fill(1), 3);
    assert_eq!(s.heap_len(1), 3);
    assert_eq!(s.worker_fill(0), 0);
    check_state(&s, None);
}

#[test]
fn next_on_an_empty_run_queue_gives_nothing() {
    let mut s = SchedulerBuilder::new().build(1);
    assert!(s.worker_next(0).is_none());
    s.execute(Scripted::boxed("a", vec![]), PInfo::new());
    assert!(s.worker_next(0).is_none());
    assert_eq!(s.place(1), Some(Place::Ready));
}

#[test]
fn next_takes_the_lowest_key() {
    let mut s = SchedulerBuilder::new().build(1);
    s.execute_priority(Scripted::boxed("low", vec![]), PInfo::new(), -5);
    s.execute_priority(Scripted::boxed("high", vec![]), PInfo::new(), 100);
    s.execute_priority(Scripted::boxed("mid", vec![]), PInfo::new(), 3);
    assert_eq!(s.worker_fill(0), 3);
    let first = s.worker_next(0).unwrap();
    assert_eq!(first.pinfo.name.as_deref(), Some("high"));
    assert_eq!(s.place(first.pinfo.id), Some(Place::Running(0)));
    assert_eq!(s.pinfo(first.pinfo.id).unwrap().name.as_deref(), Some("high"));
    let second = s.worker_next(0).unwrap();
    assert_eq!(second.pinfo.name.as_deref(), Some("mid"));
    let third = s.worker_next(0).unwrap();
    assert_eq!(third.pinfo.name.as_deref(), Some("low"));
    assert!(s.worker_next(0).is_none());
}

#[test]
fn one_process_that_is_ready_at_once() {
    let mut s = SchedulerBuilder::new().build(1);
    s.execute(Scripted::boxed("only", vec![]), PInfo::new());
    let events = drive(&mut s, &|_| 3 * MS);
    assert_eq!(events, vec![Event::Polled(0, 1), Event::Retired(1, Some(1))]);
    assert_eq!(s.share().processes, 1);
    assert_eq!(s.share().done, 1);
    let record = s.pinfo(1).unwrap();
    assert!(record.done);
    assert_eq!(record.stones, vec![Stone::Time(3 * MS)]);
    assert_eq!(record.metric.running_time, 3 * MS);
    assert_eq!(record.run_slices, 150);
    assert!(!s.printer_tick());
    assert!(s.join(1));
    assert!(s.worker_exit());
    assert!(s.share().scheduler_done);
    assert!(!s.finished(true));
    assert!(s.printer_tick());
    assert!(s.share().printer_done);
    assert!(s.finished(true));
    assert!(!s.finished(false));
}

#[test]
fn sample_process_runs_its_script() {
    let mut s = SchedulerBuilder::new().build(1);
    s.execute(Box::new(P1::new()), PInfo::new());
    let pauses = [40 * MS, 30 * MS, 30 * MS, 0];
    let mut poll = 0;
    let mut lines = Vec::new();
    loop {
        s.worker_fill(0);
        let mut pcb = match s.worker_next(0) {
            Some(pcb) => pcb,
            None => break,
        };
        if poll == 2 {
            match &pcb.ops_res {
                OpsRes::FileReadRes(FileReadRes::Failed(e)) => {
                    assert_eq!(e.kind(), ErrorKind::NotFound)
                }
                other => panic!("unexpected {:?}", other),
            }
        } else {
            assert!(matches!(pcb.ops_res, OpsRes::Empty));
        }
        let res = pcb.step();
        pcb.charge(pauses[poll], s.time_slice());
        poll += 1;
        match s.dispatch(0, pcb, res, 1, 0) {
            Action::Retired { shutdown } => assert_eq!(shutdown, Some(1)),
            Action::Requeued { global, wake, log } => {
                assert!(!global);
                assert_eq!(wake, None);
                lines.push(log);
            }
            Action::Offload { mut pcb, op } => {
                match &op {
                    FileOp::Read(path) => assert_eq!(path, "file_open"),
                    other => panic!("unexpected {:?}", other),
                }
                let has_buffer = pcb.p.file_buf().is_some();
                assert!(!has_buffer);
                let outcome = file_system(&op);
                let res = OpsRes::from_file_op(op, has_buffer, outcome);
                assert!(matches!(res, OpsRes::FileReadRes(FileReadRes::Failed(_))));
                s.io_complete(pcb, res, 0);
                assert!(matches!(s.pinfo(1).unwrap().stones.last(), Some(Stone::Ops(OpsType::File))));
            }
        }
    }
    assert_eq!(poll, 4);
    assert_eq!(lines, vec![Some("P1 ADD PRIORITY => 10".to_string()), None]);
    let record = s.pinfo(1).unwrap();
    assert!(record.done);
    assert_eq!(record.metric.priority, 10);
    assert_eq!(record.metric.running_time, 100 * MS);
    assert_eq!(
        record.stones,
        vec![Stone::Time(70 * MS), Stone::Ops(OpsType::File), Stone::Time(30 * MS)]
    );
    assert_eq!(render_timeline(record), "⭐️📃🤡");
    assert_eq!(s.share().done, 1);
}

#[test]
fn failed_read_reaches_the_next_poll() {
    let mut s = SchedulerBuilder::new().build(1);
    let (p, seen) = Scripted::observed(
        "reader",
        vec![Step::Read("file_open"), Step::Read("have/text"), Step::Nop],
        true,
    );
    s.execute(p, PInfo::new());
    let events = drive(&mut s, &|_| MS);
    assert_eq!(polls_of(&events), vec![1, 1, 1, 1]);
    assert_eq!(
        *seen.lock().unwrap(),
        vec!["empty", "read failed NotFound", "read 9", "empty"]
    );
    let record = s.pinfo(1).unwrap();
    assert_eq!(
        record.stones,
        vec![
            Stone::Time(MS),
            Stone::Ops(OpsType::File),
            Stone::Time(MS),
            Stone::Ops(OpsType::File),
            Stone::Time(2 * MS)
        ]
    );
}

#[test]
fn failed_read_without_a_buffer_reaches_the_next_poll() {
    let mut s = SchedulerBuilder::new().build(1);
    let (p, seen) = Scripted::observed("reader", vec![Step::Read("file_open")], false);
    s.execute(p, PInfo::new());
    drive(&mut s, &|_| MS);
    assert_eq!(*seen.lock().unwrap(), vec!["empty", "read failed NotFound"]);
    assert_eq!(
        s.pinfo(1).unwrap().stones,
        vec![Stone::Time(MS), Stone::Ops(OpsType::File), Stone::Time(MS)]
    );
}

#[test]
fn read_without_a_buffer_is_reported() {
    let mut s = SchedulerBuilder::new().build(1);
    let (p, seen) = Scripted::observed("reader", vec![Step::Read("have/text")], false);
    s.execute(p, PInfo::new());
    drive(&mut s, &|_| MS);
    assert_eq!(*seen.lock().unwrap(), vec!["empty", "no buffer"]);
}

#[test]
fn write_outcomes_reach_the_next_poll() {
    let mut s = SchedulerBuilder::new().build(2);
    let (p, seen) = Scripted::observed(
        "writer",
        vec![Step::Write("out/a.txt", "abc"), Step::Write("deny/b.txt", "abc")],
        false,
    );
    s.execute(p, PInfo::new());
    let events = drive(&mut s, &|_| MS);
    assert_eq!(events.iter().filter(|e| matches!(e, Event::Offloaded(1))).count(), 2);
    assert_eq!(
        *seen.lock().unwrap(),
        vec!["empty", "wrote out/a.txt", "write failed deny/b.txt PermissionDenied"]
    );
    assert!(s.pinfo(1).unwrap().done);
}

#[test]
fn every_write_leaves_a_marker() {
    let mut s = SchedulerBuilder::new().build(1);
    s.execute(Scripted::boxed("writer", vec![Step::Write("out/w.txt", "payload"); 1000]), PInfo::new());
    let events = drive(&mut s, &|_| MS);
    assert_eq!(events.iter().filter(|e| matches!(e, Event::Offloaded(1))).count(), 1000);
    let record = s.pinfo(1).unwrap();
    let markers = record.stones.iter().filter(|x| **x == Stone::Ops(OpsType::File)).count();
    assert_eq!(markers, 1000);
    assert_eq!(record.stones.len(), 2001);
    assert_eq!(record.metric.running_time, 1001 * MS);
    assert!(record.done);
}

#[test]
fn all_admitted_processes_finish() {
    for workers in 1..=4 {
        let mut s = SchedulerBuilder::new().build(workers);
        let k = 20;
        for i in 0..k {
            let mut steps = Vec::new();
            for j in 0..(i * 7 % 13) {
                steps.push(match (i + j) % 6 {
                    0 => Step::Raise(3),
                    1 => Step::Read("have/x"),
                    2 => Step::Lower(2),
                    3 => Step::Write("out/y.txt", "y"),
                    4 => Step::Fix(1),
                    _ => Step::Nop,
                });
            }
            s.execute(Scripted::boxed("p", steps), PInfo::new());
        }
        let events = drive(&mut s, &|id| (id as u64 % 5) * MS);
        assert_eq!(s.share().processes, k);
        assert_eq!(s.share().done, k);
        let tickets: Vec<&Event> =
            events.iter().filter(|e| matches!(e, Event::Retired(_, Some(_)))).collect();
        assert_eq!(tickets.len(), 1);
        assert!(matches!(events.last(), Some(Event::Retired(_, Some(20)))));
        for id in 1..=(k as u32) {
            assert_eq!(s.place(id), Some(Place::Retired));
            assert!(s.pinfo(id).unwrap().done);
        }
    }
}

#[test]
fn repeated_additions_sum_up() {
    let mut s = SchedulerBuilder::new().build(1);
    s.execute_priority(Scripted::boxed("adder", vec![Step::Raise(7); 9]), PInfo::new(), -4);
    let events = drive(&mut s, &|_| MS);
    assert_eq!(s.pinfo(1).unwrap().metric.priority, -4 + 9 * 7);
    let lines: Vec<&Event> =
        events.iter().filter(|e| matches!(e, Event::Requeued(_, _, _, Some(_)))).collect();
    assert_eq!(lines.len(), 9);
    assert_eq!(
        lines[0],
        &Event::Requeued(1, false, None, Some("adder ADD PRIORITY => 7".to_string()))
    );
}

#[test]
fn priority_requests_are_carried_out_and_reported() {
    let mut s = SchedulerBuilder::new().build(1);
    s.execute(
        Scripted::boxed("p", vec![Step::Fix(5), Step::Lower(8), Step::Nop, Step::Raise(1)]),
        PInfo::new(),
    );
    let events = drive(&mut s, &|_| MS);
    let logs: Vec<Option<String>> = events
        .iter()
        .filter_map(|e| match e {
            Event::Requeued(_, _, _, log) => Some(log.clone()),
            _ => None,
        })
        .collect();
    assert_eq!(
        logs,
        vec![
            Some("p SET PRIORITY => 5".to_string()),
            Some("p SUB PRIORITY => 8".to_string()),
            None,
            Some("p ADD PRIORITY => 1".to_string())
        ]
    );
    assert_eq!(s.pinfo(1).unwrap().metric.priority, -2);
}

#[test]
fn higher_priority_is_polled_first_in_every_batch() {
    let mut s = SchedulerBuilder::new().build(1);
    s.execute_priority(Scripted::boxed("a", vec![Step::Nop; 50]), PInfo::new(), 0);
    s.execute_priority(Scripted::boxed("b", vec![Step::Nop; 50]), PInfo::new(), 100);
    let events = drive(&mut s, &|_| 20 * MS);
    let polls = polls_of(&events);
    assert_eq!(polls.len(), 102);
    for round in polls.chunks(2) {
        assert_eq!(round, &[2, 1]);
    }
    let retired: Vec<u32> = events
        .iter()
        .filter_map(|e| match e {
            Event::Retired(id, _) => Some(*id),
            _ => None,
        })
        .collect();
    assert_eq!(retired, vec![2, 1]);
    let a = s.pinfo(1).unwrap();
    let b = s.pinfo(2).unwrap();
    assert_eq!(a.metric.running_time, 51 * 20 * MS);
    assert!(b.metric.running_time <= a.metric.running_time);
    assert!(b.metric.value() + 100 * 20 * (MS as i128) == a.metric.value());
}

#[test]
fn time_run_demotes_a_process() {
    let mut s = SchedulerBuilder::new().build(1);
    s.execute(Scripted::boxed("a", vec![Step::Nop; 3]), PInfo::new());
    s.execute(Scripted::boxed("b", vec![Step::Nop; 3]), PInfo::new());
    let events = drive(&mut s, &|id| if id == 1 { 50 * MS } else { 10 * MS });
    let polls = polls_of(&events);
    assert_eq!(&polls[2..], &[2, 1, 2, 1, 2, 1]);
}

#[test]
fn messages_of_a_poll_wait_in_the_outbox() {
    let mut s = SchedulerBuilder::new().build(1);
    s.execute(Scripted::boxed("talker", vec![Step::Say("one"), Step::Say("two")]), PInfo::new());
    let events = drive(&mut s, &|_| MS);
    let sent: Vec<&Event> = events.iter().filter(|e| matches!(e, Event::Sent(_, _))).collect();
    assert_eq!(
        sent,
        vec![&Event::Sent(1, "one".to_string()), &Event::Sent(1, "two".to_string())]
    );
}

#[test]
fn readmission_goes_to_the_injector_on_choice_zero() {
    let mut s = SchedulerBuilder::new().build(3);
    s.execute(Scripted::boxed("p", vec![Step::Nop; 4]), PInfo::new());
    assert_eq!(s.worker_fill(1), 1);
    let mut pcb = s.worker_next(1).unwrap();
    let res = pcb.step();
    pcb.charge(MS, 20 * MS);
    match s.dispatch(1, pcb, res, 0, 5) {
        Action::Requeued { global, wake, log } => {
            assert!(global);
            assert_eq!(wake, Some(2));
            assert_eq!(log, None);
        }
        _ => panic!("expected a re-admission"),
    }
    assert_eq!(s.worker_fill(2), 1);
    let mut pcb = s.worker_next(2).unwrap();
    let res = pcb.step();
    pcb.charge(MS, 20 * MS);
    match s.dispatch(2, pcb, res, 3, 4) {
        Action::Requeued { global, wake, .. } => {
            assert!(!global);
            assert_eq!(wake, Some(0));
        }
        _ => panic!("expected a re-admission"),
    }
    assert_eq!(s.place(1), Some(Place::Slot(2)));
    assert_eq!(s.worker_fill(0), 0);
    assert_eq!(s.worker_fill(2), 1);
    let mut pcb = s.worker_next(2).unwrap();
    let res = pcb.step();
    pcb.charge(MS, 20 * MS);
    match s.dispatch(2, pcb, res, 1, 1) {
        Action::Requeued { wake, .. } => assert_eq!(wake, Some(1)),
        _ => panic!("expected a re-admission"),
    }
    check_state(&s, None);
}

#[test]
fn local_readmission_is_kept_for_the_worker() {
    let mut s = SchedulerBuilder::new().build(2);
    s.execute(Scripted::boxed("a", vec![Step::Nop; 4]), PInfo::new());
    s.execute(Scripted::boxed("b", vec![Step::Nop; 4]), PInfo::new());
    let first = s.worker_drain(0).unwrap();
    let second = s.worker_drain(0).unwrap();
    assert!(first != second);
    assert_eq!(s.worker_drain(0), None);
    assert_eq!(s.worker_drain(1), None);
    let mut pcb = s.worker_next(0).unwrap();
    let x = pcb.pinfo.id;
    let res = pcb.step();
    pcb.charge(MS, 20 * MS);
    assert!(matches!(s.dispatch(0, pcb, res, 1, 0), Action::Requeued { global: false, .. }));
    assert_eq!(s.place(x), Some(Place::Slot(0)));
    assert_eq!(s.worker_drain(1), None);
    assert_eq!(s.worker_fill(1), 0);
    let mut pcb = s.worker_next(0).unwrap();
    let y = pcb.pinfo.id;
    assert!(x != y);
    let res = pcb.step();
    pcb.charge(MS, 20 * MS);
    assert!(matches!(s.dispatch(0, pcb, res, 2, 0), Action::Requeued { global: false, .. }));
    assert_eq!(s.place(y), Some(Place::Slot(0)));
    assert_eq!(s.place(x), Some(Place::Ready));
    check_state(&s, None);
    assert_eq!(s.worker_drain(1), Some(x));
    assert_eq!(s.place(x), Some(Place::Heap(1)));
    assert_eq!(s.worker_drain(1), None);
    assert_eq!(s.worker_drain(0), Some(y));
    assert_eq!(s.place(y), Some(Place::Heap(0)));
    assert_eq!(s.worker_drain(0), None);
    check_state(&s, None);
}

#[test]
fn slot_comes_out_before_the_injector() {
    let mut s = SchedulerBuilder::new().build(1);
    s.execute(Scripted::boxed("a", vec![Step::Nop; 2]), PInfo::new());
    assert_eq!(s.worker_drain(0), Some(1));
    let mut pcb = s.worker_next(0).unwrap();
    let res = pcb.step();
    pcb.charge(MS, 20 * MS);
    s.dispatch(0, pcb, res, 1, 0);
    s.execute(Scripted::boxed("b", vec![]), PInfo::new());
    assert_eq!(s.place(1), Some(Place::Slot(0)));
    assert_eq!(s.place(2), Some(Place::Ready));
    assert_eq!(s.worker_drain(0), Some(1));
    assert_eq!(s.worker_drain(0), Some(2));
    assert_eq!(s.worker_drain(0), None);
}

#[test]
fn full_local_queue_spills_without_loss() {
    let mut s = SchedulerBuilder::new().build(2);
    let n = 100;
    for _ in 0..n {
        s.execute(Scripted::boxed("p", vec![Step::Nop; 2]), PInfo::new());
    }
    let mut taken = 0;
    while s.worker_drain(0).is_some() {
        taken += 1;
    }
    assert_eq!(taken, n);
    while let Some(mut pcb) = s.worker_next(0) {
        let res = pcb.step();
        pcb.charge(MS, 20 * MS);
        s.dispatch(0, pcb, res, 1, 0);
    }
    check_state(&s, None);
    let mut seen = Vec::new();
    while let Some(id) = s.worker_drain(1) {
        seen.push(id);
    }
    assert_eq!(seen.len(), n - 1);
    while let Some(id) = s.worker_drain(0) {
        seen.push(id);
    }
    seen.sort();
    assert_eq!(seen, (1..=(n as u32)).collect::<Vec<u32>>());
    check_state(&s, None);
}

#[test]
fn ticket_comes_with_the_last_finish_only() {
    let mut s = SchedulerBuilder::new().build(1);
    s.execute(Scripted::boxed("a", vec![]), PInfo::new());
    s.execute(Scripted::boxed("b", vec![Step::Nop]), PInfo::new());
    let events = drive(&mut s, &|_| MS);
    let retired: Vec<&Event> = events.iter().filter(|e| matches!(e, Event::Retired(_, _))).collect();
    assert_eq!(retired, vec![&Event::Retired(1, None), &Event::Retired(2, Some(2))]);
}

#[test]
fn stale_ticket_does_not_stop_the_scheduler() {
    let mut s = SchedulerBuilder::new().build(2);
    s.execute(Scripted::boxed("a", vec![]), PInfo::new());
    let events = drive(&mut s, &|_| MS);
    assert_eq!(events.last(), Some(&Event::Retired(1, Some(1))));
    s.execute(Scripted::boxed("b", vec![]), PInfo::new());
    assert!(!s.join(1));
    assert!(!s.worker_exit());
    assert!(!s.share().scheduler_done);
    let events = drive(&mut s, &|_| MS);
    assert_eq!(events.last(), Some(&Event::Retired(2, Some(2))));
    assert!(s.join(2));
    assert!(s.worker_exit());
}

#[test]
fn parked_workers_return_after_shutdown() {
    let mut s = SchedulerBuilder::new().print(false).build(3);
    s.execute(Scripted::boxed("a", vec![]), PInfo::new());
    drive(&mut s, &|_| MS);
    for w in 0..3 {
        s.worker_parks(w);
        assert!(s.worker_info(w).idle);
    }
    assert_eq!(s.running_workers(), 0);
    assert!(!s.worker_wakes(1, 5 * MS));
    assert!(!s.worker_info(1).idle);
    assert_eq!(s.worker_info(1).waiting_time, 5 * MS);
    assert_eq!(s.running_workers(), 1);
    s.worker_parks(1);
    assert!(s.join(1));
    for w in 0..3 {
        assert!(s.worker_wakes(w, 9 * MS));
        assert!(s.worker_info(w).idle);
    }
    assert_eq!(s.worker_info(1).waiting_time, 5 * MS);
    assert_eq!(s.worker_info(0).waiting_time, 0);
    assert!(s.finished(true));
}

#[test]
fn banner_waits_for_the_scheduler() {
    let mut s = SchedulerBuilder::new().build(1);
    assert!(!s.printer_tick());
    assert!(s.join(0));
    assert!(s.printer_tick());
    assert!(s.share().printer_done);
    let mut t = SchedulerBuilder::new().build(1);
    t.execute(Scripted::boxed("a", vec![Step::Nop]), PInfo::new());
    assert!(!t.join(1));
    assert!(!t.worker_exit());
    assert!(!t.share().scheduler_done);
    assert!(!t.printer_tick());
    assert!(!t.share().printer_done);
    drive(&mut t, &|_| MS);
    assert!(!t.join(0));
    assert!(t.join(1));
    assert!(t.share().done == 1 && t.share().processes == 1);
    assert!(t.pinfo(1).unwrap().done);
    assert!(t.printer_tick());
}

#[test]
fn record_of_a_process_that_is_out_is_the_one_it_left_with() {
    let mut s = SchedulerBuilder::new().build(1);
    s.execute(Scripted::boxed("a", vec![Step::Nop, Step::Read("have/x")]), PInfo::new());
    s.worker_fill(0);
    let mut pcb = s.worker_next(0).unwrap();
    let res = pcb.step();
    pcb.charge(5 * MS, 20 * MS);
    assert_eq!(s.pinfo(1).unwrap().metric.running_time, 0);
    s.dispatch(0, pcb, res, 0, 0);
    assert_eq!(s.pinfo(1).unwrap().metric.running_time, 5 * MS);
    s.worker_fill(0);
    let mut pcb = s.worker_next(0).unwrap();
    let res = pcb.step();
    pcb.charge(7 * MS, 20 * MS);
    match s.dispatch(0, pcb, res, 0, 0) {
        Action::Offload { pcb, op } => {
            assert_eq!(s.pinfo(1).unwrap().metric.running_time, 5 * MS);
            assert_eq!(s.pinfo(1).unwrap().stones, vec![Stone::Time(5 * MS)]);
            let res = OpsRes::from_file_op(op, false, Ok(0));
            s.io_complete(pcb, res, 0);
        }
        _ => panic!("expected an offload"),
    }
    assert_eq!(s.pinfo(1).unwrap().metric.running_time, 12 * MS);
    assert_eq!(
        s.pinfo(1).unwrap().stones,
        vec![Stone::Time(12 * MS), Stone::Ops(OpsType::File)]
    );
}

#[test]
fn frame_of_a_fresh_scheduler() {
    let s = SchedulerBuilder::new().build(2);
    let frame = render_frame(&s, 2, 1_234_567_890, &vec![1_000 * MS, 0]);
    assert_eq!(
        frame,
        "☆ Cost Time: 1234.5ms \n☆ Threads: 2 \n☆ Compeletes : 0/0\n\
         ☆ Workload:😁0:100.0%😁1:0.0%\n\
         ☆ Running Threads: 2/2\n\
         ☆ Threads Efficiency: 0.0%\n\n"
    );
}

#[test]
fn frame_of_a_run() {
    let mut s = SchedulerBuilder::new().build(2);
    s.execute_priority(Scripted::boxed("a", vec![Step::Read("x"), Step::Nop]), PInfo::new(), -3);
    s.execute(Scripted::boxed("b", vec![]), PInfo::new());
    s.execute(Scripted::boxed("c", vec![Step::Nop]), PInfo::new());
    s.worker_parks(1);
    s.worker_wakes(1, 250 * MS);
    s.worker_parks(1);
    let frame = render_frame(&s, 2, 0, &vec![0, 1_000 * MS]);
    assert_eq!(
        frame,
        "☆ Cost Time: 0.0ms \n☆ Threads: 2 \n☆ Compeletes : 0/3\n\
         ☆ Workload:😁0:0.0%😭1:75.0%\n\
         ☆ Running Threads: 1/2\n\
         ☆ Threads Efficiency: 50.0%\n\n\
         🍀 1. a(-3 0.0ms 🍒x0.0): \n\
         🍀 2. b(0 0.0ms 🍒x0.0): \n\
         🍀 3. c(0 0.0ms 🍒x0.0): \n"
    );
    s.worker_wakes(1, 0);
    drive(&mut s, &|id| id as u64 * 30 * MS);
    assert!(s.join(3));
    let frame = render_frame(&s, 2, 60_000 * MS, &vec![4_000 * MS, 1_000 * MS]);
    assert_eq!(
        frame,
        "☆ Cost Time: 60000.0ms \n☆ Threads: 2 \n☆ Compeletes : 3/3\n\
         ☆ Workload:😁0:100.0%😁1:75.0%\n\
         ☆ Running Threads: 2/2\n\
         ☆ Threads Efficiency: 0.0%\n\n\
         🍀 1. a(-3 90.0ms 🍒x4.5): 📃⭐️🤡\n\
         🍀 2. b(0 60.0ms 🍒x3.0): ⭐️🤡\n\
         🍀 3. c(0 180.0ms 🍒x9.0): ⭐️⭐️⭐️🤡\n\
         \n\nALL DONE!\n"
    );
}

#[test]
fn printer_records_the_final_frame() {
    let mut s = SchedulerBuilder::new().build(1);
    let printer = Printer::new(1);
    assert_eq!(printer.schedule_threads, 1);
    s.execute(Scripted::boxed("a", vec![]), PInfo::new());
    let (frame, all_done) = printer.frame(&mut s);
    assert!(!all_done);
    assert!(frame.starts_with("☆ Cost Time: "));
    assert!(frame.ends_with("🍀 1. a(0 0.0ms 🍒x0.0): \n"));
    assert!(!s.share().printer_done);
    drive(&mut s, &|_| 50 * MS);
    assert!(s.join(1));
    let (frame, all_done) = printer.frame(&mut s);
    assert!(all_done);
    assert!(frame.ends_with("🍀 1. a(0 50.0ms 🍒x2.5): ⭐️🤡\n\n\nALL DONE!\n"));
    assert!(s.share().printer_done);
    assert!(s.finished(true));
}

#[test]
fn block_keeps_the_process_it_was_admitted_with() {
    let mut s = SchedulerBuilder::new().build(1);
    let (a, seen_a) = Scripted::observed("a", vec![Step::Read("have/x"), Step::Nop], true);
    let (b, seen_b) = Scripted::observed("b", vec![Step::Nop], false);
    s.execute(a, PInfo::new());
    s.execute(b, PInfo::new());
    s.worker_fill(0);
    while let Some(mut pcb) = s.worker_next(0) {
        let id = pcb.pinfo.id;
        assert_eq!(pcb.p.name(), if id == 1 { "a" } else { "b" });
        assert_eq!(pcb.p.file_buf().is_some(), id == 1);
        let res = pcb.step();
        pcb.charge(MS, 20 * MS);
        match s.dispatch(0, pcb, res, 0, 0) {
            Action::Offload { mut pcb, op } => {
                assert_eq!(pcb.p.name(), "a");
                assert!(pcb.p.file_buf().is_some());
                let res = OpsRes::from_file_op(op, true, Ok(6));
                s.io_complete(pcb, res, 0);
            }
            _ => {}
        }
    }
    drive(&mut s, &|_| MS);
    assert_eq!(*seen_a.lock().unwrap(), vec!["empty", "read 6", "empty"]);
    assert_eq!(*seen_b.lock().unwrap(), vec!["empty", "empty"]);
    assert_eq!(s.share().done, 2);
}
