//! Sample processes: one with a fixed script, and the rules of one that
//! draws its steps at random.

use vstd::prelude::*;
use vstd::string::StringExecFns;
use crate::ops::FileOp;
use crate::ops::FileReadRes;
use crate::ops::FileWriteRes;
use crate::ops::Op;
use crate::ops::OpsRes;
use crate::pcb::line_view;
use crate::pcb::PollRes;
use crate::pcb::Process;
use crate::text::digits;
use crate::text::push_digits;

verus! {

/// A process of four polls: it asks for ten more units of priority, then for
/// a read of the file `file_open`, then for nothing, and is ready at the
/// fourth poll. Before each of the first three answers it has work to do,
/// whose length `pause_ms` tells.
#[derive(Debug)]
pub struct P1 {
    n: i32,
    name: String,
}

/// The milliseconds of work before the answer of the poll with this number,
/// counted from 1.
pub open spec fn p1_pause(poll: int) -> u64 {
    if poll == 1 {
        40
    } else if poll == 2 || poll == 3 {
        30
    } else {
        0
    }
}

/// Whether `res` is the answer of the poll with this number, counted from 1.
pub open spec fn p1_answers(poll: int, res: PollRes) -> bool {
    if poll == 1 {
        res == PollRes::Polling(Op::AddPriority(10))
    } else if poll == 2 {
        match res {
            PollRes::Polling(Op::FileOp(FileOp::Read(path))) => path@ == "file_open"@,
            _ => false,
        }
    } else if poll == 3 {
        res == PollRes::Polling(Op::Nop)
    } else {
        res == PollRes::Ready
    }
}

impl P1 {
    /// The number of polls so far; it stops counting at the largest `i32`.
    pub closed spec fn polls(&self) -> int {
        self.n as int
    }

    /// The label of the process.
    pub closed spec fn label(&self) -> Seq<char> {
        self.name@
    }

    /// The process before its first poll, with the label `P1`.
    pub fn new() -> (p: P1)
        ensures
            p.polls() == 0,
            p.label() == "P1"@,
    {
        P1 { n: 0, name: "P1".to_owned() }
    }

    /// The milliseconds of work that the next poll stands for.
    pub fn pause_ms(&self) -> (ms: u64)
        ensures
            ms == p1_pause(self.polls() + 1),
    {
        if self.n == 0 {
            40
        } else if self.n == 1 || self.n == 2 {
            30
        } else {
            0
        }
    }
}

impl Process for P1 {
    fn name(&self) -> (name: String)
        ensures
            name@ == self.label(),
    {
        self.name.clone()
    }

    fn poll(&mut self, outbox: &mut Vec<String>, ops_res: OpsRes) -> (res: PollRes)
        ensures
            final(self).polls() == if old(self).polls() < i32::MAX {
                old(self).polls() + 1
            } else {
                old(self).polls()
            },
            final(self).label() == old(self).label(),
            p1_answers(final(self).polls(), res),
            final(outbox)@ == old(outbox)@,
    {
        if self.n < i32::MAX {
            self.n = self.n + 1;
        }
        if self.n == 1 {
            PollRes::Polling(Op::AddPriority(10))
        } else if self.n == 2 {
            PollRes::Polling(Op::FileOp(FileOp::Read("file_open".to_owned())))
        } else if self.n == 3 {
            PollRes::Polling(Op::Nop)
        } else {
            PollRes::Ready
        }
    }
}

/// The label of a random process at the step after `state` steps, of
/// `state_max` in all, where the step works for `pause` nanoseconds: the
/// number of the step, the work in whole milliseconds, and the number of
/// steps.
pub open spec fn step_label(state: u32, pause: u64, state_max: u32) -> Seq<char> {
    "["@ + digits(state as nat + 1) + "-"@ + digits(pause as nat / 1_000_000) + "ms "@ + digits(
        state_max as nat,
    ) + "]"@
}

/// The path of the file that a random write goes to.
pub open spec fn out_path(word: Seq<char>) -> Seq<char> {
    "out/"@ + word + ".txt"@
}

/// Whether `res` is what a random process asks for after a step on the
/// draw `op_choice`: on 0, 1 and 2 a change of its priority by or to
/// `amount`, on 3 a read of `target`, on 4 a write of `content` to the file
/// named after `word`, and nothing on any other draw.
pub open spec fn random_answers(
    res: PollRes,
    op_choice: u32,
    amount: i32,
    target: String,
    word: String,
    content: String,
) -> bool {
    if op_choice == 0 {
        res == PollRes::Polling(Op::AddPriority(amount))
    } else if op_choice == 1 {
        res == PollRes::Polling(Op::SubPriority(amount))
    } else if op_choice == 2 {
        res == PollRes::Polling(Op::SetPriority(amount))
    } else if op_choice == 3 {
        res == PollRes::Polling(Op::FileOp(FileOp::Read(target)))
    } else if op_choice == 4 {
        match res {
            PollRes::Polling(Op::FileOp(FileOp::Write { path, content: written })) => path@
                == out_path(word@) && written == content,
            _ => false,
        }
    } else {
        res == PollRes::Polling(Op::Nop)
    }
}

/// The message in which a process with the label `name` reports the outcome
/// of its last file operation; `buf` is its file buffer and `error` the text
/// of the failure, where there was one. No outcome and a missing buffer are
/// not reported.
pub open spec fn report_text(name: Seq<char>, buf: Seq<char>, ops_res: OpsRes, error: Seq<char>) -> Option<
    Seq<char>,
> {
    match ops_res {
        OpsRes::Empty => None,
        OpsRes::FileReadRes(FileReadRes::Done(_)) => Some(name + " READ: "@ + buf),
        OpsRes::FileReadRes(FileReadRes::FileBufReturnNone) => None,
        OpsRes::FileReadRes(FileReadRes::Failed(_)) => Some(name + " READ ERR: "@ + error),
        OpsRes::FileWriteRes(FileWriteRes::Done { path }) => Some(
            name + " ["@ + path@ + "] WRITE OK."@,
        ),
        OpsRes::FileWriteRes(FileWriteRes::Failed { path, err }) => Some(
            name + " ["@ + path@ + "] WRITE ERR: "@ + error,
        ),
    }
}

/// The number of outcomes of the draw that decides what a random process
/// says, and of the draw that decides what it asks for.
pub const CHOICES: u32 = 10_000;

/// The least amount of a random priority request.
pub const AMOUNT_MIN: i32 = 1;

/// The greatest amount of a random priority request.
pub const AMOUNT_MAX: i32 = 30;

/// The least length of the word after which a random write names its file.
pub const WORD_MIN: usize = 3;

/// The greatest length of that word.
pub const WORD_MAX: usize = 10;

/// The number of outcomes of the draw that chooses the target of a random
/// read among `txts` sample texts: one for each text and two more.
pub fn read_draws(txts: usize) -> (n: usize)
    ensures
        n == if txts + 2 > usize::MAX {
            usize::MAX as int
        } else {
            txts + 2
        },
{
    if txts > usize::MAX - 2 {
        usize::MAX
    } else {
        txts + 2
    }
}

/// The sample text that a random read goes to on the draw `choice`, of
/// `txts` sample texts: the text with that number, or none, where the draw
/// is one of those beyond the texts and the process makes up a path.
pub fn read_choice(choice: usize, txts: usize) -> (index: Option<usize>)
    ensures
        index == if choice < txts {
            Some(choice)
        } else {
            None
        },
{
    if choice < txts {
        Some(choice)
    } else {
        None
    }
}

/// The draws for one step of a random process.
pub struct Roll {
    /// How long the step works, in nanoseconds.
    pub pause: u64,
    /// The process says something exactly on the draw 0.
    pub print_choice: u32,
    /// What the process says then.
    pub say: String,
    /// What the process asks for after the step.
    pub op_choice: u32,
    /// The amount of a priority request.
    pub amount: i32,
    /// The path of a read.
    pub target: String,
    /// The word after which the file of a write is named.
    pub word: String,
    /// What a write writes.
    pub content: String,
}

/// A process that takes a number of steps and draws at random what each
/// step works and asks for. The draws come from outside.
#[derive(Debug)]
pub struct RandomProcess {
    state: u32,
    state_max: u32,
    name: String,
}

/// The mathematical content of a `RandomProcess`.
pub struct RandomView {
    /// The number of steps taken.
    pub state: u32,
    /// The number of steps to take.
    pub state_max: u32,
    pub name: Seq<char>,
}

impl View for RandomProcess {
    type V = RandomView;

    closed spec fn view(&self) -> RandomView {
        RandomView { state: self.state, state_max: self.state_max, name: self.name@ }
    }
}

/// The number of steps that a random process of `state_max` steps has taken
/// after a poll, where it had taken `state` before: one more, until it has
/// taken them all.
pub open spec fn step_after(state: u32, state_max: u32) -> u32 {
    if state >= state_max {
        state
    } else {
        (state + 1) as u32
    }
}

/// The messages that a step of a random process sends: the report of the
/// last file operation, if there is one to make, and then what the process
/// says, if it is not ready and the draw is 0. The second message goes under
/// the label of the step. `buf` is what the last read has left in the file
/// buffer.
pub open spec fn poll_messages(
    p: RandomView,
    roll: Roll,
    buf: Seq<char>,
    ops_res: OpsRes,
    error: Seq<char>,
) -> Seq<Seq<char>> {
    let first = match report_text(p.name, buf, ops_res, error) {
        Some(line) => seq![line],
        None => Seq::empty(),
    };
    if p.state != p.state_max && roll.print_choice == 0 {
        first.push(step_label(p.state, roll.pause, p.state_max) + " say: "@ + roll.say@)
    } else {
        first
    }
}

/// The texts of a list of messages.
pub open spec fn texts(lines: Seq<String>) -> Seq<Seq<char>> {
    Seq::new(lines.len(), |i: int| lines[i]@)
}

/// `ToString::to_string` on an I/O failure gives the text that its `Display`
/// writes. The operating system and its settings decide the text, so nothing
/// is claimed of it.
#[verifier::external_body]
fn error_text(e: &std::io::Error) -> (text: String) {
    e.to_string()
}

/// Whether the outcome of a file operation holds a failure.
pub open spec fn holds_failure(ops_res: OpsRes) -> bool {
    match ops_res {
        OpsRes::FileReadRes(FileReadRes::Failed(_)) => true,
        OpsRes::FileWriteRes(FileWriteRes::Failed { path: _, err: _ }) => true,
        _ => false,
    }
}

/// The text of the failure in the outcome of a file operation, which the
/// operating system words; the empty text for an outcome without a failure.
fn failure_text(ops_res: &OpsRes) -> (text: String)
    ensures
        !holds_failure(*ops_res) ==> text@ == Seq::<char>::empty(),
{
    match ops_res {
        OpsRes::FileReadRes(FileReadRes::Failed(e)) => error_text(e),
        OpsRes::FileWriteRes(FileWriteRes::Failed { path: _, err }) => error_text(err),
        _ => String::new(),
    }
}

impl RandomProcess {
    /// The process never takes more steps than it has.
    #[verifier::type_invariant]
    spec fn steps_in_range(&self) -> bool {
        self.state <= self.state_max
    }

    /// A process of `state_max` steps that has taken none.
    pub fn new(state_max: u32) -> (p: RandomProcess)
        ensures
            p@ == (RandomView { state: 0, state_max, name: "Random Ready"@ }),
    {
        RandomProcess { state: 0, state_max, name: "Random Ready".to_owned() }
    }

    /// The label of the process.
    pub fn name(&self) -> (name: String)
        ensures
            name@ == self@.name,
    {
        self.name.clone()
    }

    /// Whether the process has taken all its steps: its next poll says that
    /// it is ready and does no work.
    pub fn is_finished(&self) -> (finished: bool)
        ensures
            finished == (self@.state == self@.state_max),
    {
        self.state == self.state_max
    }

    /// One poll of the process with the draws `roll`, where the last read
    /// has left `buf` in the file buffer. The process reports the outcome
    /// `ops_res` of its last file operation. If it has taken all its steps it
    /// is ready. Otherwise it takes the label of the step, says something on
    /// the draw 0, counts the step, and asks for what the draws say. The text
    /// of a failure in `ops_res` is that of the operating system.
    pub fn poll(&mut self, roll: Roll, buf: &String, outbox: &mut Vec<String>, ops_res: OpsRes) -> (res:
        PollRes)
        ensures
            exists|error: Seq<char>| #[trigger]
                poll_messages(old(self)@, roll, buf@, ops_res, error) == texts(
                    final(outbox)@,
                ).skip(old(outbox)@.len() as int),
            texts(final(outbox)@).take(old(outbox)@.len() as int) == texts(old(outbox)@),
            final(self)@.state_max == old(self)@.state_max,
            final(self)@.state <= final(self)@.state_max,
            final(self)@.state == step_after(old(self)@.state, old(self)@.state_max),
            res is Ready <==> old(self)@.state == old(self)@.state_max,
            if old(self)@.state == old(self)@.state_max {
                &&& res == PollRes::Ready
                &&& final(self)@ == old(self)@
            } else {
                &&& final(self)@.state == old(self)@.state + 1
                &&& final(self)@.name == step_label(
                    old(self)@.state,
                    roll.pause,
                    old(self)@.state_max,
                )
                &&& random_answers(
                    res,
                    roll.op_choice,
                    roll.amount,
                    roll.target,
                    roll.word,
                    roll.content,
                )
            },
    {
        proof {
            use_type_invariant(&*self);
        }
        let error = failure_text(&ops_res);
        let ghost before = texts(outbox@);
        let ghost base = outbox@.len() as int;
        match report(&self.name, buf, &ops_res, &error) {
            Some(line) => {
                outbox.push(line);
            },
            None => {},
        }
        let ghost first = texts(outbox@).skip(base);
        proof {
            assert(texts(outbox@).take(base) =~= before);
            match report_text(self@.name, buf@, ops_res, error@) {
                Some(line) => {
                    assert(first =~= seq![line]);
                },
                None => {
                    assert(first =~= Seq::<Seq<char>>::empty());
                },
            }
        }
        if self.state == self.state_max {
            assert(poll_messages(old(self)@, roll, buf@, ops_res, error@) == texts(outbox@).skip(base));
            return PollRes::Ready;
        }
        self.name = random_label(self.state, roll.pause, self.state_max);
        if roll.print_choice == 0 {
            let mut line = self.name.clone();
            line.append(" say: ");
            line.append(roll.say.as_str());
            outbox.push(line);
            proof {
                assert(texts(outbox@).skip(base) =~= first.push(
                    step_label(old(self)@.state, roll.pause, old(self)@.state_max) + " say: "@
                        + roll.say@,
                ));
                assert(texts(outbox@).take(base) =~= before);
            }
        }
        assert(poll_messages(old(self)@, roll, buf@, ops_res, error@) == texts(outbox@).skip(base));
        self.state = self.state + 1;
        random_op(roll.op_choice, roll.amount, roll.target, roll.word, roll.content)
    }
}

/// The label of a random process at its next step.
pub fn random_label(state: u32, pause: u64, state_max: u32) -> (name: String)
    ensures
        name@ == step_label(state, pause, state_max),
{
    let mut name = String::new();
    name.append("[");
    push_digits(&mut name, state as u64 + 1);
    name.append("-");
    push_digits(&mut name, pause / 1_000_000);
    name.append("ms ");
    push_digits(&mut name, state_max as u64);
    name.append("]");
    assert(name@ =~= step_label(state, pause, state_max));
    name
}

/// What a random process asks for after a step, on the draw `op_choice`.
pub fn random_op(op_choice: u32, amount: i32, target: String, word: String, content: String) -> (res:
    PollRes)
    ensures
        random_answers(res, op_choice, amount, target, word, content),
{
    if op_choice == 0 {
        PollRes::Polling(Op::AddPriority(amount))
    } else if op_choice == 1 {
        PollRes::Polling(Op::SubPriority(amount))
    } else if op_choice == 2 {
        PollRes::Polling(Op::SetPriority(amount))
    } else if op_choice == 3 {
        PollRes::Polling(Op::FileOp(FileOp::Read(target)))
    } else if op_choice == 4 {
        let mut path = String::new();
        path.append("out/");
        path.append(word.as_str());
        path.append(".txt");
        assert(path@ =~= out_path(word@));
        PollRes::Polling(Op::FileOp(FileOp::Write { path, content }))
    } else {
        PollRes::Polling(Op::Nop)
    }
}

/// The message in which a process reports the outcome of its last file
/// operation, if the outcome is one to report.
pub fn report(name: &String, buf: &String, ops_res: &OpsRes, error: &String) -> (line: Option<String>)
    ensures
        line_view(line) == report_text(name@, buf@, *ops_res, error@),
{
    let mut line = String::new();
    line.append(name.as_str());
    match ops_res {
        OpsRes::Empty => {
            return None;
        },
        OpsRes::FileReadRes(FileReadRes::Done(_)) => {
            line.append(" READ: ");
            line.append(buf.as_str());
        },
        OpsRes::FileReadRes(FileReadRes::FileBufReturnNone) => {
            return None;
        },
        OpsRes::FileReadRes(FileReadRes::Failed(_)) => {
            line.append(" READ ERR: ");
            line.append(error.as_str());
        },
        OpsRes::FileWriteRes(FileWriteRes::Done { path }) => {
            line.append(" [");
            line.append(path.as_str());
            line.append("] WRITE OK.");
        },
        OpsRes::FileWriteRes(FileWriteRes::Failed { path, err: _ }) => {
            line.append(" [");
            line.append(path.as_str());
            line.append("] WRITE ERR: ");
            line.append(error.as_str());
        },
    }
    assert(line_view(Some(line)) =~= report_text(name@, buf@, *ops_res, error@)) by {
        match *ops_res {
            OpsRes::FileReadRes(FileReadRes::Done(_)) => {
                assert(line@ =~= name@ + " READ: "@ + buf@);
            },
            OpsRes::FileReadRes(FileReadRes::Failed(_)) => {
                assert(line@ =~= name@ + " READ ERR: "@ + error@);
            },
            OpsRes::FileWriteRes(FileWriteRes::Done { path }) => {
                assert(line@ =~= name@ + " ["@ + path@ + "] WRITE OK."@);
            },
            OpsRes::FileWriteRes(FileWriteRes::Failed { path, err }) => {
                assert(line@ =~= name@ + " ["@ + path@ + "] WRITE ERR: "@ + error@);
            },
            _ => {},
        }
    }
    Some(line)
}

} // verus!
