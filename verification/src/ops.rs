//! What a process can ask of the scheduler, and what it gets back.

use vstd::prelude::*;

verus! {

/// An I/O failure as the operating system reported it. The scheduler carries
/// such a value from the offload pool to the process and never looks inside.
#[verifier::external_type_specification]
#[verifier::external_body]
pub struct ExIoError(std::io::Error);

/// A blocking file operation that a process hands to the offload pool.
#[derive(Debug)]
pub enum FileOp {
    /// Read the whole file at this path into the process's file buffer.
    Read(String),
    /// Create the file at `path` and write `content` to it.
    Write { path: String, content: String },
}

/// The request that comes with a poll that has not finished.
#[derive(Debug)]
pub enum Op {
    /// Nothing to do: put the process back.
    Nop,
    /// Raise the priority by the amount.
    AddPriority(i32),
    /// Lower the priority by the amount.
    SubPriority(i32),
    /// Replace the priority.
    SetPriority(i32),
    /// Perform a file operation off the worker.
    FileOp(FileOp),
}

/// The outcome of the last offloaded operation, handed to the next poll.
#[derive(Debug)]
pub enum OpsRes {
    /// No operation was pending.
    Empty,
    FileReadRes(FileReadRes),
    FileWriteRes(FileWriteRes),
}

/// How a read ended.
#[derive(Debug)]
pub enum FileReadRes {
    /// The number of bytes now in the file buffer.
    Done(usize),
    /// The file could be read, but the process offers no file buffer to
    /// read into.
    FileBufReturnNone,
    /// Opening or reading failed.
    Failed(std::io::Error),
}

/// How a write ended.
#[derive(Debug)]
pub enum FileWriteRes {
    Done { path: String },
    Failed { path: String, err: std::io::Error },
}

/// The kind of an operation marker on a timeline.
#[derive(Debug, Clone, Copy, PartialEq, Eq, Structural)]
pub enum OpsType {
    File,
    Net,
}

/// One event on a process's timeline: a stretch of running time in
/// nanoseconds, or the marker of an operation.
#[derive(Debug, Clone, Copy, PartialEq, Eq, Structural)]
pub enum Stone {
    Time(u64),
    Ops(OpsType),
}

impl Default for OpsRes {
    fn default() -> (res: OpsRes)
        ensures
            res == OpsRes::Empty,
    {
        OpsRes::Empty
    }
}

impl FileReadRes {
    /// Classifies a finished read. `has_buffer` says whether the process
    /// offered a buffer; `read` is what opening and reading the file gave. A
    /// failure of the file system is reported whether or not there is a
    /// buffer; a read that the file system let pass counts only where the
    /// process had a buffer to take it.
    pub fn from_read(has_buffer: bool, read: Result<usize, std::io::Error>) -> (res: FileReadRes)
        ensures
            res == read_result(has_buffer, read),
    {
        match read {
            Err(e) => FileReadRes::Failed(e),
            Ok(n) => {
                if has_buffer {
                    FileReadRes::Done(n)
                } else {
                    FileReadRes::FileBufReturnNone
                }
            },
        }
    }
}

impl FileWriteRes {
    /// Classifies a finished write to `path`. `written` is what creating and
    /// writing the file gave.
    pub fn from_write(path: String, written: Result<(), std::io::Error>) -> (res: FileWriteRes)
        ensures
            match written {
                Ok(_) => res == (FileWriteRes::Done { path }),
                Err(e) => res == (FileWriteRes::Failed { path, err: e }),
            },
    {
        match written {
            Ok(_) => FileWriteRes::Done { path },
            Err(e) => FileWriteRes::Failed { path, err: e },
        }
    }
}

impl OpsRes {
    /// The result that the offload pool records for a finished file
    /// operation: a read is classified by `FileReadRes::from_read`, a write by
    /// `FileWriteRes::from_write`.
    pub fn from_file_op(op: FileOp, has_buffer: bool, outcome: Result<usize, std::io::Error>) -> (res:
        OpsRes)
        ensures
            res == file_op_result(op, has_buffer, outcome),
    {
        match op {
            FileOp::Read(_) => OpsRes::FileReadRes(FileReadRes::from_read(has_buffer, outcome)),
            FileOp::Write { path, content: _ } => {
                let written = match outcome {
                    Ok(_) => Ok(()),
                    Err(e) => Err(e),
                };
                OpsRes::FileWriteRes(FileWriteRes::from_write(path, written))
            },
        }
    }
}

/// How a read ended: with the failure of the file system where there was
/// one, else with the number of bytes read where the process had a buffer
/// for them, else with the lack of a buffer.
pub open spec fn read_result(has_buffer: bool, read: Result<usize, std::io::Error>) -> FileReadRes {
    match read {
        Err(e) => FileReadRes::Failed(e),
        Ok(n) => if has_buffer {
            FileReadRes::Done(n)
        } else {
            FileReadRes::FileBufReturnNone
        },
    }
}

/// What a file operation leaves for the next poll, given what the file system
/// answered. For a write only success or failure of `outcome` counts.
pub open spec fn file_op_result(
    op: FileOp,
    has_buffer: bool,
    outcome: Result<usize, std::io::Error>,
) -> OpsRes {
    match op {
        FileOp::Read(_) => OpsRes::FileReadRes(read_result(has_buffer, outcome)),
        FileOp::Write { path, content } => OpsRes::FileWriteRes(
            match outcome {
                Ok(_) => FileWriteRes::Done { path },
                Err(e) => FileWriteRes::Failed { path, err: e },
            },
        ),
    }
}

} // verus!
