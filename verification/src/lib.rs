//! The core of a cooperative, priority-driven process scheduler.
//!
//! Processes are step machines that a fixed pool of workers polls in turn. The
//! crate holds the rules of that pool as a state machine over plain values:
//! what a poll costs a process, which process a worker takes next, where a
//! process goes after a poll, and when the run is over. Threads, parking,
//! files and sockets stay with the embedding program, which performs the
//! actions that the state machine hands out.

pub mod clock;
pub mod heap;
pub mod laws;
pub mod metric;
pub mod model;
pub mod ops;
pub mod order;
pub mod pcb;
pub mod printer;
pub mod processes;
pub mod ready;
pub mod scheduler;
pub mod steps;
pub mod text;
pub mod timeline;
pub mod worker_info;
