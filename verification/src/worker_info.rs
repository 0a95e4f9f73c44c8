//! What the scheduler shows of a worker.

use vstd::prelude::*;
use std::time::Instant;

verus! {

/// The state of one worker: when it started, how long it has been parked in
/// all, in nanoseconds, and whether it is parked now.
#[derive(Debug)]
pub struct WorkerInfo {
    pub id: usize,
    pub start_point: Instant,
    pub waiting_time: u64,
    pub idle: bool,
}

impl WorkerInfo {
    /// The state of worker `id` as it starts now: never parked, and busy.
    /// The clock decides `start_point`.
    pub fn new(id: usize) -> (info: WorkerInfo)
        ensures
            info.id == id,
            info.waiting_time == 0,
            !info.idle,
    {
        WorkerInfo { id, start_point: Instant::now(), waiting_time: 0, idle: false }
    }

    /// The worker found nothing to run and parks.
    pub fn park(&mut self)
        ensures
            *final(self) == (WorkerInfo { idle: true, ..*old(self) }),
    {
        self.idle = true;
    }

    /// The worker is back at work after `parked` nanoseconds, which are added
    /// to its waiting time; the sum stops at the largest `u64`.
    pub fn unpark(&mut self, parked: u64)
        ensures
            *final(self) == (WorkerInfo {
                idle: false,
                waiting_time: if old(self).waiting_time + parked > u64::MAX {
                    u64::MAX
                } else {
                    (old(self).waiting_time + parked) as u64
                },
                ..*old(self)
            }),
    {
        self.waiting_time = if parked > u64::MAX - self.waiting_time {
            u64::MAX
        } else {
            self.waiting_time + parked
        };
        self.idle = false;
    }
}

} // verus!
