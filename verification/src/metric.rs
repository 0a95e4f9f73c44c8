//! The scheduling key of a process.

use vstd::prelude::*;
use std::cmp::Ordering;

verus! {

/// The running time, in nanoseconds, that one unit of priority is worth.
pub const EACH_COMPENSATE: u64 = 20_000_000;

/// What a process is ordered by: its priority and the time it has run so far,
/// in nanoseconds.
#[derive(Debug, Clone, Copy, PartialEq, Eq, Structural)]
pub struct Metric {
    pub priority: i32,
    pub running_time: u64,
}

impl Metric {
    /// The scheduling key: running time less the credit that the priority
    /// buys. The process with the lowest key runs first.
    pub open spec fn key(self) -> int {
        self.running_time as int - self.priority as int * 20_000_000
    }

    /// The scheduling key as a number.
    pub fn value(&self) -> (v: i128)
        ensures
            v == self.key(),
    {
        let time: i128 = self.running_time as i128;
        let unit: i128 = EACH_COMPENSATE as i128;
        let priority: i128 = self.priority as i128;
        assert(-0x8000_0000 * 20_000_000 <= priority * unit <= 0x8000_0000 * 20_000_000)
            by (nonlinear_arith)
            requires
                -0x8000_0000 <= priority <= 0x8000_0000,
                unit == 20_000_000,
        ;
        let credit: i128 = priority * unit;
        time - credit
    }
}

impl Default for Metric {
    fn default() -> (m: Metric)
        ensures
            m == (Metric { priority: 0, running_time: 0 }),
    {
        Metric { priority: 0, running_time: 0 }
    }
}

impl PartialOrd for Metric {
    /// Orders metrics for a queue that hands out its greatest item first: the
    /// greater metric is the one with the lower key.
    fn partial_cmp(&self, other: &Metric) -> (r: Option<Ordering>) {
        let mine = self.value();
        let theirs = other.value();
        if theirs < mine {
            Some(Ordering::Less)
        } else if theirs == mine {
            Some(Ordering::Equal)
        } else {
            Some(Ordering::Greater)
        }
    }
}

impl vstd::std_specs::cmp::PartialOrdSpecImpl for Metric {
    open spec fn obeys_partial_cmp_spec() -> bool {
        true
    }

    open spec fn partial_cmp_spec(&self, other: &Metric) -> Option<Ordering> {
        if other.key() < self.key() {
            Some(Ordering::Less)
        } else if other.key() == self.key() {
            Some(Ordering::Equal)
        } else {
            Some(Ordering::Greater)
        }
    }
}

/// At equal running time the higher priority has the lower key, by the
/// compensation for each unit of difference.
pub proof fn lemma_priority_buys_time(a: Metric, b: Metric)
    requires
        a.running_time == b.running_time,
    ensures
        a.key() - b.key() == (b.priority - a.priority) * 20_000_000,
        a.priority > b.priority ==> a.key() < b.key(),
{
}

/// Running longer raises the key by exactly the time added.
pub proof fn lemma_time_raises_key(a: Metric, b: Metric)
    requires
        a.priority == b.priority,
    ensures
        a.key() - b.key() == a.running_time - b.running_time,
{
}

} // verus!
