//! The order of process control blocks: that of their metrics.

use vstd::prelude::*;
use std::cmp::Ordering;
use crate::pcb::Pcb;

verus! {

impl PartialEq for Pcb {
    /// Two control blocks are equal where their metrics are: the same
    /// priority and the same running time.
    fn eq(&self, other: &Pcb) -> (r: bool) {
        self.pinfo.metric == other.pinfo.metric
    }
}

impl vstd::std_specs::cmp::PartialEqSpecImpl for Pcb {
    open spec fn obeys_eq_spec() -> bool {
        true
    }

    open spec fn eq_spec(&self, other: &Pcb) -> bool {
        self.pinfo.metric == other.pinfo.metric
    }
}

impl PartialOrd for Pcb {
    /// Control blocks are ordered as their metrics are: the greater one is
    /// the one that runs first.
    fn partial_cmp(&self, other: &Pcb) -> (r: Option<Ordering>) {
        self.pinfo.metric.partial_cmp(&other.pinfo.metric)
    }
}

impl vstd::std_specs::cmp::PartialOrdSpecImpl for Pcb {
    open spec fn obeys_partial_cmp_spec() -> bool {
        true
    }

    open spec fn partial_cmp_spec(&self, other: &Pcb) -> Option<Ordering> {
        if other.pinfo.metric.key() < self.pinfo.metric.key() {
            Some(Ordering::Less)
        } else if other.pinfo.metric.key() == self.pinfo.metric.key() {
            Some(Ordering::Equal)
        } else {
            Some(Ordering::Greater)
        }
    }
}

} // verus!
