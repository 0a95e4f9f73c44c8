//! Every step of the scheduler keeps the invariant of its state.

use vstd::prelude::*;
use crate::heap::descending;
use crate::model::held;
use crate::model::lemma_retired_count_bound;
use crate::model::lemma_retired_count_push;
use crate::model::lemma_retired_count_update;
use crate::model::Place;
use crate::model::SchedView;
use crate::pcb::PcbView;

verus! {

/// Admission keeps the invariant, where the control block carries the next
/// free number and a consistent record that is not marked done.
pub proof fn lemma_admission_keeps_inv(s: SchedView, pv: PcbView)
    requires
        s.inv(),
        s.places.len() + 1 < u32::MAX,
        pv.pinfo.id == s.places.len() + 1,
        pv.pinfo.wf(),
        !pv.pinfo.done,
    ensures
        s.after_admission(pv).inv(),
{
    let t = s.after_admission(pv);
    let n = s.places.len() as int;
    lemma_retired_count_push(s.places, Place::Ready);
    assert forall|i: int| 0 <= i < t.places.len() implies #[trigger] t.slot_ok(i) by {
        if i < n {
            assert(s.slot_ok(i));
        }
    }
    assert forall|i: int| 0 <= i < t.places.len() implies #[trigger] t.record_ok(i) by {
        if i < n {
            assert(s.record_ok(i));
        }
    }
    assert forall|i: int| 0 <= i < t.places.len() implies #[trigger] t.place_ok(i) by {
        if i < n {
            assert(s.place_ok(i));
            lemma_place_kept(s, t, i);
        }
    }
    assert forall|id: u32| #[trigger] t.ready_ok(id) by {
        assert(s.ready_ok(id));
    }
    assert forall|w: int| 0 <= w < t.heaps.len() implies #[trigger] t.heap_ok(w) by {
        assert(s.heap_ok(w));
        assert forall|k: int| 0 <= k < t.heaps[w].len() implies #[trigger] t.entry_ok(w, k) by {
            assert(s.entry_ok(w, k));
        }
    }
    assert forall|w: int| 0 <= w < t.kept.len() implies #[trigger] t.kept_ok(w) by {
        assert(s.kept_ok(w));
    }
}

/// Draining a ready process into a run queue keeps the invariant, where the
/// entry goes to a position that keeps the keys of the queue falling.
pub proof fn lemma_drain_keeps_inv(s: SchedView, w: usize, id: u32, at: int)
    requires
        s.inv(),
        w < s.workers,
        match s.kept[w as int] {
            Some(front) => id == front,
            None => s.ready.count(id) > 0,
        },
        0 <= at <= s.heaps[w as int].len(),
        descending(s.after_drain(w, id, at).heaps[w as int]),
    ensures
        s.valid_id(id),
        s.place_of(id) == if s.kept[w as int] is Some {
            Place::Slot(w)
        } else {
            Place::Ready
        },
        s.after_drain(w, id, at).inv(),
{
    let t = s.after_drain(w, id, at);
    assert(s.ready_ok(id));
    assert(s.kept_ok(w as int));
    let i0 = id - 1;
    assert(s.slot_ok(i0));
    lemma_retired_count_update(s.places, i0, Place::Heap(w));
    let before = s.heaps[w as int];
    let after = t.heaps[w as int];
    assert forall|i: int| 0 <= i < t.places.len() implies #[trigger] t.slot_ok(i) by {
        assert(s.slot_ok(i));
    }
    assert forall|i: int| 0 <= i < t.places.len() implies #[trigger] t.record_ok(i) by {
        assert(s.record_ok(i));
    }
    assert forall|i: int| 0 <= i < t.places.len() implies #[trigger] t.place_ok(i) by {
        assert(s.place_ok(i));
        if i == i0 {
            assert(after[at].1 == i + 1);
        } else {
            match s.places[i] {
                Place::Heap(v) => {
                    if v == w {
                        let k = choose|k: int|
                            0 <= k < before.len() && (#[trigger] before[k]).1 == i + 1;
                        if k < at {
                            assert(after[k] == before[k]);
                        } else {
                            assert(after[k + 1] == before[k]);
                        }
                    } else {
                        assert(t.heaps[v as int] == s.heaps[v as int]);
                    }
                },
                _ => {},
            }
        }
    }
    assert forall|x: u32| #[trigger] t.ready_ok(x) by {
        assert(s.ready_ok(x));
    }
    assert forall|v: int| 0 <= v < t.kept.len() implies #[trigger] t.kept_ok(v) by {
        assert(s.kept_ok(v));
    }
    assert forall|v: int| 0 <= v < t.heaps.len() implies #[trigger] t.heap_ok(v) by {
        assert(s.heap_ok(v));
        if v == w {
            assert forall|k: int| 0 <= k < after.len() implies #[trigger] t.entry_ok(v, k) by {
                if k < at {
                    assert(after[k] == before[k]);
                    assert(s.entry_ok(v, k));
                } else if k > at {
                    assert(after[k] == before[k - 1]);
                    assert(s.entry_ok(v, k - 1));
                }
                assert forall|j: int| 0 <= j < after.len() && j != k implies (
                #[trigger] after[j]).1 != after[k].1 by {
                    if j < at {
                        assert(after[j] == before[j]);
                        assert(s.entry_ok(v, j));
                    } else if j > at {
                        assert(after[j] == before[j - 1]);
                        assert(s.entry_ok(v, j - 1));
                    }
                }
            }
        } else {
            assert forall|k: int| 0 <= k < t.heaps[v].len() implies #[trigger] t.entry_ok(v, k) by {
                assert(s.entry_ok(v, k));
            }
        }
    }
}

/// Taking the last entry of a run queue keeps the invariant.
pub proof fn lemma_take_keeps_inv(s: SchedView, w: usize)
    requires
        s.inv(),
        w < s.workers,
        s.heaps[w as int].len() > 0,
    ensures
        s.valid_id(s.heaps[w as int].last().1),
        s.place_of(s.heaps[w as int].last().1) == Place::Heap(w),
        s.slots[s.heaps[w as int].last().1 - 1] is Some,
        s.after_take(w).inv(),
{
    let t = s.after_take(w);
    let before = s.heaps[w as int];
    let after = t.heaps[w as int];
    let last = before.len() - 1;
    let id = before.last().1;
    let i0 = id - 1;
    assert(s.heap_ok(w as int));
    assert(s.entry_ok(w as int, last));
    lemma_retired_count_update(s.places, i0, Place::Running(w));
    assert forall|i: int| 0 <= i < t.places.len() implies #[trigger] t.slot_ok(i) by {
        assert(s.slot_ok(i));
    }
    assert forall|i: int| 0 <= i < t.places.len() implies #[trigger] t.record_ok(i) by {
        assert(s.record_ok(i));
        assert(s.slot_ok(i));
    }
    assert forall|i: int| 0 <= i < t.places.len() implies #[trigger] t.place_ok(i) by {
        assert(s.place_ok(i));
        if i != i0 {
            match s.places[i] {
                Place::Heap(v) => {
                    if v == w {
                        let k = choose|k: int|
                            0 <= k < before.len() && (#[trigger] before[k]).1 == i + 1;
                        assert(k != last);
                        assert(after[k] == before[k]);
                    } else {
                        assert(t.heaps[v as int] == s.heaps[v as int]);
                    }
                },
                _ => {},
            }
        }
    }
    assert forall|x: u32| #[trigger] t.ready_ok(x) by {
        assert(s.ready_ok(x));
    }
    assert forall|v: int| 0 <= v < t.kept.len() implies #[trigger] t.kept_ok(v) by {
        assert(s.kept_ok(v));
    }
    assert forall|v: int| 0 <= v < t.heaps.len() implies #[trigger] t.heap_ok(v) by {
        assert(s.heap_ok(v));
        if v == w {
            assert forall|k: int| 0 <= k < after.len() implies #[trigger] t.entry_ok(v, k) by {
                assert(after[k] == before[k]);
                assert(s.entry_ok(v, k));
                assert(before[last].1 != before[k].1);
                assert forall|j: int| 0 <= j < after.len() && j != k implies (
                #[trigger] after[j]).1 != after[k].1 by {
                    assert(after[j] == before[j]);
                }
            }
        } else {
            assert forall|k: int| 0 <= k < t.heaps[v].len() implies #[trigger] t.entry_ok(v, k) by {
                assert(s.entry_ok(v, k));
                assert(s.entry_ok(w as int, last));
            }
        }
    }
}

/// Retiring a running process keeps the invariant.
pub proof fn lemma_retire_keeps_inv(s: SchedView, pv: PcbView)
    requires
        s.inv(),
        s.valid_id(pv.pinfo.id),
        s.place_of(pv.pinfo.id) is Running,
        pv.pinfo.wf(),
    ensures
        s.share.done < s.share.processes,
        s.after_retire(pv).inv(),
{
    let t = s.after_retire(pv);
    let i0 = pv.pinfo.id - 1;
    lemma_retired_count_update(s.places, i0, Place::Retired);
    lemma_retired_count_bound(t.places);
    lemma_moved_keeps_rest(s, t, i0);
}

/// Handing a running process to the offload pool keeps the invariant.
pub proof fn lemma_offload_keeps_inv(s: SchedView, id: u32)
    requires
        s.inv(),
        s.valid_id(id),
        s.place_of(id) is Running,
    ensures
        s.after_offload(id).inv(),
{
    let t = s.after_offload(id);
    assert(t.slots =~= s.slots.update(id - 1, t.slots[id - 1]));
    assert(s.slot_ok(id - 1));
    lemma_retired_count_update(s.places, id - 1, Place::InFlight);
    lemma_moved_keeps_rest(s, t, id - 1);
}

/// The return of a process into the ready set through the injector, from a
/// worker or from the offload pool, keeps the invariant.
pub proof fn lemma_inject_keeps_inv(s: SchedView, pv: PcbView)
    requires
        s.inv(),
        s.valid_id(pv.pinfo.id),
        s.place_of(pv.pinfo.id) is Running || s.place_of(pv.pinfo.id) is InFlight,
        pv.pinfo.wf(),
        !pv.pinfo.done,
    ensures
        s.after_inject(pv).inv(),
{
    let t = s.after_inject(pv);
    let i0 = pv.pinfo.id - 1;
    lemma_retired_count_update(s.places, i0, Place::Ready);
    lemma_moved_keeps_rest(s, t, i0);
    assert forall|x: u32| #[trigger] t.ready_ok(x) by {
        assert(s.ready_ok(x));
    }
}

/// Where one process that the scheduler does not hold moves to a place
/// outside the run queues, the other processes and the run queues stay in
/// order.
proof fn lemma_moved_keeps_rest(s: SchedView, t: SchedView, i0: int)
    requires
        s.inv(),
        0 <= i0 < s.places.len(),
        t.places.len() == s.places.len(),
        t.slots.len() == s.slots.len(),
        !held(s.places[i0]),
        !(t.places[i0] is Heap),
        !(t.places[i0] is Slot),
        t.kept == s.kept,
        t.places[i0] is Running ==> s.places[i0] == t.places[i0],
        t.places == s.places.update(i0, t.places[i0]),
        t.slots == s.slots.update(i0, t.slots[i0]),
        t.records == s.records,
        t.slot_ok(i0),
        t.heaps == s.heaps,
        t.workers == s.workers,
        t.places[i0] is Ready || t.ready == s.ready,
    ensures
        forall|i: int| 0 <= i < t.places.len() ==> #[trigger] t.slot_ok(i),
        forall|i: int| 0 <= i < t.places.len() ==> #[trigger] t.record_ok(i),
        forall|i: int| 0 <= i < t.places.len() ==> #[trigger] t.place_ok(i),
        forall|w: int| 0 <= w < t.heaps.len() ==> #[trigger] t.heap_ok(w),
        forall|w: int| 0 <= w < t.kept.len() ==> #[trigger] t.kept_ok(w),
        !(t.places[i0] is Ready) ==> forall|id: u32| #[trigger] t.ready_ok(id),
{
    assert(s.slot_ok(i0));
    assert(s.place_ok(i0));
    assert forall|i: int| 0 <= i < t.places.len() implies #[trigger] t.slot_ok(i) by {
        assert(s.slot_ok(i));
    }
    assert forall|i: int| 0 <= i < t.places.len() implies #[trigger] t.record_ok(i) by {
        assert(s.record_ok(i));
    }
    assert forall|i: int| 0 <= i < t.places.len() implies #[trigger] t.place_ok(i) by {
        assert(s.place_ok(i));
    }
    assert forall|w: int| 0 <= w < t.heaps.len() implies #[trigger] t.heap_ok(w) by {
        assert(s.heap_ok(w));
        assert forall|k: int| 0 <= k < t.heaps[w].len() implies #[trigger] t.entry_ok(w, k) by {
            assert(s.entry_ok(w, k));
        }
    }
    assert forall|w: int| 0 <= w < t.kept.len() implies #[trigger] t.kept_ok(w) by {
        assert(s.kept_ok(w));
    }
    if !(t.places[i0] is Ready) {
        assert forall|id: u32| #[trigger] t.ready_ok(id) by {
            assert(s.ready_ok(id));
        }
    }
}

/// A process whose place, run queue and slot are as before is as much in
/// order as before.
proof fn lemma_place_kept(s: SchedView, t: SchedView, i: int)
    requires
        s.place_ok(i),
        t.places[i] == s.places[i],
        t.heaps == s.heaps,
        t.workers == s.workers,
        s.places[i] matches Place::Slot(w) ==> t.kept[w as int] == s.kept[w as int],
    ensures
        t.place_ok(i),
{
    match s.places[i] {
        Place::Heap(w) => {
            let k = choose|k: int|
                0 <= k < s.heaps[w as int].len() && (#[trigger] s.heaps[w as int][k]).1 == i + 1;
            assert(t.heaps[w as int][k].1 == i + 1);
        },
        _ => {},
    }
}

/// The state after the process in the slot of worker `w`, if there is one,
/// has moved on to where any worker can take it.
spec fn slot_cleared(s: SchedView, w: usize) -> SchedView {
    match s.kept[w as int] {
        Some(previous) => SchedView {
            places: s.places.update(previous - 1, Place::Ready),
            ready: s.ready.insert(previous),
            kept: s.kept.update(w as int, None),
            ..s
        },
        None => s,
    }
}

/// The state after the process with the control block `pv` has gone into the
/// slot of worker `w`.
spec fn slot_filled(s: SchedView, w: usize, pv: PcbView) -> SchedView {
    let i = pv.pinfo.id - 1;
    SchedView {
        places: s.places.update(i, Place::Slot(w)),
        slots: s.slots.update(i, Some(pv)),
        kept: s.kept.update(w as int, Some(pv.pinfo.id)),
        ..s
    }
}

/// A process that moves on from a slot keeps the invariant.
proof fn lemma_clear_keeps_inv(s: SchedView, w: usize)
    requires
        s.inv(),
        w < s.workers,
    ensures
        slot_cleared(s, w).inv(),
        slot_cleared(s, w).kept[w as int] is None,
{
    let t = slot_cleared(s, w);
    assert(s.kept_ok(w as int));
    match s.kept[w as int] {
        Some(previous) => {
            let p0 = previous - 1;
            assert(s.slot_ok(p0));
            lemma_retired_count_update(s.places, p0, Place::Ready);
            assert forall|i: int| 0 <= i < t.places.len() implies #[trigger] t.slot_ok(i) by {
                assert(s.slot_ok(i));
            }
            assert forall|i: int| 0 <= i < t.places.len() implies #[trigger] t.record_ok(i) by {
                assert(s.record_ok(i));
            }
            assert forall|i: int| 0 <= i < t.places.len() implies #[trigger] t.place_ok(i) by {
                assert(s.place_ok(i));
                if i != p0 {
                    lemma_place_kept(s, t, i);
                }
            }
            assert forall|x: u32| #[trigger] t.ready_ok(x) by {
                assert(s.ready_ok(x));
            }
            assert forall|v: int| 0 <= v < t.kept.len() implies #[trigger] t.kept_ok(v) by {
                assert(s.kept_ok(v));
            }
            assert forall|v: int| 0 <= v < t.heaps.len() implies #[trigger] t.heap_ok(v) by {
                assert(s.heap_ok(v));
                assert forall|k: int| 0 <= k < t.heaps[v].len() implies #[trigger] t.entry_ok(
                    v,
                    k,
                ) by {
                    assert(s.entry_ok(v, k));
                }
            }
        },
        None => {},
    }
}

/// A process that goes into an empty slot keeps the invariant.
proof fn lemma_fill_keeps_inv(s: SchedView, w: usize, pv: PcbView)
    requires
        s.inv(),
        w < s.workers,
        s.kept[w as int] is None,
        s.valid_id(pv.pinfo.id),
        s.place_of(pv.pinfo.id) is Running || s.place_of(pv.pinfo.id) is InFlight,
        pv.pinfo.wf(),
        !pv.pinfo.done,
    ensures
        slot_filled(s, w, pv).inv(),
{
    let t = slot_filled(s, w, pv);
    let i0 = pv.pinfo.id - 1;
    assert(s.slot_ok(i0));
    lemma_retired_count_update(s.places, i0, Place::Slot(w));
    assert forall|i: int| 0 <= i < t.places.len() implies #[trigger] t.slot_ok(i) by {
        assert(s.slot_ok(i));
    }
    assert forall|i: int| 0 <= i < t.places.len() implies #[trigger] t.record_ok(i) by {
        assert(s.record_ok(i));
    }
    assert forall|i: int| 0 <= i < t.places.len() implies #[trigger] t.place_ok(i) by {
        assert(s.place_ok(i));
        if i != i0 {
            lemma_place_kept(s, t, i);
        }
    }
    assert forall|x: u32| #[trigger] t.ready_ok(x) by {
        assert(s.ready_ok(x));
    }
    assert forall|v: int| 0 <= v < t.kept.len() implies #[trigger] t.kept_ok(v) by {
        assert(s.kept_ok(v));
    }
    assert forall|v: int| 0 <= v < t.heaps.len() implies #[trigger] t.heap_ok(v) by {
        assert(s.heap_ok(v));
        assert forall|k: int| 0 <= k < t.heaps[v].len() implies #[trigger] t.entry_ok(v, k) by {
            assert(s.entry_ok(v, k));
        }
    }
}

/// The return of a process into the local queue of a worker keeps the
/// invariant.
pub proof fn lemma_keep_keeps_inv(s: SchedView, w: usize, pv: PcbView)
    requires
        s.inv(),
        w < s.workers,
        s.valid_id(pv.pinfo.id),
        s.place_of(pv.pinfo.id) is Running || s.place_of(pv.pinfo.id) is InFlight,
        pv.pinfo.wf(),
        !pv.pinfo.done,
    ensures
        s.after_keep(w, pv).inv(),
{
    let cleared = slot_cleared(s, w);
    lemma_clear_keeps_inv(s, w);
    assert(s.kept_ok(w as int));
    lemma_fill_keeps_inv(cleared, w, pv);
    let t = slot_filled(cleared, w, pv);
    let u = s.after_keep(w, pv);
    assert(t.places =~= u.places);
    assert(t.kept =~= u.kept);
    assert(t == u);
}

} // verus!
