//! What holds of every state that the scheduler can reach.

use vstd::prelude::*;
use vstd::arithmetic::div_mod::lemma_fundamental_div_mod;
use vstd::arithmetic::div_mod::lemma_fundamental_div_mod_converse;
use crate::metric::lemma_priority_buys_time;
use crate::model::lemma_retired_count_bound;
use crate::model::lemma_retired_count_full;
use crate::model::peer_of;
use crate::model::Place;
use crate::model::SchedView;
use crate::ops::Op;
use crate::ops::OpsType;
use crate::ops::Stone;
use crate::pcb::PcbView;
use crate::pcb::priority_after;
use crate::pcb::slices_of;
use crate::processes::step_after;
use crate::timeline::coalesced;
use crate::timeline::lemma_with_op;
use crate::timeline::ops_count;
use crate::timeline::with_op;
use crate::timeline::with_time;
use crate::timeline::time_total;

verus! {

/// At any moment no more processes have finished than were admitted.
pub proof fn lemma_done_at_most_admitted(s: SchedView)
    requires
        s.inv(),
    ensures
        s.share.done <= s.share.processes,
{
    lemma_retired_count_bound(s.places);
}

/// Every admitted process has finished exactly when every process is retired.
pub proof fn lemma_all_done_iff_all_retired(s: SchedView)
    requires
        s.inv(),
    ensures
        s.share.done == s.share.processes <==> forall|id: u32|
            s.valid_id(id) ==> #[trigger] s.place_of(id) is Retired,
{
    lemma_retired_count_full(s.places);
    if s.share.done == s.share.processes {
        assert forall|id: u32| s.valid_id(id) implies #[trigger] s.place_of(id) is Retired by {
            assert(s.places[id - 1] is Retired);
        }
    }
    if forall|id: u32| s.valid_id(id) ==> #[trigger] s.place_of(id) is Retired {
        assert forall|i: int| 0 <= i < s.places.len() implies #[trigger] s.places[i] is Retired by {
            let id = (i + 1) as u32;
            assert(s.valid_id(id));
            assert(s.place_of(id) is Retired);
        }
    }
}

/// Where every admitted process has finished, as it has when the scheduler
/// has stopped, the record of each is marked done.
pub proof fn lemma_all_done_marks_all(s: SchedView, id: u32)
    requires
        s.inv(),
        s.share.done == s.share.processes,
        s.valid_id(id),
    ensures
        s.place_of(id) is Retired,
        s.slots[id - 1] is Some,
        s.shown(id).done,
{
    lemma_all_done_iff_all_retired(s);
    assert(s.place_of(id) is Retired);
    assert(s.slot_ok(id - 1));
}

/// Admission counts one process more as admitted and none more as finished,
/// so that no more are finished than admitted afterwards as before.
pub proof fn lemma_admission_counts(s: SchedView, pv: PcbView)
    requires
        s.inv(),
        s.places.len() + 1 < u32::MAX,
    ensures
        s.after_admission(pv).share.processes == s.share.processes + 1,
        s.after_admission(pv).share.done == s.share.done,
        s.after_admission(pv).share.done < s.after_admission(pv).share.processes,
        s.after_admission(pv).places.len() == s.places.len() + 1,
{
    lemma_retired_count_bound(s.places);
}

/// Of two processes in one run queue, the one with the lower key stands
/// nearer the back, from where the worker takes its next process: it is
/// polled first.
pub proof fn lemma_lower_key_first(s: SchedView, w: int, a: int, b: int)
    requires
        s.inv(),
        0 <= w < s.workers,
        0 <= a < s.heaps[w].len(),
        0 <= b < s.heaps[w].len(),
        s.slots[s.heaps[w][a].1 - 1].unwrap().pinfo.metric.key() < s.slots[s.heaps[w][b].1
            - 1].unwrap().pinfo.metric.key(),
    ensures
        a > b,
{
    assert(s.heap_ok(w));
    assert(s.entry_ok(w, a));
    assert(s.entry_ok(w, b));
}

/// The timeline after a row of file operations, each after a poll that took
/// the time given for it.
pub open spec fn after_file_ops(stones: Seq<Stone>, costs: Seq<u64>) -> Seq<Stone>
    decreases costs.len(),
{
    if costs.len() == 0 {
        stones
    } else {
        with_op(with_time(after_file_ops(stones, costs.drop_last()), costs.last()), OpsType::File)
    }
}

/// A poll puts no marker on a timeline.
pub proof fn lemma_poll_adds_no_marker(stones: Seq<Stone>, d: u64, kind: OpsType)
    ensures
        ops_count(with_time(stones, d), kind) == ops_count(stones, kind),
{
    let after = with_time(stones, d);
    if stones.len() > 0 && stones.last() is Time {
        assert(after.drop_last() =~= stones.drop_last());
    } else {
        assert(after.drop_last() =~= stones);
    }
}

/// A process that asks for `n` file operations, one after each of `n` polls,
/// has `n` more markers of a file operation on its timeline, whatever the
/// polls took and however the operations ended.
pub proof fn lemma_every_file_op_is_marked(stones: Seq<Stone>, costs: Seq<u64>)
    ensures
        ops_count(after_file_ops(stones, costs), OpsType::File) == ops_count(
            stones,
            OpsType::File,
        ) + costs.len(),
    decreases costs.len(),
{
    if costs.len() > 0 {
        let before = after_file_ops(stones, costs.drop_last());
        lemma_every_file_op_is_marked(stones, costs.drop_last());
        lemma_poll_adds_no_marker(before, costs.last(), OpsType::File);
        lemma_with_op(with_time(before, costs.last()), OpsType::File);
    }
}

/// The number of steps that a random process of `state_max` steps has taken
/// after `polls` polls.
pub open spec fn steps_after(state_max: u32, polls: nat) -> u32
    decreases polls,
{
    if polls == 0 {
        0
    } else {
        step_after(steps_after(state_max, (polls - 1) as nat), state_max)
    }
}

/// A random process of `state_max` steps takes one step with each of its
/// first `state_max` polls and none after that: it has taken all its steps,
/// so that its next poll finds it ready, exactly from the poll with the
/// number `state_max` on.
pub proof fn lemma_ready_after_all_steps(state_max: u32, polls: nat)
    ensures
        steps_after(state_max, polls) == if polls <= state_max {
            polls
        } else {
            state_max as nat
        },
        steps_after(state_max, polls) == state_max <==> polls >= state_max,
    decreases polls,
{
    if polls > 0 {
        lemma_ready_after_all_steps(state_max, (polls - 1) as nat);
    }
}

/// Whether the run queue of worker `w` has an entry for the process `id`.
pub open spec fn in_run_queue(s: SchedView, w: int, id: u32) -> bool {
    exists|k: int| 0 <= k < s.heaps[w].len() && (#[trigger] s.heaps[w][k]).1 == id
}

/// At any moment an admitted process is in one place only. Its place says
/// where it is, and it is there and nowhere else: among the processes that
/// any worker can take, once, exactly when it is ready; in the slot of a
/// worker's local queue exactly when its place is that slot; in the run
/// queue of a worker, once, exactly when its place is that queue; held by
/// the scheduler and marked done exactly when it is retired; and away from
/// the scheduler, with the worker that polls it or with the offload pool, in
/// the two places that are left.
pub proof fn lemma_residency_exclusive(s: SchedView, id: u32)
    requires
        s.inv(),
        s.valid_id(id),
    ensures
        s.ready.count(id) == if s.place_of(id) is Ready {
            1nat
        } else {
            0nat
        },
        forall|w: int|
            0 <= w < s.workers ==> (#[trigger] s.kept[w] == Some(id) <==> s.place_of(id)
                == Place::Slot(w as usize)),
        forall|w: int|
            0 <= w < s.workers ==> (#[trigger] in_run_queue(s, w, id) <==> s.place_of(id)
                == Place::Heap(w as usize)),
        forall|w: int, j: int, k: int|
            0 <= w < s.workers && 0 <= j < k < s.heaps[w].len() ==> !((#[trigger] s.heaps[w][j]).1
                == id && (#[trigger] s.heaps[w][k]).1 == id),
        s.place_of(id) matches Place::Slot(w) ==> w < s.workers,
        s.place_of(id) matches Place::Heap(w) ==> w < s.workers,
        s.place_of(id) matches Place::Running(w) ==> w < s.workers,
        s.slots[id - 1] is None <==> (s.place_of(id) is Running || s.place_of(id) is InFlight),
        s.slots[id - 1] matches Some(pcb) ==> (pcb.pinfo.done <==> s.place_of(id) is Retired),
{
    assert(s.ready_ok(id));
    assert(s.slot_ok(id - 1));
    assert(s.place_ok(id - 1));
    assert forall|w: int| 0 <= w < s.workers implies (#[trigger] s.kept[w] == Some(id)
        <==> s.place_of(id) == Place::Slot(w as usize)) by {
        assert(s.kept_ok(w));
    }
    assert forall|w: int| 0 <= w < s.workers implies (#[trigger] in_run_queue(s, w, id)
        <==> s.place_of(id) == Place::Heap(w as usize)) by {
        assert(s.heap_ok(w));
        if in_run_queue(s, w, id) {
            let k = choose|k: int| 0 <= k < s.heaps[w].len() && (#[trigger] s.heaps[w][k]).1 == id;
            assert(s.entry_ok(w, k));
        }
    }
    assert forall|w: int, j: int, k: int|
        0 <= w < s.workers && 0 <= j < k < s.heaps[w].len() implies !((#[trigger] s.heaps[w][j]).1
        == id && (#[trigger] s.heaps[w][k]).1 == id) by {
        assert(s.heap_ok(w));
        assert(s.entry_ok(w, k));
    }
}

/// Whether worker `w` has a process in its run queue or finds one in the
/// ready set.
pub open spec fn has_work(s: SchedView, w: int) -> bool {
    s.heaps[w].len() > 0 || s.available(w as usize) > 0
}

/// Work is never lost: as long as a process is unfinished and none is out
/// for a poll or a file operation, some worker has a process in its run
/// queue or finds one in the ready set.
pub proof fn lemma_work_remains(s: SchedView)
    requires
        s.inv(),
        s.share.done < s.share.processes,
        forall|id: u32|
            s.valid_id(id) ==> !(#[trigger] s.place_of(id) is Running) && !(s.place_of(id)
                is InFlight),
    ensures
        exists|w: int| 0 <= w < s.workers && #[trigger] has_work(s, w),
{
    lemma_retired_count_full(s.places);
    let i = choose|i: int| 0 <= i < s.places.len() && !(#[trigger] s.places[i] is Retired);
    let id = (i + 1) as u32;
    assert(s.valid_id(id));
    assert(s.place_of(id) == s.places[i]);
    assert(s.place_ok(i));
    match s.places[i] {
        Place::Ready => {
            assert(s.ready_ok(id));
            vstd::multiset::axiom_count_le_len(s.ready, id);
            assert(has_work(s, 0));
        },
        Place::Slot(w) => {
            assert(has_work(s, w as int));
        },
        Place::Heap(w) => {
            assert(has_work(s, w as int));
        },
        _ => {},
    }
}

/// At any moment the record that the scheduler shows of a process is
/// consistent: its running time is the sum of the stretches of running time
/// on its timeline, and no two such stretches stand side by side.
pub proof fn lemma_records_consistent(s: SchedView, id: u32)
    requires
        s.inv(),
        s.valid_id(id),
    ensures
        time_total(s.shown(id).stones) == s.shown(id).metric.running_time,
        coalesced(s.shown(id).stones),
        s.shown(id).id == id,
{
    assert(s.slot_ok(id - 1));
    assert(s.record_ok(id - 1));
}

/// Of two processes in one run queue that have run equally long, the one
/// with the higher priority stands nearer the back, from where the worker
/// takes its next process: it is polled first.
pub proof fn lemma_higher_priority_first(s: SchedView, w: int, a: int, b: int)
    requires
        s.inv(),
        0 <= w < s.workers,
        0 <= a < s.heaps[w].len(),
        0 <= b < s.heaps[w].len(),
        s.slots[s.heaps[w][a].1 - 1].unwrap().pinfo.metric.running_time == s.slots[s.heaps[w][b].1
            - 1].unwrap().pinfo.metric.running_time,
        s.slots[s.heaps[w][a].1 - 1].unwrap().pinfo.metric.priority > s.slots[s.heaps[w][b].1
            - 1].unwrap().pinfo.metric.priority,
    ensures
        a > b,
{
    assert(s.heap_ok(w));
    assert(s.entry_ok(w, a));
    assert(s.entry_ok(w, b));
    lemma_priority_buys_time(
        s.slots[s.heaps[w][a].1 - 1].unwrap().pinfo.metric,
        s.slots[s.heaps[w][b].1 - 1].unwrap().pinfo.metric,
    );
}

/// The quotients of two numbers fall short of the quotient of their sum by
/// one at most.
proof fn lemma_quotients_of_sum(x: int, y: int, t: int)
    requires
        0 <= x,
        0 <= y,
        0 < t,
    ensures
        x / t + y / t <= (x + y) / t <= x / t + y / t + 1,
{
    lemma_fundamental_div_mod(x, t);
    lemma_fundamental_div_mod(y, t);
    let q = x / t + y / t;
    let r = x % t + y % t;
    assert(x + y == q * t + r) by (nonlinear_arith)
        requires
            x == t * (x / t) + (x % t),
            y == t * (y / t) + (y % t),
            q == x / t + y / t,
            r == x % t + y % t,
    ;
    if r < t {
        lemma_fundamental_div_mod_converse(x + y, t, q, r);
    } else {
        assert(x + y == (q + 1) * t + (r - t)) by (nonlinear_arith)
            requires
                x + y == q * t + r,
        ;
        lemma_fundamental_div_mod_converse(x + y, t, q + 1, r - t);
    }
}

/// The slices of a record keep up with its running time: where one stretch
/// of time is booked in two polls, the slices of the two polls together fall
/// short of the slices of the whole stretch by one thousandth of a slice at
/// most, as long as no count is cut off.
pub proof fn lemma_slices_keep_up(a: u64, b: u64, time_slice: u64)
    requires
        time_slice > 0,
        a + b <= u64::MAX,
        (a + b) * 1000 / (time_slice as int) <= u64::MAX,
    ensures
        slices_of(a, time_slice) + slices_of(b, time_slice) <= slices_of(
            (a + b) as u64,
            time_slice,
        ) <= slices_of(a, time_slice) + slices_of(b, time_slice) + 1,
{
    let t = time_slice as int;
    lemma_quotients_of_sum(a * 1000, b * 1000, t);
    assert((a + b) * 1000 == a * 1000 + b * 1000);
}

/// The worker that a re-admission wakes is another worker, and there is one
/// to wake wherever the worker is not alone.
pub proof fn lemma_peer_is_another(w: usize, pick: usize, workers: nat)
    requires
        w < workers <= usize::MAX,
    ensures
        peer_of(w, pick, workers) is Some <==> workers > 1,
        peer_of(w, pick, workers) matches Some(p) ==> p != w && p < workers,
{
    if workers > 1 {
        let j = pick as nat % ((workers - 1) as nat);
        assert(j < workers - 1) by (nonlinear_arith)
            requires
                j == pick as nat % ((workers - 1) as nat),
                workers > 1,
        ;
    }
}

/// The priority after `k` requests to add `delta`.
pub open spec fn after_adds(priority: i32, delta: i32, k: nat) -> i32
    decreases k,
{
    if k == 0 {
        priority
    } else {
        priority_after(after_adds(priority, delta, (k - 1) as nat), Op::AddPriority(delta))
    }
}

/// A process that asks `k` times to add `delta` to its priority ends with
/// its first priority and `k` times `delta`, where that sum is an `i32`.
pub proof fn lemma_repeated_add(priority: i32, delta: i32, k: nat)
    requires
        i32::MIN <= priority + k * delta <= i32::MAX,
    ensures
        after_adds(priority, delta, k) == priority + k * delta,
    decreases k,
{
    if k > 0 {
        let j = (k - 1) as nat;
        assert(k * delta == j * delta + delta) by (nonlinear_arith)
            requires
                k == j + 1,
        ;
        assert(i32::MIN <= priority + j * delta <= i32::MAX) by (nonlinear_arith)
            requires
                i32::MIN <= priority + k * delta <= i32::MAX,
                i32::MIN <= priority <= i32::MAX,
                k == j + 1,
        ;
        lemma_repeated_add(priority, delta, j);
        assert(after_adds(priority, delta, k) == priority_after(
            after_adds(priority, delta, j),
            Op::AddPriority(delta),
        ));
    } else {
        assert(k * delta == 0) by (nonlinear_arith)
            requires
                k == 0,
        ;
    }
}

} // verus!
