//! The timeline of a process: stretches of running time and operation
//! markers, in the order in which they happened.

use vstd::prelude::*;
use crate::ops::OpsType;
use crate::ops::Stone;

verus! {

/// The running time that a stone stands for, in nanoseconds.
pub open spec fn stone_time(s: Stone) -> nat {
    match s {
        Stone::Time(d) => d as nat,
        Stone::Ops(_) => 0,
    }
}

/// The sum of all stretches of running time on a timeline.
pub open spec fn time_total(stones: Seq<Stone>) -> nat
    decreases stones.len(),
{
    if stones.len() == 0 {
        0
    } else {
        time_total(stones.drop_last()) + stone_time(stones.last())
    }
}

/// The number of markers of the given kind on a timeline.
pub open spec fn ops_count(stones: Seq<Stone>, kind: OpsType) -> nat
    decreases stones.len(),
{
    if stones.len() == 0 {
        0
    } else {
        ops_count(stones.drop_last(), kind) + if stones.last() == Stone::Ops(kind) {
            1nat
        } else {
            0nat
        }
    }
}

/// The number of stretches of running time on a timeline.
pub open spec fn time_count(stones: Seq<Stone>) -> nat
    decreases stones.len(),
{
    if stones.len() == 0 {
        0
    } else {
        time_count(stones.drop_last()) + if stones.last() is Time {
            1nat
        } else {
            0nat
        }
    }
}

/// No two stretches of running time stand side by side.
pub open spec fn coalesced(stones: Seq<Stone>) -> bool {
    forall|i: int| 0 <= i < stones.len() - 1 ==> !(#[trigger] stones[i] is Time && stones[i + 1] is Time)
}

/// The timeline after `d` nanoseconds of running time: a stretch at the tail
/// grows by `d`, and after a marker or on an empty timeline a new stretch
/// starts.
pub open spec fn with_time(stones: Seq<Stone>, d: u64) -> Seq<Stone> {
    if stones.len() > 0 && stones.last() is Time {
        stones.drop_last().push(Stone::Time((stones.last()->Time_0 + d) as u64))
    } else {
        stones.push(Stone::Time(d))
    }
}

/// The timeline after an operation of the given kind.
pub open spec fn with_op(stones: Seq<Stone>, kind: OpsType) -> Seq<Stone> {
    stones.push(Stone::Ops(kind))
}

/// A stretch of running time never exceeds the total.
pub proof fn lemma_last_within_total(stones: Seq<Stone>)
    requires
        stones.len() > 0,
    ensures
        stone_time(stones.last()) <= time_total(stones),
{
}

/// Recording running time adds it to the total, keeps the timeline coalesced
/// and leaves its markers alone.
pub proof fn lemma_with_time(stones: Seq<Stone>, d: u64)
    requires
        time_total(stones) + d <= u64::MAX,
    ensures
        time_total(with_time(stones, d)) == time_total(stones) + d,
        coalesced(stones) ==> coalesced(with_time(stones, d)),
        forall|kind: OpsType| ops_count(with_time(stones, d), kind) == ops_count(stones, kind),
        time_count(with_time(stones, d)) == if stones.len() > 0 && stones.last() is Time {
            time_count(stones)
        } else {
            time_count(stones) + 1
        },
{
    let after = with_time(stones, d);
    if stones.len() > 0 && stones.last() is Time {
        assert(after.drop_last() =~= stones.drop_last());
        if coalesced(stones) {
            assert forall|i: int| 0 <= i < after.len() - 1 implies !(#[trigger] after[i] is Time
                && after[i + 1] is Time) by {
                assert(after[i] == stones[i]);
                assert(stones[i + 1] is Time == after[i + 1] is Time);
            }
        }
    } else {
        assert(after.drop_last() =~= stones);
        if coalesced(stones) {
            assert forall|i: int| 0 <= i < after.len() - 1 implies !(#[trigger] after[i] is Time
                && after[i + 1] is Time) by {
                assert(after[i] == stones[i]);
                if i + 1 < stones.len() {
                    assert(after[i + 1] == stones[i + 1]);
                }
            }
        }
    }
}

/// A marker leaves the total alone, keeps the timeline coalesced and counts
/// once for its own kind.
pub proof fn lemma_with_op(stones: Seq<Stone>, kind: OpsType)
    ensures
        time_total(with_op(stones, kind)) == time_total(stones),
        time_count(with_op(stones, kind)) == time_count(stones),
        coalesced(stones) ==> coalesced(with_op(stones, kind)),
        ops_count(with_op(stones, kind), kind) == ops_count(stones, kind) + 1,
        forall|other: OpsType|
            other != kind ==> ops_count(with_op(stones, kind), other) == ops_count(stones, other),
{
    let after = with_op(stones, kind);
    assert(after.drop_last() =~= stones);
    if coalesced(stones) {
        assert forall|i: int| 0 <= i < after.len() - 1 implies !(#[trigger] after[i] is Time
            && after[i + 1] is Time) by {
            assert(after[i] == stones[i]);
            if i + 1 < stones.len() {
                assert(after[i + 1] == stones[i + 1]);
            }
        }
    }
}

/// Appends `d` nanoseconds of running time to the timeline.
pub fn record_time(stones: &mut Vec<Stone>, d: u64)
    requires
        time_total(old(stones)@) + d <= u64::MAX,
    ensures
        final(stones)@ == with_time(old(stones)@, d),
{
    let n = stones.len();
    if n > 0 {
        match stones[n - 1] {
            Stone::Time(t) => {
                proof {
                    lemma_last_within_total(stones@);
                }
                stones.set(n - 1, Stone::Time(t + d));
                assert(stones@ =~= with_time(old(stones)@, d));
                return ;
            },
            Stone::Ops(_) => {},
        }
    }
    stones.push(Stone::Time(d));
}

/// Appends the marker of an operation to the timeline.
pub fn record_op(stones: &mut Vec<Stone>, kind: OpsType)
    ensures
        final(stones)@ == with_op(old(stones)@, kind),
{
    stones.push(Stone::Ops(kind));
}

} // verus!
