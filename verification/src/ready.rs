//! The ready set: one global injector and one local queue for each worker,
//! with work stealing between them.

use vstd::prelude::*;
use vstd::multiset::Multiset;
use work_queue::LocalQueue;
use work_queue::Queue;

verus! {

/// The handle of a work-stealing queue of the `work_queue` crate, through
/// which items enter its global injector.
#[verifier::external_type_specification]
#[verifier::external_body]
#[verifier::reject_recursive_types(T)]
pub struct ExQueue<T>(Queue<T>);

/// One of the local queues of such a queue.
#[verifier::external_type_specification]
#[verifier::external_body]
#[verifier::reject_recursive_types(T)]
pub struct ExLocalQueue<T>(LocalQueue<T>);

/// The items in the part of a queue that all its handles reach: those in the
/// global injector and those in the ring of any of its local queues, each as
/// often as it was put in and not yet taken out.
pub uninterp spec fn shared_items(q: Queue<u32>) -> Multiset<u32>;

/// The item in the slot at the front of a local queue, which only that local
/// queue itself hands out.
pub uninterp spec fn slot_item(l: LocalQueue<u32>) -> Option<u32>;

/// Whether the local queue is one of those of the queue.
pub uninterp spec fn attached(l: LocalQueue<u32>, q: Queue<u32>) -> bool;

/// Whether the number is one of the sizes that a local queue can have: a
/// power of two.
pub open spec fn lane_size_ok(size: u16) -> bool {
    size == 1 || size == 2 || size == 4 || size == 8 || size == 16 || size == 32 || size == 64
        || size == 128 || size == 256 || size == 512 || size == 1024 || size == 2048 || size
        == 4096 || size == 8192 || size == 16384 || size == 32768
}

/// `Queue::new`, then `Queue::local_queues` on the new queue, collected: an
/// empty queue and its `lanes` local queues, with rings of `lane_size` places
/// and empty slots. `Queue::new` panics on a size that is no power of two,
/// which `requires` leaves out; `Queue::local_queues` panics on its second
/// call for one queue, and this is the only call.
#[verifier::external_body]
fn make_queue(lanes: usize, lane_size: u16) -> (parts: (Queue<u32>, Vec<LocalQueue<u32>>))
    requires
        lane_size_ok(lane_size),
    ensures
        shared_items(parts.0) == Multiset::<u32>::empty(),
        parts.1@.len() == lanes,
        forall|i: int|
            0 <= i < lanes ==> attached(#[trigger] parts.1@[i], parts.0) && slot_item(parts.1@[i])
                is None,
{
    let global = Queue::new(lanes, lane_size);
    let locals = global.local_queues().collect();
    (global, locals)
}

/// `Queue::push`: the item goes into the global injector, which has no
/// bound. The local queues of the queue stay its local queues.
#[verifier::external_body]
fn push_global(q: &mut Queue<u32>, id: u32)
    ensures
        shared_items(*final(q)) == shared_items(*old(q)).insert(id),
        forall|other: LocalQueue<u32>|
            attached(other, *old(q)) ==> #[trigger] attached(other, *final(q)),
{
    q.push(id);
}

/// `LocalQueue::push` on a local queue `l` of the queue `q`: the item goes
/// into the slot of `l`, and the item that was in the slot moves on into the
/// shared part, into the ring of `l` or, where the ring is full, into the
/// injector together with half of the ring. The local queue reaches the
/// shared part by itself; `q` is borrowed because that part changes.
#[verifier::external_body]
fn push_local(q: &mut Queue<u32>, l: &mut LocalQueue<u32>, id: u32)
    requires
        attached(*old(l), *old(q)),
    ensures
        slot_item(*final(l)) == Some(id),
        shared_items(*final(q)) == match slot_item(*old(l)) {
            Some(previous) => shared_items(*old(q)).insert(previous),
            None => shared_items(*old(q)),
        },
        attached(*final(l), *final(q)),
        forall|other: LocalQueue<u32>|
            attached(other, *old(q)) ==> #[trigger] attached(other, *final(q)),
{
    let _ = q;
    l.push(id);
}

/// `LocalQueue::pop` on a local queue `l` of the queue `q`, where no other
/// thread uses a handle of `q` meanwhile: the item in the slot of `l` comes
/// out if there is one. With an empty slot an item of the shared part comes
/// out if there is any: from the ring of `l`, else from the injector, else
/// from the ring of another local queue; further items may move from there
/// into the ring of `l`. Which item of the shared part comes out is the
/// queue's choice. Nothing comes out only where the slot and the shared part
/// are empty: an item in the slot of another local queue is never taken.
#[verifier::external_body]
fn pop_local(q: &mut Queue<u32>, l: &mut LocalQueue<u32>) -> (popped: Option<u32>)
    requires
        attached(*old(l), *old(q)),
    ensures
        slot_item(*final(l)) is None,
        match slot_item(*old(l)) {
            Some(front) => popped == Some(front) && shared_items(*final(q)) == shared_items(
                *old(q),
            ),
            None => match popped {
                Some(id) => shared_items(*old(q)).count(id) > 0 && shared_items(*final(q))
                    == shared_items(*old(q)).remove(id),
                None => shared_items(*old(q)).len() == 0 && shared_items(*final(q))
                    == shared_items(*old(q)),
            },
        },
        attached(*final(l), *final(q)),
        forall|other: LocalQueue<u32>|
            attached(other, *old(q)) ==> #[trigger] attached(other, *final(q)),
{
    let _ = q;
    l.pop()
}

/// The ready set of a scheduler: the numbers of the processes that wait for
/// a worker. It owns every handle of its queue, so nothing else can put a
/// number in or take one out.
pub struct ReadySet {
    global: Queue<u32>,
    locals: Vec<LocalQueue<u32>>,
    /// What the slot of each local queue holds: the queue itself does not
    /// show it.
    fronts: Vec<Option<u32>>,
}

/// The mathematical content of a ready set.
pub struct ReadyView {
    /// The numbers that any worker can take: those in the injector and in
    /// the rings of the local queues.
    pub shared: Multiset<u32>,
    /// For each local queue the number in its slot, which only the worker of
    /// that queue can take.
    pub kept: Seq<Option<u32>>,
}

impl View for ReadySet {
    type V = ReadyView;

    closed spec fn view(&self) -> ReadyView {
        ReadyView {
            shared: shared_items(self.global),
            kept: Seq::new(self.locals@.len(), |i: int| slot_item(self.locals@[i])),
        }
    }
}

impl ReadySet {
    /// The ready set's invariant: its local queues are those of its queue,
    /// and it knows what their slots hold.
    pub closed spec fn wf(&self) -> bool {
        &&& self.fronts@.len() == self.locals@.len()
        &&& forall|i: int|
            0 <= i < self.locals@.len() ==> attached(#[trigger] self.locals@[i], self.global)
        &&& forall|i: int|
            0 <= i < self.locals@.len() ==> #[trigger] self.fronts@[i] == slot_item(
                self.locals@[i],
            )
    }

    /// An empty ready set with `lanes` local queues of `lane_size` places.
    pub fn new(lanes: usize, lane_size: u16) -> (rs: ReadySet)
        requires
            lane_size_ok(lane_size),
        ensures
            rs.wf(),
            rs@.shared == Multiset::<u32>::empty(),
            rs@.kept == Seq::new(lanes as nat, |i: int| None::<u32>),
    {
        let (global, locals) = make_queue(lanes, lane_size);
        let mut fronts: Vec<Option<u32>> = Vec::new();
        let mut i: usize = 0;
        while i < lanes
            invariant
                i <= lanes,
                fronts@.len() == i,
                forall|k: int| 0 <= k < i ==> #[trigger] fronts@[k] is None,
            decreases lanes - i,
        {
            fronts.push(None);
            i += 1;
        }
        let rs = ReadySet { global, locals, fronts };
        assert(rs@.kept =~= Seq::new(lanes as nat, |i: int| None::<u32>));
        rs
    }

    /// The number in the slot of the local queue `lane`.
    pub fn slot(&self, lane: usize) -> (front: Option<u32>)
        requires
            self.wf(),
            lane < self@.kept.len(),
        ensures
            front == self@.kept[lane as int],
    {
        self.fronts[lane]
    }

    /// Puts the number into the injector.
    pub fn inject(&mut self, id: u32)
        requires
            old(self).wf(),
        ensures
            final(self).wf(),
            final(self)@ == (ReadyView { shared: old(self)@.shared.insert(id), ..old(self)@ }),
    {
        push_global(&mut self.global, id);
        assert(self@.kept =~= old(self)@.kept);
    }

    /// Puts the number into the slot of the local queue `lane`. The number
    /// that was in the slot moves on to where any worker can take it.
    pub fn keep(&mut self, lane: usize, id: u32)
        requires
            old(self).wf(),
            lane < old(self)@.kept.len(),
        ensures
            final(self).wf(),
            final(self)@ == (ReadyView {
                shared: match old(self)@.kept[lane as int] {
                    Some(previous) => old(self)@.shared.insert(previous),
                    None => old(self)@.shared,
                },
                kept: old(self)@.kept.update(lane as int, Some(id)),
            }),
    {
        push_local(&mut self.global, &mut self.locals[lane], id);
        self.fronts.set(lane, Some(id));
        assert(self@.kept =~= old(self)@.kept.update(lane as int, Some(id)));
    }

    /// Takes a number out for the worker of the local queue `lane`: the
    /// number in the slot of that queue or, with an empty slot, one of those
    /// that any worker can take, which the queue chooses. Nothing comes out
    /// exactly where there is neither.
    pub fn pop(&mut self, lane: usize) -> (popped: Option<u32>)
        requires
            old(self).wf(),
            lane < old(self)@.kept.len(),
        ensures
            final(self).wf(),
            final(self)@.kept == old(self)@.kept.update(lane as int, None),
            match old(self)@.kept[lane as int] {
                Some(front) => popped == Some(front) && final(self)@.shared == old(self)@.shared,
                None => match popped {
                    Some(id) => old(self)@.shared.count(id) > 0 && final(self)@.shared == old(
                        self,
                    )@.shared.remove(id),
                    None => old(self)@.shared.len() == 0 && final(self)@.shared == old(
                        self,
                    )@.shared,
                },
            },
    {
        let popped = pop_local(&mut self.global, &mut self.locals[lane]);
        self.fronts.set(lane, None);
        assert(self@.kept =~= old(self)@.kept.update(lane as int, None));
        popped
    }
}

} // verus!
