//! A scheduler of threads, and the first-in first-out one.

use vstd::prelude::*;
use std::collections::VecDeque;
use super::Tid;

verus! {

/// What the thread pool asks of a thread scheduler.
pub trait Scheduler {
    /// Adds thread `tid` to scheduling when the scheduler does not know it yet;
    /// otherwise tells the scheduler that thread `tid` is to run on.
    fn push(&mut self, tid: Tid)
        requires
            tid + 2 <= usize::MAX,
    ;

    /// Picks one of the runnable threads to run, if there is one.
    fn pop(&mut self) -> Option<Tid>;

    /// Tells the scheduler, at a clock interrupt, that the running thread used one
    /// more tick; returns whether it should be switched out.
    fn tick(&mut self) -> bool;

    /// Tells the scheduler that thread `tid` has ended.
    fn exit(&mut self, tid: Tid)
        requires
            tid + 1 <= usize::MAX,
    ;
}

/// What the scheduler keeps for one thread slot: whether the thread waits in the
/// ready queue.
#[derive(Clone, Copy)]
pub struct FifoInfo {
    valid: bool,
}

/// Runs threads in the order they became runnable, each until it gives the
/// processor back. Slot `tid + 1` marks whether thread `tid` waits in the ready
/// queue (slot 0 is spare); `current` is the running thread's slot, 0 when none runs.
pub struct FifoScheduler {
    ready_queue: Vec<FifoInfo>,
    order: VecDeque<Tid>,
    current: usize,
}

/// Whether the slots mark thread `tid` as waiting.
spec fn marked(slots: Seq<FifoInfo>, tid: Tid) -> bool {
    tid + 1 < slots.len() && slots[tid + 1].valid
}

/// The runnable threads after `push(tid)`.
pub open spec fn ready_after_push(ready: Seq<Tid>, tid: Tid) -> Seq<Tid> {
    if ready.contains(tid) { ready } else { ready.push(tid) }
}

impl FifoScheduler {
    /// The slots mark exactly the threads of the ready queue, each once.
    #[verifier::type_invariant]
    spec fn well_formed(&self) -> bool {
        &&& forall|t: Tid| #[trigger] marked(self.ready_queue@, t) <==> self.order@.contains(t)
        &&& self.order@.no_duplicates()
    }

    /// The runnable threads, in the order they will be picked.
    pub closed spec fn ready(&self) -> Seq<Tid> {
        self.order@
    }

    /// The running thread, if one runs.
    pub closed spec fn running(&self) -> Option<Tid> {
        if self.current == 0 { None } else { Some((self.current - 1) as Tid) }
    }

    /// A scheduler with no runnable and no running thread.
    pub fn new() -> (s: Self)
        ensures
            s.ready() == Seq::<Tid>::empty(),
            s.running() is None,
    {
        let mut ready_queue = Vec::new();
        ready_queue.push(FifoInfo { valid: false });
        let s = FifoScheduler { ready_queue: ready_queue, order: VecDeque::new(), current: 0 };
        s
    }

    /// Takes the scheduler's parts out, leaving an empty one behind.
    fn take_parts(&mut self) -> (parts: (Vec<FifoInfo>, VecDeque<Tid>, usize))
        ensures
            forall|t: Tid| #[trigger] marked(parts.0@, t) <==> parts.1@.contains(t),
            parts.1@.no_duplicates(),
            parts.1@ == old(self).ready(),
            parts.2 == old(self).current,
    {
        let mut taken = FifoScheduler { ready_queue: Vec::new(), order: VecDeque::new(), current: 0 };
        std::mem::swap(self, &mut taken);
        proof {
            use_type_invariant(&taken);
        }
        let FifoScheduler { ready_queue, order, current } = taken;
        (ready_queue, order, current)
    }
}

impl Scheduler for FifoScheduler {
    /// A thread not in the ready queue joins it at the back and becomes runnable;
    /// one already there keeps its place. Which thread runs does not change.
    fn push(&mut self, tid: Tid)
        ensures
            final(self).ready() == ready_after_push(old(self).ready(), tid),
            final(self).ready().no_duplicates(),
            final(self).running() == old(self).running(),
    {
        let (mut slots, mut order, current) = self.take_parts();
        let slot = tid + 1;
        if slot + 1 > slots.len() {
            let ghost before = slots@;
            slots.resize(slot + 1, FifoInfo { valid: false });
            assert forall|t: Tid| #[trigger] marked(slots@, t) <==> marked(before, t) by {
                if t + 1 < before.len() {
                    assert(slots@.subrange(0, before.len() as int)[t + 1] == slots@[t + 1]);
                }
            }
        }
        if !slots[slot].valid {
            let ghost before_slots = slots@;
            let ghost before_order = order@;
            assert(!marked(before_slots, tid));
            slots[slot] = FifoInfo { valid: true };
            order.push_back(tid);
            assert forall|t: Tid| #[trigger] marked(slots@, t) <==> order@.contains(t) by {
                if t != tid {
                    assert(marked(slots@, t) == marked(before_slots, t));
                    if order@.contains(t) {
                        let i = choose|i: int| 0 <= i < order@.len() && order@[i] == t;
                        assert(before_order[i] == t);
                    }
                    if before_order.contains(t) {
                        let i = choose|i: int| 0 <= i < before_order.len() && before_order[i] == t;
                        assert(order@[i] == t);
                    }
                } else {
                    assert(order@[order@.len() - 1] == t);
                }
            }
            assert(!before_order.contains(tid));
            assert(order@ =~= before_order.push(tid));
        } else {
            assert(marked(slots@, tid));
        }
        *self = FifoScheduler { ready_queue: slots, order: order, current: current };
    }

    /// The thread at the front of the ready queue leaves it and becomes the
    /// running one. `None` only when no thread is runnable; then nothing changes.
    fn pop(&mut self) -> (r: Option<Tid>)
        ensures
            match r {
                Some(t) => {
                    &&& old(self).ready().len() > 0
                    &&& t == old(self).ready()[0]
                    &&& final(self).ready() == old(self).ready().drop_first()
                    &&& final(self).running() == Some(t)
                },
                None => {
                    &&& old(self).ready().len() == 0
                    &&& final(self).ready() == old(self).ready()
                    &&& final(self).running() == old(self).running()
                },
            },
            final(self).ready().no_duplicates(),
    {
        let (mut slots, mut order, mut current) = self.take_parts();
        let ghost before_order = order@;
        let r = order.pop_front();
        match r {
            Some(tid) => {
                assert(before_order[0] == tid);
                assert(before_order.contains(tid));
                assert(marked(slots@, tid));
                let ghost before_slots = slots@;
                let slot_count = slots.len();
                assert(tid + 1 < slot_count);
                slots[tid + 1] = FifoInfo { valid: false };
                current = tid + 1;
                assert(order@ =~= before_order.drop_first());
                assert forall|t: Tid| #[trigger] marked(slots@, t) <==> order@.contains(t) by {
                    if t != tid {
                        assert(marked(slots@, t) == marked(before_slots, t));
                        if order@.contains(t) {
                            let i = choose|i: int| 0 <= i < order@.len() && order@[i] == t;
                            assert(before_order[i + 1] == t);
                        }
                        if before_order.contains(t) {
                            let i = choose|i: int| 0 <= i < before_order.len() && before_order[i] == t;
                            assert(i != 0);
                            assert(order@[i - 1] == t);
                        }
                    } else {
                        if order@.contains(t) {
                            let i = choose|i: int| 0 <= i < order@.len() && order@[i] == t;
                            assert(before_order[i + 1] == t);
                            assert(before_order[0] == t);
                        }
                    }
                }
            },
            None => {},
        }
        *self = FifoScheduler { ready_queue: slots, order: order, current: current };
        r
    }

    /// Never asks for a switch: a thread runs until it gives the processor back.
    fn tick(&mut self) -> (switch: bool)
        ensures
            !switch,
            final(self).ready() == old(self).ready(),
            final(self).running() == old(self).running(),
    {
        false
    }

    /// An ended thread stops running if it ran, and leaves the ready queue if it
    /// waited there, so it is not picked again unless pushed anew.
    fn exit(&mut self, tid: Tid)
        ensures
            final(self).ready() == old(self).ready().remove_value(tid),
            !final(self).ready().contains(tid),
            final(self).ready().no_duplicates(),
            final(self).running() == (if old(self).running() == Some(tid) {
                None
            } else {
                old(self).running()
            }),
    {
        let (mut slots, mut order, mut current) = self.take_parts();
        let ghost before_order = order@;
        let slot = tid + 1;
        if current == slot {
            current = 0;
        }
        if slot < slots.len() && slots[slot].valid {
            assert(marked(slots@, tid));
            let ghost before_slots = slots@;
            slots[slot] = FifoInfo { valid: false };
            let len = order.len();
            let mut i: usize = 0;
            while order[i] != tid
                invariant
                    order@ == before_order,
                    len == order@.len(),
                    0 <= i < len,
                    forall|j: int| 0 <= j < i ==> order@[j] != tid,
                    order@.contains(tid),
                    exists|k: int| i <= k < len && order@[k] == tid,
                decreases len - i,
            {
                i = i + 1;
            }
            proof {
                before_order.index_of_first_ensures(tid);
                let k = before_order.index_of_first(tid).unwrap();
                assert(k == i);
            }
            order.remove(i);
            assert(order@ == before_order.remove_value(tid));
            assert forall|t: Tid| #[trigger] marked(slots@, t) <==> order@.contains(t) by {
                if t != tid {
                    assert(marked(slots@, t) == marked(before_slots, t));
                    if order@.contains(t) {
                        let j = choose|j: int| 0 <= j < order@.len() && order@[j] == t;
                        if j < i { assert(before_order[j] == t); } else { assert(before_order[j + 1] == t); }
                    }
                    if before_order.contains(t) {
                        let j = choose|j: int| 0 <= j < before_order.len() && before_order[j] == t;
                        assert(j != i);
                        if j < i { assert(order@[j] == t); } else { assert(order@[j - 1] == t); }
                    }
                } else {
                    if order@.contains(t) {
                        let j = choose|j: int| 0 <= j < order@.len() && order@[j] == t;
                        if j < i { assert(before_order[j] == t); } else { assert(before_order[j + 1] == t); }
                    }
                }
            }
        } else {
            assert(!marked(slots@, tid));
            assert(!before_order.contains(tid));
            proof {
                before_order.index_of_first_ensures(tid);
            }
        }
        *self = FifoScheduler { ready_queue: slots, order: order, current: current };
    }
}

/// Threads run in the order they became runnable: pushing two distinct threads
/// onto a scheduler with no runnable thread, the first pick is the first pushed,
/// the next pick the second, and then no thread is runnable.
pub proof fn lemma_threads_run_in_push_order(a: Tid, b: Tid)
    requires
        a != b,
    ensures
        ready_after_push(ready_after_push(Seq::<Tid>::empty(), a), b)[0] == a,
        ready_after_push(ready_after_push(Seq::<Tid>::empty(), a), b).drop_first()[0] == b,
        ready_after_push(ready_after_push(Seq::<Tid>::empty(), a), b).drop_first().drop_first().len() == 0,
{
    assert(!Seq::<Tid>::empty().contains(a));
    assert(Seq::<Tid>::empty().push(a)[0] == a);
    assert(!Seq::<Tid>::empty().push(a).contains(b));
}

/// Pushing a thread that is not runnable makes it runnable, last in line, the
/// others keeping their order; pushing one that is runnable changes nothing.
pub proof fn lemma_push_makes_runnable(ready: Seq<Tid>, tid: Tid)
    ensures
        ready_after_push(ready, tid).contains(tid),
        !ready.contains(tid) ==> {
            &&& ready_after_push(ready, tid).len() == ready.len() + 1
            &&& ready_after_push(ready, tid)[ready.len() as int] == tid
            &&& forall|i: int| 0 <= i < ready.len() ==> #[trigger] ready_after_push(ready, tid)[i] == ready[i]
        },
        ready.contains(tid) ==> ready_after_push(ready, tid) == ready,
{
    if !ready.contains(tid) {
        assert(ready.push(tid)[ready.len() as int] == tid);
    }
}

/// Pushing a thread that is already runnable changes nothing: it keeps its turn.
pub proof fn lemma_push_runnable_keeps_turn(ready: Seq<Tid>, tid: Tid)
    requires
        ready.contains(tid),
    ensures
        ready_after_push(ready, tid) == ready,
        ready_after_push(ready_after_push(ready, tid), tid) == ready,
{
}

} // verus!
