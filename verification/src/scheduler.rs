//! A scheduler of user tasks, and the first-in first-out one.

use vstd::prelude::*;
use std::collections::VecDeque;

verus! {

/// What the executor asks of a scheduler of tasks of type `T`.
pub trait Scheduler<T> {
    /// Adds a task to the scheduler.
    fn push(&mut self, task: T);

    /// Takes the next task out of the ready queue.
    fn pop(&mut self) -> Option<T>;

    /// The next task, left in place.
    fn front(&mut self) -> Option<&T>;

    /// The next task, left in place, for changing it.
    fn front_mut(&mut self) -> Option<&mut T>;
}

/// Hands out tasks in the order they were pushed.
pub struct FifoScheduler<T> {
    ready_queue: VecDeque<T>,
}

impl<T> View for FifoScheduler<T> {
    type V = Seq<T>;

    /// The ready tasks, next one first.
    closed spec fn view(&self) -> Seq<T> {
        self.ready_queue@
    }
}

/// The first task of a queue, in place.
#[verifier::external_body]
fn queue_front_mut<T>(queue: &mut VecDeque<T>) -> (r: Option<&mut T>)
    ensures
        match r {
            Some(t) => {
                &&& old(queue)@.len() > 0
                &&& *t == old(queue)@[0]
                &&& final(queue)@ == old(queue)@.update(0, *final(t))
            },
            None => {
                &&& old(queue)@.len() == 0
                &&& final(queue)@ == old(queue)@
            },
        },
{
    queue.front_mut()
}

/// The ready tasks after `push(task)`.
pub open spec fn after_push<T>(ready: Seq<T>, task: T) -> Seq<T> {
    ready.push(task)
}

/// The ready tasks after `pop` took one out.
pub open spec fn after_pop<T>(ready: Seq<T>) -> Seq<T> {
    ready.drop_first()
}

impl<T> FifoScheduler<T> {
    /// A scheduler with no ready task.
    pub fn new() -> (s: Self)
        ensures
            s@ == Seq::<T>::empty(),
    {
        Self { ready_queue: VecDeque::new() }
    }
}

impl<T> Scheduler<T> for FifoScheduler<T> {
    /// Puts the task at the back of the ready queue.
    fn push(&mut self, task: T)
        ensures
            final(self)@ == after_push(old(self)@, task),
    {
        self.ready_queue.push_back(task);
    }

    /// Takes the task at the front of the ready queue, if there is one.
    fn pop(&mut self) -> (r: Option<T>)
        ensures
            match r {
                Some(t) => {
                    &&& old(self)@.len() > 0
                    &&& t == old(self)@[0]
                    &&& final(self)@ == after_pop(old(self)@)
                },
                None => {
                    &&& old(self)@.len() == 0
                    &&& final(self)@ == old(self)@
                },
            },
    {
        let r = self.ready_queue.pop_front();
        assert(r is Some ==> self.ready_queue@ =~= after_pop(old(self)@));
        r
    }

    /// The task at the front of the ready queue, if there is one.
    fn front(&mut self) -> (r: Option<&T>)
        ensures
            final(self)@ == old(self)@,
            match r {
                Some(t) => old(self)@.len() > 0 && *t == old(self)@[0],
                None => old(self)@.len() == 0,
            },
    {
        if self.ready_queue.len() == 0 {
            None
        } else {
            Some(&self.ready_queue[0])
        }
    }

    /// The task at the front of the ready queue, in place, if there is one; what
    /// is written through it becomes that task.
    fn front_mut(&mut self) -> (r: Option<&mut T>)
        ensures
            match r {
                Some(t) => {
                    &&& old(self)@.len() > 0
                    &&& *t == old(self)@[0]
                    &&& final(self)@ == old(self)@.update(0, *final(t))
                },
                None => {
                    &&& old(self)@.len() == 0
                    &&& final(self)@ == old(self)@
                },
            },
    {
        queue_front_mut(&mut self.ready_queue)
    }
}

/// A push always appends: the ready queue grows by one, with the tasks that were
/// ready in front, in order, and the pushed task last, however many were ready.
pub proof fn lemma_push_appends<T>(ready: Seq<T>, task: T)
    ensures
        after_push(ready, task).len() == ready.len() + 1,
        after_push(ready, task)[ready.len() as int] == task,
        forall|i: int| 0 <= i < ready.len() ==> #[trigger] after_push(ready, task)[i] == ready[i],
{
}

/// A pop on a non-empty ready queue removes exactly the front task, the others
/// moving up in order; so, with `lemma_push_appends`, a pushed task comes out
/// after every task that was ready before it.
pub proof fn lemma_pop_removes_front<T>(ready: Seq<T>)
    requires
        ready.len() > 0,
    ensures
        after_pop(ready).len() == ready.len() - 1,
        forall|i: int| 0 <= i < ready.len() - 1 ==> #[trigger] after_pop(ready)[i] == ready[i + 1],
{
}

/// First in, first out: tasks pushed one after the other onto an empty scheduler
/// come out of it in the order they went in, and then it is empty again.
pub proof fn lemma_fifo_order<T>(a: T, b: T)
    ensures
        after_push(after_push(Seq::<T>::empty(), a), b)[0] == a,
        after_pop(after_push(after_push(Seq::<T>::empty(), a), b))[0] == b,
        after_pop(after_pop(after_push(after_push(Seq::<T>::empty(), a), b))) == Seq::<T>::empty(),
{
    assert(after_pop(after_pop(after_push(after_push(Seq::<T>::empty(), a), b))) =~= Seq::<T>::empty());
}

} // verus!
