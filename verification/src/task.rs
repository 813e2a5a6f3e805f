//! The executor's treatment of one task taken from the user task queue.

use vstd::prelude::*;
use crate::runtime::{Reactor, TaskState, UserTask, UserTaskQueue, after_first_poll, finished, holds, waiting, woken};
use std::sync::Arc;

verus! {

/// Whether running a task with record `m` polls its computation: unless the
/// reactor knows the task and it was not woken. `run_task` polls exactly when
/// this holds, and otherwise hands the poll function back unused.
pub open spec fn polls_computation(m: Map<usize, TaskState>, id: usize) -> bool {
    !m.contains_key(id) || holds(m, id, TaskState::Ready)
}

/// The reactor's record after running task `id`, where `completed` is what the
/// poll of its computation reported (and is not looked at when none took place).
pub open spec fn after_run(m: Map<usize, TaskState>, id: usize, completed: bool) -> Map<usize, TaskState> {
    if holds(m, id, TaskState::Ready) {
        if completed { finished(m, id) } else { waiting(m, id) }
    } else if m.contains_key(id) {
        waiting(m, id)
    } else {
        after_first_poll(m, id, completed)
    }
}

/// Runs one task taken from the queue. A woken task is polled through
/// `poll_future`, which is handed the task: finished when that completes, waiting again otherwise.
/// A task the reactor knows but that was not woken is recorded as waiting and not
/// polled. A task the reactor does not know is polled, and registered as waiting
/// when it does not complete. The first part of the answer is what the poll
/// reported, `None` when no poll took place; the second hands `poll_future` back
/// unused exactly when no poll took place.
pub fn run_task<F, P: FnOnce(&Arc<UserTask<F>>) -> bool>(reactor: &mut Reactor, task: &Arc<UserTask<F>>, poll_future: P) -> (r: (Option<bool>, Option<P>))
    requires
        call_requires(poll_future, (task,)),
    ensures
        r.0 is Some <==> polls_computation(old(reactor)@, task.id.0),
        r.0 is None ==> r.1 == Some(poll_future),
        r.0 is Some ==> r.1 is None,
        match r.0 {
            Some(completed) => call_ensures(poll_future, (task,), completed),
            None => true,
        },
        final(reactor)@ == after_run(old(reactor)@, task.id.0, r.0 == Some(true)),
{
    let id = task.id;
    if reactor.is_ready(id) {
        let completed = poll_future(task);
        if completed {
            reactor.finish_task(id);
        } else {
            reactor.add_task(id);
        }
        (Some(completed), None)
    } else if reactor.contains_task(id) {
        reactor.add_task(id);
        (None, Some(poll_future))
    } else {
        let completed = poll_future(task);
        if !completed {
            reactor.register(id);
        }
        (Some(completed), None)
    }
}

/// The reactor's record after running, one after the other, the tasks `ids`,
/// where `completed[i]` is what the poll of the `i`-th reported.
pub open spec fn after_runs(m: Map<usize, TaskState>, ids: Seq<usize>, completed: Seq<bool>) -> Map<usize, TaskState>
    decreases ids.len(),
{
    if ids.len() == 0 {
        m
    } else {
        after_run(after_runs(m, ids.drop_last(), completed.drop_last()), ids.last(), completed.last())
    }
}

/// The identifiers of `tasks`, in order.
pub open spec fn ids_of<F>(tasks: Seq<UserTask<F>>) -> Seq<usize> {
    tasks.map_values(|t: UserTask<F>| t.id.0)
}

/// For each run task, whether its poll reported completion.
pub open spec fn completions<F>(done: Seq<(Arc<UserTask<F>>, Option<bool>)>) -> Seq<bool> {
    done.map_values(|d: (Arc<UserTask<F>>, Option<bool>)| d.1 == Some(true))
}

/// Empties the queue, running each task once, front first, with `run_task`:
/// every task in the queue is taken exactly once and in order, and the queue is
/// empty at the end. The tasks come back, in the order they ran, each with what
/// its poll reported (`None` when no poll was due); they are handed back rather
/// than let go so that the caller decides when they are released.
pub fn drain<F, P: Fn(&Arc<UserTask<F>>) -> bool>(queue: &mut UserTaskQueue<F>, reactor: &mut Reactor, poll_future: &P) -> (done: Vec<(Arc<UserTask<F>>, Option<bool>)>)
    requires
        forall|t: &Arc<UserTask<F>>| call_requires(*poll_future, (t,)),
    ensures
        final(queue).tasks().len() == 0,
        done@.len() == old(queue).tasks().len(),
        forall|i: int| 0 <= i < done@.len() ==> *(#[trigger] done@[i]).0 == old(queue).tasks()[i],
        forall|i: int| 0 <= i < done@.len() ==> {
            let before = after_runs(old(reactor)@, ids_of(old(queue).tasks()).take(i), completions(done@).take(i));
            &&& ((#[trigger] done@[i]).1 is Some <==> polls_computation(before, old(queue).tasks()[i].id.0))
            &&& (done@[i].1 matches Some(c) ==> call_ensures(*poll_future, (&done@[i].0,), c))
        },
        final(reactor)@ == after_runs(old(reactor)@, ids_of(old(queue).tasks()), completions(done@)),
{
    let ghost tasks = queue.tasks();
    let ghost m0 = reactor@;
    let mut done: Vec<(Arc<UserTask<F>>, Option<bool>)> = Vec::new();
    loop
        invariant
            forall|t: &Arc<UserTask<F>>| call_requires(*poll_future, (t,)),
            0 <= done@.len() <= tasks.len(),
            queue.tasks() == tasks.skip(done@.len() as int),
            forall|i: int| 0 <= i < done@.len() ==> *(#[trigger] done@[i]).0 == tasks[i],
            forall|i: int| 0 <= i < done@.len() ==> {
                let before = after_runs(m0, ids_of(tasks).take(i), completions(done@).take(i));
                &&& ((#[trigger] done@[i]).1 is Some <==> polls_computation(before, tasks[i].id.0))
                &&& (done@[i].1 matches Some(c) ==> call_ensures(*poll_future, (&done@[i].0,), c))
            },
            reactor@ == after_runs(m0, ids_of(tasks).take(done@.len() as int), completions(done@)),
        ensures
            done@.len() == tasks.len(),
            queue.tasks().len() == 0,
            forall|i: int| 0 <= i < done@.len() ==> *(#[trigger] done@[i]).0 == tasks[i],
            forall|i: int| 0 <= i < done@.len() ==> {
                let before = after_runs(m0, ids_of(tasks).take(i), completions(done@).take(i));
                &&& ((#[trigger] done@[i]).1 is Some <==> polls_computation(before, tasks[i].id.0))
                &&& (done@[i].1 matches Some(c) ==> call_ensures(*poll_future, (&done@[i].0,), c))
            },
            reactor@ == after_runs(m0, ids_of(tasks), completions(done@)),
        decreases tasks.len() - done@.len(),
    {
        let ghost k = done@.len() as int;
        match queue.peek_task() {
            Some(task) => {
                assert(*task == tasks[k]);
                let ghost before = reactor@;
                let (polled, _unpolled) = run_task(reactor, &task, |t: &Arc<UserTask<F>>| -> (b: bool)
                    requires
                        call_requires(*poll_future, (t,)),
                    ensures
                        call_ensures(*poll_future, (t,), b),
                    { poll_future(t) });
                let ghost old_done = done@;
                done.push((task, polled));
                proof {
                    assert(ids_of(tasks).take(k + 1).drop_last() =~= ids_of(tasks).take(k));
                    assert(completions(done@).drop_last() =~= completions(old_done));
                    assert(completions(done@).take(k) =~= completions(old_done));
                    assert(ids_of(tasks).take(k + 1).last() == tasks[k].id.0);
                    assert forall|i: int| 0 <= i < done@.len() implies completions(done@).take(i) =~= completions(old_done).take(i) || i == k by {
                        if i < k {
                            assert(completions(done@).take(i) =~= completions(old_done).take(i));
                        }
                    }
                    assert(completions(done@).take(k + 1) =~= completions(done@));
                }
            },
            None => {
                assert(tasks.skip(k).len() == 0);
                assert(ids_of(tasks).take(k) =~= ids_of(tasks));
                break;
            },
        }
    }
    done
}

/// Which tasks the executor polls: one the reactor does not know and one it holds
/// as woken; never one it holds as waiting or as finished.
pub proof fn lemma_which_tasks_are_polled(m: Map<usize, TaskState>, id: usize)
    ensures
        !m.contains_key(id) ==> polls_computation(m, id),
        m.contains_key(id) && m[id] == TaskState::Ready ==> polls_computation(m, id),
        m.contains_key(id) && m[id] == TaskState::NotReady ==> !polls_computation(m, id),
        m.contains_key(id) && m[id] == TaskState::Finish ==> !polls_computation(m, id),
{
}

/// The reactor's record after running one task, case by case: a woken task is
/// finished if its poll completed and waits again otherwise; a task held as
/// waiting or finished is set to waiting whatever `completed` says; an unknown
/// task leaves no record if its poll completed and is added as waiting otherwise.
pub proof fn lemma_run_record(m: Map<usize, TaskState>, id: usize, completed: bool)
    ensures
        m.contains_key(id) && m[id] == TaskState::Ready && completed ==> after_run(m, id, completed) == m.insert(id, TaskState::Finish),
        m.contains_key(id) && m[id] == TaskState::Ready && !completed ==> after_run(m, id, completed) == m.insert(id, TaskState::NotReady),
        m.contains_key(id) && m[id] != TaskState::Ready ==> after_run(m, id, completed) == m.insert(id, TaskState::NotReady),
        !m.contains_key(id) && completed ==> after_run(m, id, completed) == m,
        !m.contains_key(id) && !completed ==> after_run(m, id, completed) == m.insert(id, TaskState::NotReady),
{
}

/// Running no task leaves the record as it is, and running one more task after a
/// run of several is running that task on the record the others left. So a woken
/// task that a drain polls and that stays pending is held as waiting afterwards,
/// and a finished one is set to waiting without a poll.
pub proof fn lemma_runs_step(m: Map<usize, TaskState>, ids: Seq<usize>, completed: Seq<bool>, id: usize, c: bool)
    requires
        ids.len() == completed.len(),
    ensures
        after_runs(m, Seq::<usize>::empty(), Seq::<bool>::empty()) == m,
        after_runs(m, ids.push(id), completed.push(c)) == after_run(after_runs(m, ids, completed), id, c),
        m.contains_key(id) && m[id] == TaskState::Ready ==> after_runs(m, seq![id], seq![false]) == m.insert(id, TaskState::NotReady),
        m.contains_key(id) && m[id] == TaskState::Finish ==> after_runs(m, seq![id], seq![c]) == m.insert(id, TaskState::NotReady),
{
    assert(ids.push(id).drop_last() =~= ids);
    assert(completed.push(c).drop_last() =~= completed);
    assert(seq![id].drop_last() =~= Seq::<usize>::empty());
    assert(seq![false].drop_last() =~= Seq::<bool>::empty());
    assert(seq![c].drop_last() =~= Seq::<bool>::empty());
    assert(after_runs(m, Seq::<usize>::empty(), Seq::<bool>::empty()) == m);
    assert(after_runs(m, seq![id], seq![false]) == after_run(m, id, false));
    assert(after_runs(m, seq![id], seq![c]) == after_run(m, id, c));
}

/// The identifiers and poll reports a drain is described by: one per task, in order.
pub proof fn lemma_ids_and_completions<F>(tasks: Seq<UserTask<F>>, done: Seq<(Arc<UserTask<F>>, Option<bool>)>)
    ensures
        ids_of(tasks).len() == tasks.len(),
        forall|i: int| 0 <= i < tasks.len() ==> #[trigger] ids_of(tasks)[i] == tasks[i].id.0,
        completions(done).len() == done.len(),
        forall|i: int| 0 <= i < done.len() ==> #[trigger] completions(done)[i] == (done[i].1 == Some(true)),
{
}

/// A task that waits and was not woken is left alone by the executor: for such a
/// record no poll is due (so `run_task` hands its computation back unpolled), and
/// running it leaves the record as it was, however often it runs.
pub proof fn lemma_unwoken_task_stays_waiting(m: Map<usize, TaskState>, id: usize, completed: bool)
    requires
        holds(m, id, TaskState::NotReady),
    ensures
        !polls_computation(m, id),
        after_run(m, id, completed) == m,
{
    assert(waiting(m, id) =~= m);
}

/// Waking a waiting task and then running it with a computation that completes
/// leaves the task finished; if the computation does not complete, it waits again.
pub proof fn lemma_woken_task_runs(m: Map<usize, TaskState>, id: usize)
    requires
        holds(m, id, TaskState::NotReady),
    ensures
        polls_computation(woken(m, id), id),
        holds(after_run(woken(m, id), id, true), id, TaskState::Finish),
        after_run(woken(m, id), id, false) == m,
{
    assert(waiting(woken(m, id), id) =~= m);
}

/// The life of a task whose first poll does not complete: it is registered as
/// waiting, no poll is due for it until it is woken (so `run_task` hands its
/// computation back unpolled), and once woken and completed it is finished. A task whose first poll completes leaves no record at all.
pub proof fn lemma_task_lifecycle(m: Map<usize, TaskState>, id: usize)
    requires
        !m.contains_key(id),
    ensures
        polls_computation(m, id),
        after_run(m, id, true) == m,
        holds(after_run(m, id, false), id, TaskState::NotReady),
        !polls_computation(after_run(m, id, false), id),
        holds(after_run(woken(after_run(m, id, false), id), id, true), id, TaskState::Finish),
{
}

} // verus!
