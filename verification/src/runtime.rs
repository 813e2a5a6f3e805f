//! Tasks, their identifiers, the user task queue and the reactor.

use vstd::prelude::*;
use std::collections::BTreeMap;
use std::collections::VecDeque;
use std::sync::Arc;

verus! {

/// Identifies a user task; two tasks made by one counter never share an identifier.
#[derive(Eq, PartialEq, Structural, Debug, Clone, Copy, Hash, Ord, PartialOrd)]
pub struct TaskId(pub usize);

/// The source of fresh task identifiers: each identifier handed out is the
/// counter's value, after which the counter moves on by one.
pub struct TaskIdCounter {
    next: usize,
}

impl TaskIdCounter {
    /// The identifier that the next call of `TaskId::generate` hands out.
    pub closed spec fn next_id(&self) -> nat {
        self.next as nat
    }

    /// The identifier that the next call of `TaskId::generate` hands out.
    pub fn peek_id(&self) -> (n: usize)
        ensures
            n == self.next_id(),
    {
        self.next
    }

    /// A counter that starts at zero.
    pub fn new() -> (c: Self)
        ensures
            c.next_id() == 0,
    {
        TaskIdCounter { next: 0 }
    }
}

/// The largest identifier that may still be handed out.
pub open spec fn max_task_id() -> nat {
    (usize::MAX / 2) as nat
}

impl TaskId {
    /// Hands out the counter's current value as a new identifier and advances the
    /// counter. A counter past `usize::MAX / 2` may not be asked: there are too
    /// many tasks.
    pub fn generate(counter: &mut TaskIdCounter) -> (id: TaskId)
        requires
            old(counter).next_id() <= max_task_id(),
        ensures
            id.0 == old(counter).next_id(),
            final(counter).next_id() == old(counter).next_id() + 1,
    {
        let id = counter.next;
        counter.next = id + 1;
        TaskId(id)
    }
}

/// Identifiers handed out by one counter at different times differ, and the
/// later one is larger: the counter only moves on, one step per identifier.
pub proof fn lemma_later_ids_larger(at_first: TaskIdCounter, first: TaskId, at_second: TaskIdCounter, second: TaskId)
    requires
        first.0 == at_first.next_id(),
        second.0 == at_second.next_id(),
        at_second.next_id() >= at_first.next_id() + 1,
    ensures
        first.0 < second.0,
        first != second,
{
}

/// Where a task stands with the reactor.
#[derive(Eq, PartialEq, Structural, Debug, Clone, Copy)]
pub enum TaskState {
    Ready,
    NotReady,
    Finish,
}

/// The reactor's record after `id` is recorded as waiting.
pub open spec fn waiting(m: Map<usize, TaskState>, id: usize) -> Map<usize, TaskState> {
    m.insert(id, TaskState::NotReady)
}

/// The reactor's record after `id` is marked woken.
pub open spec fn woken(m: Map<usize, TaskState>, id: usize) -> Map<usize, TaskState> {
    m.insert(id, TaskState::Ready)
}

/// The reactor's record after `id` is marked finished.
pub open spec fn finished(m: Map<usize, TaskState>, id: usize) -> Map<usize, TaskState> {
    m.insert(id, TaskState::Finish)
}

/// Whether the record holds `id` in state `s`.
pub open spec fn holds(m: Map<usize, TaskState>, id: usize, s: TaskState) -> bool {
    m.contains_key(id) && m[id] == s
}

/// Records, for each task it knows, whether it waits, was woken, or has finished.
pub struct Reactor {
    tasks: BTreeMap<usize, TaskState>,
}

impl View for Reactor {
    type V = Map<usize, TaskState>;

    closed spec fn view(&self) -> Map<usize, TaskState> {
        self.tasks@
    }
}

/// Reads a task's state in place, for changing it.
#[verifier::external_body]
fn tasks_get_mut(tasks: &mut BTreeMap<usize, TaskState>, id: usize) -> (r: Option<&mut TaskState>)
    ensures
        match r {
            Some(s) => {
                &&& old(tasks)@.contains_key(id)
                &&& *s == old(tasks)@[id]
                &&& final(tasks)@ == old(tasks)@.insert(id, *final(s))
            },
            None => {
                &&& !old(tasks)@.contains_key(id)
                &&& final(tasks)@ == old(tasks)@
            },
        },
{
    tasks.get_mut(&id)
}

impl Reactor {
    /// A reactor that knows no task.
    pub fn new() -> (r: Self)
        ensures
            r@ == Map::<usize, TaskState>::empty(),
    {
        Reactor { tasks: BTreeMap::new() }
    }

    /// Marks a waiting task as woken. Waking a task the reactor does not know, or
    /// one that is not waiting (woken already, or finished), is refused.
    pub fn wake(&mut self, id: TaskId)
        requires
            holds(old(self)@, id.0, TaskState::NotReady),
        ensures
            final(self)@ == woken(old(self)@, id.0),
    {
        self.tasks.insert(id.0, TaskState::Ready);
    }

    /// Records a task the reactor does not know yet as waiting. Registering a
    /// known task twice is refused.
    pub fn register(&mut self, id: TaskId)
        requires
            !old(self)@.contains_key(id.0),
        ensures
            final(self)@ == waiting(old(self)@, id.0),
    {
        self.tasks.insert(id.0, TaskState::NotReady);
    }

    /// Whether the reactor holds `id` as woken.
    pub fn is_ready(&self, id: TaskId) -> (b: bool)
        ensures
            b == holds(self@, id.0, TaskState::Ready),
    {
        match self.tasks.get(&id.0) {
            Some(state) => match state {
                TaskState::Ready => true,
                _ => false,
            },
            None => false,
        }
    }

    /// The state the reactor holds for `task_id`, if it knows the task.
    pub fn get_task(&self, task_id: TaskId) -> (r: Option<&TaskState>)
        ensures
            match r {
                Some(s) => self@.contains_key(task_id.0) && *s == self@[task_id.0],
                None => !self@.contains_key(task_id.0),
            },
    {
        self.tasks.get(&task_id.0)
    }

    /// The state the reactor holds for `task_id`, in place, if it knows the task;
    /// what is written through it becomes the task's state.
    pub fn get_task_mut(&mut self, task_id: TaskId) -> (r: Option<&mut TaskState>)
        ensures
            match r {
                Some(s) => {
                    &&& old(self)@.contains_key(task_id.0)
                    &&& *s == old(self)@[task_id.0]
                    &&& final(self)@ == old(self)@.insert(task_id.0, *final(s))
                },
                None => {
                    &&& !old(self)@.contains_key(task_id.0)
                    &&& final(self)@ == old(self)@
                },
            },
    {
        tasks_get_mut(&mut self.tasks, task_id.0)
    }

    /// Records `task_id` as waiting, whatever it held before; returns what it held.
    pub fn add_task(&mut self, task_id: TaskId) -> (prev: Option<TaskState>)
        ensures
            final(self)@ == waiting(old(self)@, task_id.0),
            prev == (if old(self)@.contains_key(task_id.0) {
                Some(old(self)@[task_id.0])
            } else {
                None
            }),
    {
        self.tasks.insert(task_id.0, TaskState::NotReady)
    }

    /// Whether the reactor knows `task_id`.
    pub fn contains_task(&self, task_id: TaskId) -> (b: bool)
        ensures
            b == self@.contains_key(task_id.0),
    {
        self.tasks.contains_key(&task_id.0)
    }

    /// Whether the reactor holds `task_id` as finished.
    pub fn is_finish(&self, task_id: TaskId) -> (b: bool)
        ensures
            b == holds(self@, task_id.0, TaskState::Finish),
    {
        match self.tasks.get(&task_id.0) {
            Some(state) => match state {
                TaskState::Finish => true,
                _ => false,
            },
            None => false,
        }
    }

    /// Marks `task_id` as finished, whatever it held before.
    pub fn finish_task(&mut self, task_id: TaskId)
        ensures
            final(self)@ == finished(old(self)@, task_id.0),
    {
        self.tasks.insert(task_id.0, TaskState::Finish);
    }

    /// Forgets `task_id`; returns the state it held, if the reactor knew it.
    pub fn remove_task(&mut self, task_id: TaskId) -> (prev: Option<TaskState>)
        ensures
            final(self)@ == old(self)@.remove(task_id.0),
            prev == (if old(self)@.contains_key(task_id.0) {
                Some(old(self)@[task_id.0])
            } else {
                None
            }),
    {
        self.tasks.remove(&task_id.0)
    }
}


/// A user task: its identifier and the computation it runs. This library never
/// looks into the computation; whoever polls it reports whether it completed.
pub struct UserTask<F> {
    pub id: TaskId,
    pub future: F,
}

/// What one poll of a task that the reactor does not know yet leaves behind:
/// nothing when the computation completed, the task recorded as waiting otherwise.
pub open spec fn after_first_poll(m: Map<usize, TaskState>, id: usize, completed: bool) -> Map<usize, TaskState> {
    if completed { m } else { waiting(m, id) }
}

impl<F> UserTask<F> {
    /// Makes a task around `future` with a fresh identifier from `counter`.
    pub fn spawn(future: F, counter: &mut TaskIdCounter) -> (task: Self)
        requires
            old(counter).next_id() <= max_task_id(),
        ensures
            task.id.0 == old(counter).next_id(),
            task.future == future,
            final(counter).next_id() == old(counter).next_id() + 1,
    {
        UserTask { id: TaskId::generate(counter), future: future }
    }

    /// Called when the task is woken; it does nothing.
    pub fn do_wake(self: &Arc<Self>) {
    }

    /// Polls the task once. A task the reactor holds as woken is done: its
    /// identifier comes back and nothing else happens. A task the reactor knows
    /// otherwise is recorded as waiting again and stays pending. Only a task the
    /// reactor does not know has its computation polled, through `poll_future`:
    /// if that completes the result is `Some(0)`, else the task is registered as
    /// waiting and stays pending (`None`). The second part of the answer hands
    /// `poll_future` back unused whenever the computation was not polled.
    pub fn poll<P: FnOnce(&F) -> bool>(&self, reactor: &mut Reactor, poll_future: P) -> (r: (Option<usize>, Option<P>))
        requires
            call_requires(poll_future, (&self.future,)),
        ensures
            holds(old(reactor)@, self.id.0, TaskState::Ready) ==> {
                &&& r.0 == Some(self.id.0)
                &&& r.1 == Some(poll_future)
                &&& final(reactor)@ == old(reactor)@
            },
            old(reactor)@.contains_key(self.id.0) && !holds(old(reactor)@, self.id.0, TaskState::Ready) ==> {
                &&& r.0 == None::<usize>
                &&& r.1 == Some(poll_future)
                &&& final(reactor)@ == waiting(old(reactor)@, self.id.0)
            },
            !old(reactor)@.contains_key(self.id.0) ==> {
                &&& (r.0 == Some(0usize) || r.0 == None::<usize>)
                &&& r.1 is None
                &&& call_ensures(poll_future, (&self.future,), r.0 is Some)
                &&& final(reactor)@ == after_first_poll(old(reactor)@, self.id.0, r.0 is Some)
            },
    {
        if reactor.is_ready(self.id) {
            (Some(self.id.0), Some(poll_future))
        } else if reactor.contains_task(self.id) {
            reactor.add_task(self.id);
            (None, Some(poll_future))
        } else {
            let completed = poll_future(&self.future);
            if completed {
                (Some(0), None)
            } else {
                reactor.register(self.id);
                (None, None)
            }
        }
    }
}

/// The queue's tasks after `add_task(task)`.
pub open spec fn after_add_task<F>(tasks: Seq<UserTask<F>>, task: UserTask<F>) -> Seq<UserTask<F>> {
    seq![task] + tasks
}

/// The queue's tasks after `add_arc_task` with `task`.
pub open spec fn after_add_arc_task<F>(tasks: Seq<UserTask<F>>, task: UserTask<F>) -> Seq<UserTask<F>> {
    tasks.push(task)
}

/// The queue's tasks after `peek_task` took one out.
pub open spec fn after_peek_task<F>(tasks: Seq<UserTask<F>>) -> Seq<UserTask<F>> {
    tasks.drop_first()
}

/// The user task queue: tasks waiting to be run, front first.
pub struct UserTaskQueue<F> {
    pub queue: VecDeque<Arc<UserTask<F>>>,
}

impl<F> UserTaskQueue<F> {
    /// The tasks in the queue, front first.
    pub open spec fn tasks(&self) -> Seq<UserTask<F>> {
        self.queue@.map_values(|t: Arc<UserTask<F>>| *t)
    }

    /// Puts a new task at the front of the queue.
    pub fn add_task(&mut self, task: UserTask<F>)
        ensures
            final(self).tasks() == after_add_task(old(self).tasks(), task),
    {
        self.queue.push_front(Arc::new(task));
        assert(self.tasks() =~= seq![task] + old(self).tasks());
    }

    /// Puts a shared task at the back of the queue.
    pub fn add_arc_task(&mut self, task: Arc<UserTask<F>>)
        ensures
            final(self).tasks() == after_add_arc_task(old(self).tasks(), *task),
    {
        self.queue.push_back(task);
        assert(self.tasks() =~= old(self).tasks().push(*task));
    }

    /// Takes the task at the front of the queue, if there is one.
    pub fn peek_task(&mut self) -> (r: Option<Arc<UserTask<F>>>)
        ensures
            match r {
                Some(t) => {
                    &&& old(self).tasks().len() > 0
                    &&& *t == old(self).tasks()[0]
                    &&& final(self).tasks() == after_peek_task(old(self).tasks())
                },
                None => {
                    &&& old(self).tasks().len() == 0
                    &&& final(self).tasks() == old(self).tasks()
                },
            },
    {
        let r = self.queue.pop_front();
        assert(self.tasks() =~= old(self).tasks().subrange(1, old(self).tasks().len() as int) || r.is_none());
        r
    }

    /// Removes the frontmost task with identifier `id`. The queue must hold one.
    pub fn delete_task(&mut self, id: TaskId)
        requires
            exists|i: int| 0 <= i < old(self).tasks().len() && (#[trigger] old(self).tasks()[i]).id == id,
        ensures
            exists|i: int| {
                &&& 0 <= i < old(self).tasks().len()
                &&& (#[trigger] old(self).tasks()[i]).id == id
                &&& forall|j: int| 0 <= j < i ==> (#[trigger] old(self).tasks()[j]).id != id
                &&& final(self).tasks() == old(self).tasks().remove(i)
            },
    {
        let ghost tasks = self.tasks();
        let len = self.queue.len();
        let mut index: usize = 0;
        while self.queue[index].id != id
            invariant
                tasks == self.tasks(),
                tasks.len() == self.queue@.len(),
                len == tasks.len(),
                0 <= index < tasks.len(),
                forall|j: int| 0 <= j < index ==> (#[trigger] tasks[j]).id != id,
                exists|i: int| index <= i < tasks.len() && (#[trigger] tasks[i]).id == id,
            decreases tasks.len() - index,
        {
            assert(tasks[index as int].id != id);
            index = index + 1;
        }
        assert(tasks[index as int].id == id);
        self.queue.remove(index);
        assert(self.tasks() =~= tasks.remove(index as int));
    }

    /// Whether the queue holds no task.
    pub fn is_empty(&self) -> (b: bool)
        ensures
            b == (self.tasks().len() == 0),
    {
        self.queue.len() == 0
    }
}


/// Fills the queue with new tasks for the numbers `from..to`, in increasing
/// order: for number `i` the computation is `make(i, id)`, where `id` is the
/// identifier the task gets, and the task is put at the front of the queue. So the
/// task for `to - 1` ends up first, and the tasks that were queued before follow.
pub fn spawn_tasks<F, M: Fn(usize, TaskId) -> F>(
    queue: &mut UserTaskQueue<F>,
    counter: &mut TaskIdCounter,
    from: usize,
    to: usize,
    make: &M,
)
    requires
        from <= to,
        old(counter).next_id() + (to - from) <= max_task_id() + 1,
        forall|i: usize, id: TaskId| call_requires(*make, (i, id)),
    ensures
        final(counter).next_id() == old(counter).next_id() + (to - from),
        final(queue).tasks().len() == old(queue).tasks().len() + (to - from),
        forall|j: int| 0 <= j < to - from ==> {
            let i = to - 1 - j;
            let t = #[trigger] final(queue).tasks()[j];
            &&& t.id.0 == old(counter).next_id() + (i - from)
            &&& call_ensures(*make, (i as usize, t.id), t.future)
        },
        final(queue).tasks().skip(to - from) == old(queue).tasks(),
{
    let ghost old_tasks = queue.tasks();
    let ghost start = counter.next_id();
    let mut i = from;
    while i < to
        invariant
            from <= i <= to,
            forall|k: usize, id: TaskId| call_requires(*make, (k, id)),
            counter.next_id() == start + (i - from),
            start + (to - from) <= max_task_id() + 1,
            queue.tasks().len() == old_tasks.len() + (i - from),
            forall|j: int| 0 <= j < i - from ==> {
                let k = i - 1 - j;
                let t = #[trigger] queue.tasks()[j];
                &&& t.id.0 == start + (k - from)
                &&& call_ensures(*make, (k as usize, t.id), t.future)
            },
            queue.tasks().skip(i - from) == old_tasks,
        decreases to - i,
    {
        let ghost before = queue.tasks();
        let id = TaskId(counter.peek_id());
        let future = make(i, id);
        let task = UserTask::spawn(future, counter);
        queue.add_task(task);
        proof {
            assert forall|j: int| 0 <= j < i + 1 - from implies {
                let k = i + 1 - 1 - j;
                let t = #[trigger] queue.tasks()[j];
                &&& t.id.0 == start + (k - from)
                &&& call_ensures(*make, (k as usize, t.id), t.future)
            } by {
                if j > 0 {
                    assert(queue.tasks()[j] == before[j - 1]);
                }
            }
            assert(queue.tasks().skip(i + 1 - from) =~= before.skip(i - from));
        }
        i = i + 1;
    }
}

/// Registering a task the reactor did not know and then removing it leaves the
/// reactor as it was; marking it woken or finished in between changes nothing.
pub proof fn lemma_register_then_remove(m: Map<usize, TaskState>, id: usize)
    requires
        !m.contains_key(id),
    ensures
        waiting(m, id).remove(id) == m,
        woken(waiting(m, id), id).remove(id) == m,
        finished(waiting(m, id), id).remove(id) == m,
{
    assert(waiting(m, id).remove(id) =~= m);
    assert(woken(waiting(m, id), id).remove(id) =~= m);
    assert(finished(waiting(m, id), id).remove(id) =~= m);
}

/// A task is woken only from waiting: after it is registered it can be woken,
/// and once woken it reads as ready and not finished.
pub proof fn lemma_register_then_wake(m: Map<usize, TaskState>, id: usize)
    requires
        !m.contains_key(id),
    ensures
        holds(waiting(m, id), id, TaskState::NotReady),
        holds(woken(waiting(m, id), id), id, TaskState::Ready),
        !holds(woken(waiting(m, id), id), id, TaskState::Finish),
{
}

/// A task whose first poll did not complete is recorded as known and waiting,
/// not woken; by the contract of `UserTask::poll` and `task::run_task` such a task
/// has its computation handed back unpolled until it is woken.
pub proof fn lemma_pending_task_waits(m: Map<usize, TaskState>, id: usize)
    requires
        !m.contains_key(id),
    ensures
        after_first_poll(m, id, false).contains_key(id),
        !holds(after_first_poll(m, id, false), id, TaskState::Ready),
        after_first_poll(m, id, true) == m,
{
}

/// A task added at the front of the queue is the first one taken out again, and
/// taking it out leaves the queue as it was before: `peek_task` undoes `add_task`.
pub proof fn lemma_add_then_peek<F>(tasks: Seq<UserTask<F>>, task: UserTask<F>)
    ensures
        after_add_task(tasks, task).len() > 0,
        after_add_task(tasks, task)[0] == task,
        after_peek_task(after_add_task(tasks, task)) == tasks,
{
    assert(after_peek_task(after_add_task(tasks, task)) =~= tasks);
}

/// A task added at the back of the queue is taken out only after every task that
/// was queued before it: taking one task out of a queue that held some, and then
/// adding at the back, is the same as adding first and taking out after.
pub proof fn lemma_arc_task_queues_behind<F>(tasks: Seq<UserTask<F>>, task: UserTask<F>)
    requires
        tasks.len() > 0,
    ensures
        after_add_arc_task(tasks, task)[0] == tasks[0],
        after_peek_task(after_add_arc_task(tasks, task)) == after_add_arc_task(after_peek_task(tasks), task),
{
    assert(after_peek_task(after_add_arc_task(tasks, task)) =~= after_add_arc_task(after_peek_task(tasks), task));
}

/// `holds` reads one task's record: the reactor knows the task and it is in that state.
pub proof fn lemma_holds_reads_record(m: Map<usize, TaskState>, id: usize, s: TaskState)
    ensures
        holds(m, id, s) <==> (m.contains_key(id) && m[id] == s),
        holds(m, id, s) ==> forall|o: TaskState| o != s ==> !holds(m, id, o),
{
}

/// Recording a task as waiting, woken or finished sets that task's record to the
/// state named, whatever it held before, adds no other task and keeps every other
/// task's record.
pub proof fn lemma_state_changes_touch_one_task(m: Map<usize, TaskState>, id: usize)
    ensures
        waiting(m, id).contains_key(id) && waiting(m, id)[id] == TaskState::NotReady,
        woken(m, id).contains_key(id) && woken(m, id)[id] == TaskState::Ready,
        finished(m, id).contains_key(id) && finished(m, id)[id] == TaskState::Finish,
        waiting(m, id).dom() == m.dom().insert(id),
        woken(m, id).dom() == m.dom().insert(id),
        finished(m, id).dom() == m.dom().insert(id),
        forall|k: usize| k != id && m.contains_key(k) ==> {
            &&& #[trigger] waiting(m, id)[k] == m[k]
            &&& woken(m, id)[k] == m[k]
            &&& finished(m, id)[k] == m[k]
        },
{
    assert(waiting(m, id).dom() =~= m.dom().insert(id));
    assert(woken(m, id).dom() =~= m.dom().insert(id));
    assert(finished(m, id).dom() =~= m.dom().insert(id));
}

/// The first poll of a task the reactor does not know: a computation that
/// completes leaves the record untouched, one still pending adds exactly that
/// task as waiting.
pub proof fn lemma_first_poll_record(m: Map<usize, TaskState>, id: usize)
    requires
        !m.contains_key(id),
    ensures
        after_first_poll(m, id, true) == m,
        after_first_poll(m, id, false) == m.insert(id, TaskState::NotReady),
{
}

/// Adding at the front makes the queue one longer, with the new task first and
/// the old tasks, in order, behind it.
pub proof fn lemma_add_task_shape<F>(tasks: Seq<UserTask<F>>, task: UserTask<F>)
    ensures
        after_add_task(tasks, task).len() == tasks.len() + 1,
        after_add_task(tasks, task)[0] == task,
        forall|i: int| 0 <= i < tasks.len() ==> #[trigger] after_add_task(tasks, task)[i + 1] == tasks[i],
{
}

/// Adding at the back makes the queue one longer, with the old tasks, in order,
/// in front and the new task last, whatever the task.
pub proof fn lemma_add_arc_task_shape<F>(tasks: Seq<UserTask<F>>, task: UserTask<F>)
    ensures
        after_add_arc_task(tasks, task).len() == tasks.len() + 1,
        after_add_arc_task(tasks, task)[tasks.len() as int] == task,
        forall|i: int| 0 <= i < tasks.len() ==> #[trigger] after_add_arc_task(tasks, task)[i] == tasks[i],
{
}

/// Taking the front task out of a queue that holds some makes it one shorter,
/// the others moving up by one, in order.
pub proof fn lemma_peek_task_shape<F>(tasks: Seq<UserTask<F>>)
    requires
        tasks.len() > 0,
    ensures
        after_peek_task(tasks).len() == tasks.len() - 1,
        forall|i: int| 0 <= i < tasks.len() - 1 ==> #[trigger] after_peek_task(tasks)[i] == tasks[i + 1],
{
}

/// Hands the user task queue over to the kernel; nothing is handed over yet.
pub fn diliver_to_kernel() {
}

/// Looks at the scheduling hints the kernel left for the program; there are none yet.
pub fn check_kernel_clue() {
}

} // verus!
