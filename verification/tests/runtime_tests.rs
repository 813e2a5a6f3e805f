use std::sync::Arc;
use user_lib::runtime::{
    spawn_tasks, check_kernel_clue, diliver_to_kernel, Reactor, TaskId, TaskIdCounter, TaskState, UserTask,
    UserTaskQueue,
};
use user_lib::task::{drain, run_task};
use std::collections::VecDeque;

#[test]
fn generate_hands_out_increasing_ids() {
    let mut counter = TaskIdCounter::new();
    let a = TaskId::generate(&mut counter);
    let b = TaskId::generate(&mut counter);
    let c = TaskId::generate(&mut counter);
    assert_eq!(a, TaskId(0));
    assert_eq!(b, TaskId(1));
    assert_eq!(c, TaskId(2));
    assert_ne!(a, b);
    assert_eq!(counter.peek_id(), 3);
}

#[test]
fn spawn_takes_next_id_and_keeps_future() {
    let mut counter = TaskIdCounter::new();
    let t0 = UserTask::spawn("first", &mut counter);
    let t1 = UserTask::spawn("second", &mut counter);
    assert_eq!(t0.id, TaskId(0));
    assert_eq!(t1.id, TaskId(1));
    assert_eq!(t1.future, "second");
    let arc = Arc::new(t0);
    arc.do_wake();
}

#[test]
fn register_wake_finish_remove() {
    let mut r = Reactor::new();
    let id = TaskId(5);
    assert!(!r.contains_task(id));
    assert_eq!(r.get_task(id), None);
    r.register(id);
    assert!(r.contains_task(id));
    assert!(!r.is_ready(id));
    assert_eq!(r.get_task(id), Some(&TaskState::NotReady));
    r.wake(id);
    assert!(r.is_ready(id));
    assert!(!r.is_finish(id));
    r.finish_task(id);
    assert!(r.is_finish(id));
    assert!(!r.is_ready(id));
    assert_eq!(r.remove_task(id), Some(TaskState::Finish));
    assert!(!r.contains_task(id));
    assert_eq!(r.remove_task(id), None);
}

#[test]
fn add_task_returns_previous_state() {
    let mut r = Reactor::new();
    let id = TaskId(3);
    assert_eq!(r.add_task(id), None);
    r.wake(id);
    assert_eq!(r.add_task(id), Some(TaskState::Ready));
    assert_eq!(r.get_task(id), Some(&TaskState::NotReady));
}

#[test]
fn get_task_mut_writes_through() {
    let mut r = Reactor::new();
    let id = TaskId(9);
    assert!(r.get_task_mut(id).is_none());
    r.register(id);
    if let Some(s) = r.get_task_mut(id) {
        *s = TaskState::Finish;
    }
    assert!(r.is_finish(id));
}

#[test]
fn poll_unknown_task_completing() {
    let mut r = Reactor::new();
    let task = UserTask { id: TaskId(4), future: 1u32 };
    let (result, unused) = task.poll(&mut r, |_f: &u32| true);
    assert_eq!(result, Some(0));
    assert!(unused.is_none());
    assert!(!r.contains_task(TaskId(4)));
}

#[test]
fn poll_unknown_task_pending_registers_it() {
    let mut r = Reactor::new();
    let task = UserTask { id: TaskId(4), future: 1u32 };
    assert_eq!(task.poll(&mut r, |_f: &u32| false).0, None);
    assert_eq!(r.get_task(TaskId(4)), Some(&TaskState::NotReady));
    // known and not woken: pending again, the computation is not polled
    let (result, unused) = task.poll(&mut r, |_f: &u32| panic!("must not be polled"));
    assert_eq!(result, None);
    assert!(unused.is_some());
}

#[test]
fn poll_woken_task_returns_its_id() {
    let mut r = Reactor::new();
    let task = UserTask { id: TaskId(12), future: () };
    r.register(task.id);
    r.wake(task.id);
    let (result, unused) = task.poll(&mut r, |_f: &()| panic!("must not be polled"));
    assert_eq!(result, Some(12));
    assert!(unused.is_some());
    assert!(r.is_ready(task.id));
}

#[test]
fn poll_finished_task_waits_again() {
    let mut r = Reactor::new();
    let task = UserTask { id: TaskId(2), future: () };
    r.finish_task(task.id);
    assert_eq!(task.poll(&mut r, |_f: &()| true).0, None);
    assert_eq!(r.get_task(task.id), Some(&TaskState::NotReady));
}

#[test]
fn run_task_lifecycle() {
    let mut r = Reactor::new();
    let task = Arc::new(UserTask { id: TaskId(7), future: 0u8 });
    // first run, pending: registered
    assert_eq!(run_task(&mut r, &task, |_t: &Arc<UserTask<u8>>| false).0, Some(false));
    assert_eq!(r.get_task(task.id), Some(&TaskState::NotReady));
    // not woken: not polled, still waiting
    let (polled, unused) = run_task(&mut r, &task, |_t: &Arc<UserTask<u8>>| panic!("must not be polled"));
    assert_eq!(polled, None);
    assert!(unused.is_some());
    assert_eq!(r.get_task(task.id), Some(&TaskState::NotReady));
    // woken and still pending: waits again
    r.wake(task.id);
    assert_eq!(run_task(&mut r, &task, |_t: &Arc<UserTask<u8>>| false).0, Some(false));
    assert_eq!(r.get_task(task.id), Some(&TaskState::NotReady));
    // woken and completing: finished
    r.wake(task.id);
    assert_eq!(run_task(&mut r, &task, |_t: &Arc<UserTask<u8>>| true).0, Some(true));
    assert!(r.is_finish(task.id));
}

#[test]
fn run_task_unknown_completing_leaves_no_record() {
    let mut r = Reactor::new();
    let task = Arc::new(UserTask { id: TaskId(0), future: 0u8 });
    assert_eq!(run_task(&mut r, &task, |t: &Arc<UserTask<u8>>| t.future == 0).0, Some(true));
    assert!(!r.contains_task(task.id));
}

#[test]
fn queue_front_and_back() {
    let mut counter = TaskIdCounter::new();
    let mut q: UserTaskQueue<u8> = UserTaskQueue { queue: VecDeque::new() };
    assert!(q.is_empty());
    q.add_task(UserTask::spawn(0, &mut counter)); // id 0
    q.add_task(UserTask::spawn(1, &mut counter)); // id 1, now in front
    q.add_arc_task(Arc::new(UserTask::spawn(2, &mut counter))); // id 2, at back
    assert!(!q.is_empty());
    let ids: Vec<usize> = q.queue.iter().map(|t| t.id.0).collect();
    assert_eq!(ids, vec![1, 0, 2]);
    assert_eq!(q.peek_task().map(|t| t.id), Some(TaskId(1)));
    assert_eq!(q.peek_task().map(|t| t.id), Some(TaskId(0)));
    assert_eq!(q.peek_task().map(|t| t.future), Some(2));
    assert!(q.peek_task().is_none());
    assert!(q.is_empty());
}

#[test]
fn queue_add_then_peek_gives_it_back() {
    let mut q: UserTaskQueue<&str> = UserTaskQueue { queue: VecDeque::new() };
    q.add_arc_task(Arc::new(UserTask { id: TaskId(1), future: "old" }));
    q.add_task(UserTask { id: TaskId(2), future: "new" });
    let t = q.peek_task().unwrap();
    assert_eq!(t.id, TaskId(2));
    assert_eq!(q.queue.len(), 1);
    assert_eq!(q.queue[0].id, TaskId(1));
}

#[test]
fn delete_task_removes_frontmost_match() {
    let mut q: UserTaskQueue<u8> = UserTaskQueue { queue: VecDeque::new() };
    for (id, f) in [(1usize, 10u8), (2, 20), (1, 30), (3, 40)] {
        q.add_arc_task(Arc::new(UserTask { id: TaskId(id), future: f }));
    }
    q.delete_task(TaskId(1));
    let left: Vec<u8> = q.queue.iter().map(|t| t.future).collect();
    assert_eq!(left, vec![20, 30, 40]);
    q.delete_task(TaskId(3));
    let left: Vec<u8> = q.queue.iter().map(|t| t.future).collect();
    assert_eq!(left, vec![20, 30]);
}

#[test]
fn kernel_hooks_do_nothing() {
    diliver_to_kernel();
    check_kernel_clue();
}

#[test]
fn drain_runs_each_task_once_in_order() {
    let mut r = Reactor::new();
    let mut q: UserTaskQueue<u8> = UserTaskQueue { queue: VecDeque::new() };
    // task 1 is known and not woken: not polled; task 2 is unknown: polled;
    // task 3 was woken: polled and finished.
    r.register(TaskId(1));
    r.register(TaskId(3));
    r.wake(TaskId(3));
    for id in [1usize, 2, 3] {
        q.add_arc_task(Arc::new(UserTask { id: TaskId(id), future: id as u8 }));
    }
    let polled = std::cell::RefCell::new(Vec::new());
    let done = drain(&mut q, &mut r, &|t: &Arc<UserTask<u8>>| {
        polled.borrow_mut().push(t.id.0);
        t.id.0 == 3
    });
    assert!(q.is_empty());
    let order: Vec<(usize, Option<bool>)> = done.iter().map(|(t, p)| (t.id.0, *p)).collect();
    assert_eq!(order, vec![(1, None), (2, Some(false)), (3, Some(true))]);
    assert_eq!(*polled.borrow(), vec![2, 3]);
    assert_eq!(r.get_task(TaskId(1)), Some(&TaskState::NotReady));
    assert_eq!(r.get_task(TaskId(2)), Some(&TaskState::NotReady));
    assert!(r.is_finish(TaskId(3)));
}

#[test]
fn drain_empty_queue() {
    let mut r = Reactor::new();
    let mut q: UserTaskQueue<u8> = UserTaskQueue { queue: VecDeque::new() };
    let done = drain(&mut q, &mut r, &|_t: &Arc<UserTask<u8>>| true);
    assert!(done.is_empty());
    assert!(!r.contains_task(TaskId(0)));
}

#[test]
fn spawn_tasks_fills_front_last_first() {
    let mut counter = TaskIdCounter::new();
    let mut q: UserTaskQueue<(usize, usize)> = UserTaskQueue { queue: VecDeque::new() };
    q.add_task(UserTask { id: TaskId(99), future: (0, 0) });
    spawn_tasks(&mut q, &mut counter, 5, 8, &|i: usize, id: TaskId| (i, id.0));
    let seen: Vec<(usize, (usize, usize))> = q.queue.iter().map(|t| (t.id.0, t.future)).collect();
    assert_eq!(seen, vec![(2, (7, 2)), (1, (6, 1)), (0, (5, 0)), (99, (0, 0))]);
    assert_eq!(counter.peek_id(), 3);
    spawn_tasks(&mut q, &mut counter, 4, 4, &|i: usize, id: TaskId| (i, id.0));
    assert_eq!(q.queue.len(), 4);
}
