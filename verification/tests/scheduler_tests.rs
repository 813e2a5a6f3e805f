use user_lib::scheduler::{FifoScheduler, Scheduler};
use user_lib::thread::scheduler::{FifoScheduler as ThreadFifoScheduler, Scheduler as ThreadScheduler};

#[test]
fn fifo_pops_in_push_order() {
    let mut s = FifoScheduler::new();
    assert_eq!(s.pop(), None::<u32>);
    s.push(1u32);
    s.push(2);
    s.push(3);
    assert_eq!(s.front(), Some(&1));
    assert_eq!(s.pop(), Some(1));
    assert_eq!(s.pop(), Some(2));
    s.push(4);
    assert_eq!(s.pop(), Some(3));
    assert_eq!(s.pop(), Some(4));
    assert_eq!(s.pop(), None);
    assert_eq!(s.front(), None);
}

#[test]
fn fifo_front_mut_changes_front() {
    let mut s = FifoScheduler::new();
    assert!(s.front_mut().is_none());
    s.push(String::from("a"));
    s.push(String::from("b"));
    if let Some(t) = s.front_mut() {
        t.push('!');
    }
    assert_eq!(s.pop().as_deref(), Some("a!"));
    assert_eq!(s.front().map(|t| t.as_str()), Some("b"));
}

#[test]
fn thread_scheduler_runs_a_pushed_thread() {
    let mut s = ThreadFifoScheduler::new();
    assert_eq!(s.pop(), None);
    s.push(3);
    assert_eq!(s.pop(), Some(3));
    assert_eq!(s.pop(), None);
}

#[test]
fn thread_scheduler_first_in_first_out() {
    let mut s = ThreadFifoScheduler::new();
    s.push(10);
    s.push(0);
    s.push(1000);
    s.push(10); // already runnable: keeps its place
    assert_eq!(s.pop(), Some(10));
    s.push(10); // runs on: back of the queue
    assert_eq!(s.pop(), Some(0));
    assert_eq!(s.pop(), Some(1000));
    assert_eq!(s.pop(), Some(10));
    assert_eq!(s.pop(), None);
}

#[test]
fn thread_scheduler_tick_never_switches() {
    let mut s = ThreadFifoScheduler::new();
    assert!(!s.tick());
    s.push(2);
    assert_eq!(s.pop(), Some(2));
    assert!(!s.tick());
}

#[test]
fn thread_scheduler_exit_removes_thread() {
    let mut s = ThreadFifoScheduler::new();
    s.push(1);
    s.push(2);
    s.push(3);
    s.exit(2); // waiting: leaves the queue
    assert_eq!(s.pop(), Some(1));
    s.exit(1); // running: stops running
    s.exit(7); // unknown: nothing happens
    assert_eq!(s.pop(), Some(3));
    assert_eq!(s.pop(), None);
    s.push(2); // pushed anew: runnable again
    assert_eq!(s.pop(), Some(2));
}
