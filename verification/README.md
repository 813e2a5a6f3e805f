# user_lib

The user-side runtime of a small teaching kernel, written in Verus.

- `src/runtime.rs`: task identifiers and their counter, the reactor (which task
  waits, was woken, or finished), user tasks, and the user task queue.
- `src/task.rs`: what the executor does with one task taken from the queue, and
  draining the whole queue that way.
- `src/scheduler.rs`: the task scheduler interface and its first-in first-out
  implementation.
- `src/thread/`: thread identifiers, the thread scheduler interface and its
  first-in first-out implementation.
- `src/syscall.rs` and `src/lib.rs`: the system-call requests a program makes.
- `app/lib.rs`: what is not verified: the shared queue and reactor behind spin
  locks, the executor loops that poll the futures, waker glue, the demo
  workloads, and carrying out system calls on the host.

Thread start-up (`init`), adding a thread to the thread pool
(`add_to_thread_pool`) and the thread demo (`thread`) are not here: they only
wire up the processor, thread pool and thread types, whose sources are not part
of this project.
