//! User-side runtime of a small teaching kernel: task identifiers, the reactor that
//! records which tasks are waiting or ready, the user task queue, the executor's
//! per-task step, two FIFO schedulers and the system-call requests a program issues.

pub mod runtime;
pub mod syscall;
pub mod scheduler;
pub mod task;
pub mod thread;

use vstd::prelude::*;
use crate::syscall::Syscall;

verus! {

/// The request to read from file descriptor `fd` into `buf`: as many bytes as
/// `buf` holds at most. The kernel fills the buffer; this leaves it as it is.
pub fn read(fd: usize, buf: &mut [u8]) -> (call: Syscall)
    ensures
        call == (Syscall::Read { fd: fd, len: old(buf)@.len() as usize }),
        final(buf)@ == old(buf)@,
{
    Syscall::Read { fd: fd, len: buf.len() }
}

/// The request to write the bytes of `buf` to file descriptor `fd`.
pub fn write(fd: usize, buf: &[u8]) -> (call: Syscall)
    ensures
        match call {
            Syscall::Write { fd: f, data } => f == fd && data@ == buf@,
            _ => false,
        },
{
    Syscall::Write { fd: fd, data: vstd::slice::slice_to_vec(buf) }
}

/// The request to end the program with `exit_code`.
pub fn exit(exit_code: i32) -> (call: Syscall)
    ensures
        call == (Syscall::Exit { exit_code: exit_code }),
{
    Syscall::Exit { exit_code: exit_code }
}

} // verus!
