//! The requests a user program makes of the kernel.

use vstd::prelude::*;

verus! {

/// A system call, as the program hands it to the kernel. Carrying it out, and
/// the kernel's answer, belong to whoever runs the program.
#[derive(PartialEq, Eq, Debug)]
pub enum Syscall {
    /// Read up to `len` bytes from file descriptor `fd` into the caller's buffer.
    Read { fd: usize, len: usize },
    /// Write `data` to file descriptor `fd`.
    Write { fd: usize, data: Vec<u8> },
    /// End the program with `exit_code`.
    Exit { exit_code: i32 },
}

} // verus!
