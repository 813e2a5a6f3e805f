//! Kernel threads as the user library sees them: thread identifiers and a
//! scheduler of them.

pub mod scheduler;

use vstd::prelude::*;

verus! {

/// A thread identifier.
pub type Tid = usize;

} // verus!
