//! Machine and kernel constants.
use vstd::prelude::*;

verus! {

/// Bytes in one page.
pub const PAGE_SIZE: usize = 4096;

/// Number of distinct syscall ids tracked per task.
pub const MAX_SYSCALL_NUM: usize = 500;

/// Upper bound on the number of frames a backtrace walks.
pub const MAX_UNWIND_STEPS: usize = 64;

/// Bytes in one machine word.
pub const WORD_SIZE: usize = 8;

} // verus!
