//! Sizes that the rest of the kernel core is built on.

use vstd::prelude::*;

verus! {

/// Bytes in one page.
pub const PAGE_SIZE: usize = 4096;

/// Number of distinct system call identifiers that are counted per task.
pub const MAX_SYSCALL_NUM: usize = 500;

} // verus!
