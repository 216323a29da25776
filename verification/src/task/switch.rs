//! What the scheduler asks of the context switch.

use vstd::prelude::*;

verus! {

/// One transfer of the CPU between two saved contexts, named by the ids of
/// the tasks that own them. The caller carries it out: it saves the running
/// context into the first record and resumes the second.
#[derive(Clone, Copy, Debug, PartialEq, Eq)]
pub struct Switch {
    /// The task whose context record takes the running context; `None` for
    /// the very first transfer, which saves into a record that is never
    /// resumed.
    pub save_into: Option<usize>,
    /// The task whose context record is resumed.
    pub load_from: usize,
}

} // verus!
