//! Task scheduling and per-task address-space bookkeeping for a single-CPU
//! kernel that runs a fixed set of statically loaded programs.

pub mod config;
pub mod mm;
pub mod task;
pub mod trap;
