//! Virtual addresses, page permissions and the per-task address space.

pub mod address;
pub mod memory_set;
pub mod permission;
pub mod requests;

pub use address::{VirtAddr, VirtPageNum};
pub use memory_set::MemorySet;
pub use permission::{MapPermission, PageTableEntry};
