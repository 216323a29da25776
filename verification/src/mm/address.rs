//! Virtual addresses and virtual page numbers.

use vstd::prelude::*;
use crate::config::PAGE_SIZE;

verus! {

/// A virtual address, in bytes.
#[derive(Clone, Copy, Debug, PartialEq, Eq, Structural)]
pub struct VirtAddr(pub usize);

/// The number of a virtual page: a virtual address divided by the page size.
#[derive(Clone, Copy, Debug, PartialEq, Eq, Structural)]
pub struct VirtPageNum(pub usize);

/// The page that holds byte `addr`.
pub open spec fn page_floor(addr: int) -> int {
    addr / (PAGE_SIZE as int)
}

/// The first page that starts at or after byte `addr`.
pub open spec fn page_ceil(addr: int) -> int {
    (addr + PAGE_SIZE - 1) / (PAGE_SIZE as int)
}

impl VirtAddr {
    /// The page that holds this address.
    pub fn floor(&self) -> (vpn: VirtPageNum)
        ensures
            vpn.0 == page_floor(self.0 as int),
    {
        VirtPageNum(self.0 / PAGE_SIZE)
    }

    /// The first page that starts at or after this address.
    pub fn ceil(&self) -> (vpn: VirtPageNum)
        ensures
            vpn.0 == page_ceil(self.0 as int),
    {
        if self.0 % PAGE_SIZE == 0 {
            VirtPageNum(self.0 / PAGE_SIZE)
        } else {
            VirtPageNum(self.0 / PAGE_SIZE + 1)
        }
    }
}

} // verus!
