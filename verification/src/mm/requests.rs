//! Requests to map and unmap ranges of bytes: which of them are granted,
//! and what they do to an address space.

use vstd::prelude::*;
use crate::config::PAGE_SIZE;
use super::address::{page_ceil, page_floor};
use super::memory_set::{map_range, range_mapped, range_unmapped, unmap_range};
use super::permission::MapPermission;

verus! {

/// The first page of a request for the bytes from address `start` on.
pub open spec fn first_page(start: usize) -> usize {
    page_floor(start as int) as usize
}

/// The page after the last one of a request for `len` bytes from address
/// `start` on: the range of bytes is rounded up to whole pages.
pub open spec fn end_page(start: usize, len: usize) -> usize {
    page_ceil(start + len) as usize
}

/// Whether page `vpn` lies in the range of a request for `len` bytes from
/// address `start` on.
pub open spec fn in_request(vpn: usize, start: usize, len: usize) -> bool {
    first_page(start) <= vpn < end_page(start, len)
}

/// Whether a request names a range of pages at all: it starts at the first
/// byte of a page, and the address at which it ends fits the address width.
pub open spec fn range_ok(start: usize, len: usize) -> bool {
    start % PAGE_SIZE == 0 && start + len <= usize::MAX
}

/// Whether the request to map `len` bytes from address `start` on, with the
/// permissions that `port` asks for, is granted in the address space `m`:
/// the range is one of pages, the permissions can be granted, and none of
/// the pages is mapped yet.
pub open spec fn mmap_granted(
    m: Map<usize, MapPermission>,
    start: usize,
    len: usize,
    port: usize,
) -> bool {
    &&& range_ok(start, len)
    &&& MapPermission::port_ok(port)
    &&& range_unmapped(m, first_page(start), end_page(start, len))
}

/// The address space `m` after the request to map `len` bytes from address
/// `start` on with the permissions that `port` asks for: with the pages
/// added where the request is granted, and as before where it is not.
pub open spec fn mmap_result(
    m: Map<usize, MapPermission>,
    start: usize,
    len: usize,
    port: usize,
) -> Map<usize, MapPermission> {
    if mmap_granted(m, start, len, port) {
        map_range(m, first_page(start), end_page(start, len), MapPermission::of_port(port))
    } else {
        m
    }
}

/// Whether the request to unmap `len` bytes from address `start` on is
/// granted in the address space `m`: the range is one of pages, and every
/// one of the pages is mapped.
pub open spec fn munmap_granted(m: Map<usize, MapPermission>, start: usize, len: usize) -> bool {
    &&& range_ok(start, len)
    &&& range_mapped(m, first_page(start), end_page(start, len))
}

/// The address space `m` after the request to unmap `len` bytes from
/// address `start` on: without the pages where the request is granted, and
/// as before where it is not.
pub open spec fn munmap_result(m: Map<usize, MapPermission>, start: usize, len: usize) -> Map<
    usize,
    MapPermission,
> {
    if munmap_granted(m, start, len) {
        unmap_range(m, first_page(start), end_page(start, len))
    } else {
        m
    }
}

/// A request to map that does not start at the first byte of a page is not
/// granted, and leaves the address space as it is.
pub proof fn lemma_mmap_unaligned(
    m: Map<usize, MapPermission>,
    start: usize,
    len: usize,
    port: usize,
)
    requires
        start % PAGE_SIZE != 0,
    ensures
        !mmap_granted(m, start, len, port),
        mmap_result(m, start, len, port) == m,
{
}

/// A request to map without any of the three permissions, or with a bit
/// beyond them, is not granted, and leaves the address space as it is.
pub proof fn lemma_mmap_bad_port(
    m: Map<usize, MapPermission>,
    start: usize,
    len: usize,
    port: usize,
)
    requires
        port & 0x7 == 0 || port & !0x7usize != 0,
    ensures
        !mmap_granted(m, start, len, port),
        mmap_result(m, start, len, port) == m,
{
}

/// A granted request to map makes every page of its range mapped with the
/// permissions asked for, user access among them, and leaves every other
/// page as it was.
pub proof fn lemma_mmap_maps(
    m: Map<usize, MapPermission>,
    start: usize,
    len: usize,
    port: usize,
    vpn: usize,
)
    requires
        mmap_granted(m, start, len, port),
    ensures
        in_request(vpn, start, len) ==> {
            let after = mmap_result(m, start, len, port);
            &&& after.contains_key(vpn)
            &&& after[vpn].user
            &&& after[vpn].read == (port & 0x1 != 0)
            &&& after[vpn].write == (port & 0x2 != 0)
            &&& after[vpn].execute == (port & 0x4 != 0)
        },
        !in_request(vpn, start, len) ==> {
            let after = mmap_result(m, start, len, port);
            &&& after.contains_key(vpn) == m.contains_key(vpn)
            &&& m.contains_key(vpn) ==> after[vpn] == m[vpn]
        },
{
}

/// After a granted request to map, a second request whose range shares a
/// page with the range of the first is not granted, and leaves the first
/// mapping as it is.
pub proof fn lemma_mmap_overlapping(
    m: Map<usize, MapPermission>,
    start1: usize,
    len1: usize,
    port1: usize,
    start2: usize,
    len2: usize,
    port2: usize,
)
    requires
        mmap_granted(m, start1, len1, port1),
        exists|vpn: usize| #[trigger] in_request(vpn, start1, len1) && in_request(vpn, start2, len2),
    ensures
        !mmap_granted(mmap_result(m, start1, len1, port1), start2, len2, port2),
        mmap_result(mmap_result(m, start1, len1, port1), start2, len2, port2) == mmap_result(
            m,
            start1,
            len1,
            port1,
        ),
{
    let shared = choose|vpn: usize|
        #[trigger] in_request(vpn, start1, len1) && in_request(vpn, start2, len2);
    assert(mmap_result(m, start1, len1, port1).contains_key(shared));
}

/// A request to unmap a range in which some page is not mapped is not
/// granted, and unmaps no page.
pub proof fn lemma_munmap_hole(m: Map<usize, MapPermission>, start: usize, len: usize)
    requires
        exists|vpn: usize| in_request(vpn, start, len) && !m.contains_key(vpn),
    ensures
        !munmap_granted(m, start, len),
        munmap_result(m, start, len) == m,
{
}

/// A request to unmap that does not start at the first byte of a page is
/// not granted, and unmaps no page.
pub proof fn lemma_munmap_unaligned(m: Map<usize, MapPermission>, start: usize, len: usize)
    requires
        start % PAGE_SIZE != 0,
    ensures
        !munmap_granted(m, start, len),
        munmap_result(m, start, len) == m,
{
}

/// A granted request to unmap leaves no page of its range mapped, and every
/// other page as it was.
pub proof fn lemma_munmap_unmaps(m: Map<usize, MapPermission>, start: usize, len: usize, vpn: usize)
    requires
        munmap_granted(m, start, len),
    ensures
        in_request(vpn, start, len) ==> !munmap_result(m, start, len).contains_key(vpn),
        !in_request(vpn, start, len) ==> {
            let after = munmap_result(m, start, len);
            &&& after.contains_key(vpn) == m.contains_key(vpn)
            &&& m.contains_key(vpn) ==> after[vpn] == m[vpn]
        },
{
}

/// After a granted request to map, the request to unmap the same range is
/// granted, leaves no page of the range mapped, and gives back the address
/// space from before the two.
pub proof fn lemma_mmap_then_munmap(
    m: Map<usize, MapPermission>,
    start: usize,
    len: usize,
    port: usize,
)
    requires
        mmap_granted(m, start, len, port),
    ensures
        munmap_granted(mmap_result(m, start, len, port), start, len),
        range_unmapped(
            munmap_result(mmap_result(m, start, len, port), start, len),
            first_page(start),
            end_page(start, len),
        ),
        munmap_result(mmap_result(m, start, len, port), start, len) == m,
{
    let mapped = mmap_result(m, start, len, port);
    let first = first_page(start);
    let end = end_page(start, len);
    assert forall|vpn: usize| first <= vpn < end implies mapped.contains_key(vpn) by {}
    assert(munmap_result(mapped, start, len) =~= m);
}

} // verus!
