//! The address space of one task: which virtual pages are mapped, and with
//! what permission.

use vstd::prelude::*;
use super::address::VirtPageNum;
use super::permission::{MapPermission, PageTableEntry};

verus! {

/// The mapping `m`, with the pages `start..end` added, all with `perm`.
pub open spec fn map_range(
    m: Map<usize, MapPermission>,
    start: usize,
    end: usize,
    perm: MapPermission,
) -> Map<usize, MapPermission> {
    Map::new(
        |vpn: usize| m.contains_key(vpn) || start <= vpn < end,
        |vpn: usize|
            if start <= vpn < end {
                perm
            } else {
                m[vpn]
            },
    )
}

/// The mapping `m`, without the pages `start..end`.
pub open spec fn unmap_range(m: Map<usize, MapPermission>, start: usize, end: usize) -> Map<
    usize,
    MapPermission,
> {
    Map::new(|vpn: usize| m.contains_key(vpn) && !(start <= vpn < end), |vpn: usize| m[vpn])
}

/// Whether none of the pages `start..end` is mapped in `m`.
pub open spec fn range_unmapped(m: Map<usize, MapPermission>, start: usize, end: usize) -> bool {
    forall|vpn: usize| start <= vpn < end ==> !m.contains_key(vpn)
}

/// Whether every one of the pages `start..end` is mapped in `m`.
pub open spec fn range_mapped(m: Map<usize, MapPermission>, start: usize, end: usize) -> bool {
    forall|vpn: usize| start <= vpn < end ==> m.contains_key(vpn)
}

/// A run of consecutive pages, `start..end`, mapped with one permission.
#[derive(Clone, Copy)]
struct MapArea {
    start: usize,
    end: usize,
    perm: MapPermission,
}

impl MapArea {
    spec fn covers(self, vpn: usize) -> bool {
        self.start <= vpn < self.end
    }

    spec fn apart(self, other: MapArea) -> bool {
        self.end <= other.start || other.end <= self.start
    }
}

/// The address space of one task. Its view is the map from the number of
/// each mapped page to the permission of that page.
pub struct MemorySet {
    token: usize,
    areas: Vec<MapArea>,
}

impl View for MemorySet {
    type V = Map<usize, MapPermission>;

    closed spec fn view(&self) -> Map<usize, MapPermission> {
        Map::new(
            |vpn: usize| exists|i: int| self.covered(vpn, i),
            |vpn: usize| self.areas@[choose|i: int| self.covered(vpn, i)].perm,
        )
    }
}

impl MemorySet {
    /// Whether area `i` exists and holds page `vpn`.
    spec fn covered(&self, vpn: usize, i: int) -> bool {
        0 <= i < self.areas@.len() && self.areas@[i].covers(vpn)
    }

    /// No area is empty, and no page lies in two areas.
    pub closed spec fn wf(&self) -> bool {
        &&& forall|i: int|
            0 <= i < self.areas@.len() ==> (#[trigger] self.areas@[i]).start < self.areas@[i].end
        &&& forall|i: int, j: int|
            0 <= i < j < self.areas@.len() ==> (#[trigger] self.areas@[i]).apart(
                #[trigger] self.areas@[j],
            )
    }

    /// The word that names this address space to the hardware.
    pub closed spec fn spec_token(&self) -> usize {
        self.token
    }

    /// A page that lies in area `i` is mapped with the permission of that
    /// area.
    proof fn lemma_covered(&self, vpn: usize, i: int)
        requires
            self.wf(),
            self.covered(vpn, i),
        ensures
            self@.contains_key(vpn),
            self@[vpn] == self.areas@[i].perm,
    {
        let c = choose|c: int| self.covered(vpn, c);
        assert(self.covered(vpn, c));
        if c < i {
            assert(self.areas@[c].apart(self.areas@[i]));
        } else if i < c {
            assert(self.areas@[i].apart(self.areas@[c]));
        }
    }

    /// An address space named `token` in which no page is mapped.
    pub fn new_bare(token: usize) -> (ms: MemorySet)
        ensures
            ms.wf(),
            ms@ == Map::<usize, MapPermission>::empty(),
            ms.spec_token() == token,
    {
        let ms = MemorySet { token, areas: Vec::new() };
        assert(ms@ =~= Map::<usize, MapPermission>::empty());
        ms
    }

    /// The word that names this address space to the hardware.
    #[verifier::when_used_as_spec(spec_token)]
    pub fn token(&self) -> (token: usize)
        ensures
            token == self.spec_token(),
    {
        self.token
    }

    /// The index of the area that holds page `vpn`, if the page is mapped.
    fn find_area(&self, vpn: usize) -> (found: Option<usize>)
        requires
            self.wf(),
        ensures
            match found {
                Some(i) => self.covered(vpn, i as int),
                None => forall|i: int| !self.covered(vpn, i),
            },
    {
        let mut i: usize = 0;
        while i < self.areas.len()
            invariant
                i <= self.areas@.len(),
                forall|j: int| 0 <= j < i ==> !self.covered(vpn, j),
            decreases self.areas@.len() - i,
        {
            if self.areas[i].start <= vpn && vpn < self.areas[i].end {
                return Some(i);
            }
            i += 1;
        }
        None
    }

    /// The entry of page `vpn`: a valid entry with the page's permission
    /// where the page is mapped, and none where it is not.
    pub fn translate(&self, vpn: VirtPageNum) -> (pte: Option<PageTableEntry>)
        requires
            self.wf(),
        ensures
            match pte {
                Some(entry) => self@.contains_key(vpn.0) && entry == PageTableEntry::framed(
                    self@[vpn.0],
                ),
                None => !self@.contains_key(vpn.0),
            },
    {
        match self.find_area(vpn.0) {
            Some(i) => {
                proof {
                    self.lemma_covered(vpn.0, i as int);
                }
                Some(PageTableEntry::new(self.areas[i].perm))
            },
            None => None,
        }
    }

    /// Maps the pages `start..end`, none of which is mapped yet, with
    /// `permission`.
    pub fn insert_framed_area(
        &mut self,
        start: VirtPageNum,
        end: VirtPageNum,
        permission: MapPermission,
    )
        requires
            old(self).wf(),
            start.0 <= end.0,
            range_unmapped(old(self)@, start.0, end.0),
        ensures
            final(self).wf(),
            final(self)@ == map_range(old(self)@, start.0, end.0, permission),
            final(self).spec_token() == old(self).spec_token(),
    {
        if start.0 < end.0 {
            let area = MapArea { start: start.0, end: end.0, perm: permission };
            let ghost n = self.areas@.len() as int;
            proof {
                assert forall|i: int| 0 <= i < n implies (#[trigger] self.areas@[i]).apart(
                    area,
                ) by {
                    let other = self.areas@[i];
                    if !other.apart(area) {
                        let vpn = if other.start <= area.start {
                            area.start
                        } else {
                            other.start
                        };
                        assert(self.covered(vpn, i));
                        self.lemma_covered(vpn, i);
                    }
                }
            }
            self.areas.push(area);
            proof {
                assert(self.wf());
                assert forall|vpn: usize|
                    self@.contains_key(vpn) <==> (#[trigger] map_range(
                        old(self)@,
                        start.0,
                        end.0,
                        permission,
                    ).contains_key(vpn)) by {
                    if self@.contains_key(vpn) {
                        let i = choose|i: int| self.covered(vpn, i);
                        if i < n {
                            assert(old(self).covered(vpn, i));
                        }
                    }
                    if old(self)@.contains_key(vpn) {
                        let i = choose|i: int| old(self).covered(vpn, i);
                        assert(self.covered(vpn, i));
                    }
                    if start.0 <= vpn < end.0 {
                        assert(self.covered(vpn, n));
                    }
                }
                assert forall|vpn: usize| #[trigger] self@.contains_key(vpn) implies self@[vpn]
                    == map_range(old(self)@, start.0, end.0, permission)[vpn] by {
                    if start.0 <= vpn < end.0 {
                        assert(self.covered(vpn, n));
                        self.lemma_covered(vpn, n);
                    } else {
                        let i = choose|i: int| self.covered(vpn, i);
                        assert(old(self).covered(vpn, i));
                        old(self).lemma_covered(vpn, i);
                        self.lemma_covered(vpn, i);
                    }
                }
                assert(self@ =~= map_range(old(self)@, start.0, end.0, permission));
            }
        } else {
            assert(self@ =~= map_range(old(self)@, start.0, end.0, permission));
        }
    }

    /// Unmaps page `vpn`. A page that is not mapped stays so, and every
    /// other page keeps its mapping.
    pub fn munmap(&mut self, vpn: VirtPageNum)
        requires
            old(self).wf(),
        ensures
            final(self).wf(),
            final(self)@ == old(self)@.remove(vpn.0),
            final(self).spec_token() == old(self).spec_token(),
    {
        let page: usize = vpn.0;
        match self.find_area(page) {
            None => {
                assert(self@ =~= old(self)@.remove(page));
            },
            Some(k) => {
                let area = self.areas[k];
                let ghost n = self.areas@.len() as int;
                proof {
                    old(self).lemma_covered(page, k as int);
                }
                if area.start == page && area.end == page + 1 {
                    // The area is this one page: it goes.
                    self.areas.swap_remove(k);
                    proof {
                        Self::lemma_rearranged(*old(self), *self, page, k as int);
                    }
                } else if area.start == page {
                    self.areas.set(k, MapArea { start: page + 1, end: area.end, perm: area.perm });
                    proof {
                        Self::lemma_narrowed(*old(self), *self, page, k as int);
                    }
                } else if area.end == page + 1 {
                    self.areas.set(k, MapArea { start: area.start, end: page, perm: area.perm });
                    proof {
                        Self::lemma_narrowed(*old(self), *self, page, k as int);
                    }
                } else {
                    // The page lies inside the area: what is left of it are
                    // the pages below and the pages above.
                    self.areas.set(k, MapArea { start: area.start, end: page, perm: area.perm });
                    self.areas.push(MapArea { start: page + 1, end: area.end, perm: area.perm });
                    proof {
                        Self::lemma_split(*old(self), *self, page, k as int);
                    }
                }
            },
        }
    }

    /// Taking the one-page area `k` out, with the last area moved into its
    /// place, unmaps that page and nothing else.
    proof fn lemma_rearranged(before: MemorySet, after: MemorySet, page: usize, k: int)
        requires
            before.wf(),
            0 <= k < before.areas@.len(),
            before.areas@[k].start == page,
            before.areas@[k].end == page + 1,
            after.areas@ == before.areas@.update(k, before.areas@.last()).drop_last(),
        ensures
            after.wf(),
            after@ == before@.remove(page),
    {
        let n = before.areas@.len() as int;
        let from = |i: int| if i == k { n - 1 } else { i };
        assert forall|i: int, j: int| 0 <= i < j < n - 1 implies (#[trigger] after.areas@[i]).apart(
            #[trigger] after.areas@[j],
        ) by {
            let a = from(i);
            let b = from(j);
            if a < b {
                assert(before.areas@[a].apart(before.areas@[b]));
            } else {
                assert(before.areas@[b].apart(before.areas@[a]));
            }
        }
        assert forall|i: int| 0 <= i < n - 1 implies (#[trigger] after.areas@[i]).start
            < after.areas@[i].end by {
            assert(before.areas@[from(i)].start < before.areas@[from(i)].end);
        }
        assert forall|vpn: usize|
            after@.contains_key(vpn) <==> (#[trigger] before@.remove(page).contains_key(vpn)) by {
            if after@.contains_key(vpn) {
                let i = choose|i: int| after.covered(vpn, i);
                assert(before.covered(vpn, from(i)));
                if vpn == page {
                    before.lemma_covered(vpn, from(i));
                    if from(i) < k {
                        assert(before.areas@[from(i)].apart(before.areas@[k]));
                    } else {
                        assert(before.areas@[k].apart(before.areas@[from(i)]));
                    }
                }
            }
            if before@.contains_key(vpn) && vpn != page {
                let i = choose|i: int| before.covered(vpn, i);
                if i == n - 1 {
                    assert(after.covered(vpn, k));
                } else {
                    assert(after.covered(vpn, i));
                }
            }
        }
        assert forall|vpn: usize| #[trigger] after@.contains_key(vpn) implies after@[vpn]
            == before@.remove(page)[vpn] by {
            let i = choose|i: int| after.covered(vpn, i);
            after.lemma_covered(vpn, i);
            assert(before.covered(vpn, from(i)));
            before.lemma_covered(vpn, from(i));
        }
        assert(after@ =~= before@.remove(page));
    }

    /// Cutting `page` off one end of area `k` unmaps that page and nothing
    /// else.
    proof fn lemma_narrowed(before: MemorySet, after: MemorySet, page: usize, k: int)
        requires
            before.wf(),
            before.covered(page, k),
            before.areas@[k].start + 1 < before.areas@[k].end,
            before.areas@[k].start == page || before.areas@[k].end == page + 1,
            after.areas@ == before.areas@.update(
                k,
                MapArea {
                    start: if before.areas@[k].start == page {
                        (page + 1) as usize
                    } else {
                        before.areas@[k].start
                    },
                    end: if before.areas@[k].start == page {
                        before.areas@[k].end
                    } else {
                        page
                    },
                    perm: before.areas@[k].perm,
                },
            ),
        ensures
            after.wf(),
            after@ == before@.remove(page),
    {
        let n = before.areas@.len() as int;
        assert forall|i: int, j: int| 0 <= i < j < n implies (#[trigger] after.areas@[i]).apart(
            #[trigger] after.areas@[j],
        ) by {
            assert(before.areas@[i].apart(before.areas@[j]));
        }
        assert forall|vpn: usize|
            after@.contains_key(vpn) <==> (#[trigger] before@.remove(page).contains_key(vpn)) by {
            if after@.contains_key(vpn) {
                let i = choose|i: int| after.covered(vpn, i);
                assert(before.covered(vpn, i));
                if vpn == page {
                    if i < k {
                        assert(before.areas@[i].apart(before.areas@[k]));
                    } else if k < i {
                        assert(before.areas@[k].apart(before.areas@[i]));
                    }
                }
            }
            if before@.contains_key(vpn) && vpn != page {
                let i = choose|i: int| before.covered(vpn, i);
                assert(after.covered(vpn, i));
            }
        }
        assert forall|vpn: usize| #[trigger] after@.contains_key(vpn) implies after@[vpn]
            == before@.remove(page)[vpn] by {
            let i = choose|i: int| after.covered(vpn, i);
            after.lemma_covered(vpn, i);
            assert(before.covered(vpn, i));
            before.lemma_covered(vpn, i);
        }
        assert(after@ =~= before@.remove(page));
    }

    /// Replacing area `k` by the pages below `page` and, at the end of the
    /// list, the pages above it unmaps that page and nothing else.
    proof fn lemma_split(before: MemorySet, after: MemorySet, page: usize, k: int)
        requires
            before.wf(),
            before.covered(page, k),
            before.areas@[k].start < page,
            page + 1 < before.areas@[k].end,
            after.areas@ == before.areas@.update(
                k,
                MapArea { start: before.areas@[k].start, end: page, perm: before.areas@[k].perm },
            ).push(
                MapArea {
                    start: (page + 1) as usize,
                    end: before.areas@[k].end,
                    perm: before.areas@[k].perm,
                },
            ),
        ensures
            after.wf(),
            after@ == before@.remove(page),
    {
        let n = before.areas@.len() as int;
        let origin = |i: int| if i == n { k } else { i };
        assert forall|i: int, j: int| 0 <= i < j < n + 1 implies (#[trigger] after.areas@[i]).apart(
            #[trigger] after.areas@[j],
        ) by {
            let a = origin(i);
            let b = origin(j);
            if a < b {
                assert(before.areas@[a].apart(before.areas@[b]));
            } else if b < a {
                assert(before.areas@[b].apart(before.areas@[a]));
            }
        }
        assert forall|i: int| 0 <= i < n + 1 implies (#[trigger] after.areas@[i]).start
            < after.areas@[i].end by {
            assert(before.areas@[origin(i)].start < before.areas@[origin(i)].end);
        }
        assert forall|vpn: usize|
            after@.contains_key(vpn) <==> (#[trigger] before@.remove(page).contains_key(vpn)) by {
            if after@.contains_key(vpn) {
                let i = choose|i: int| after.covered(vpn, i);
                assert(before.covered(vpn, origin(i)));
                if vpn == page {
                    if origin(i) < k {
                        assert(before.areas@[origin(i)].apart(before.areas@[k]));
                    } else if k < origin(i) {
                        assert(before.areas@[k].apart(before.areas@[origin(i)]));
                    }
                }
            }
            if before@.contains_key(vpn) && vpn != page {
                let i = choose|i: int| before.covered(vpn, i);
                if i == k && vpn > page {
                    assert(after.covered(vpn, n));
                } else {
                    assert(after.covered(vpn, i));
                }
            }
        }
        assert forall|vpn: usize| #[trigger] after@.contains_key(vpn) implies after@[vpn]
            == before@.remove(page)[vpn] by {
            let i = choose|i: int| after.covered(vpn, i);
            after.lemma_covered(vpn, i);
            assert(before.covered(vpn, origin(i)));
            before.lemma_covered(vpn, origin(i));
        }
        assert(after@ =~= before@.remove(page));
    }
}

} // verus!
