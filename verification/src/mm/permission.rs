//! Page permissions and the page table entries that carry them.

use vstd::prelude::*;

verus! {

/// Bit of a permission word that grants read access.
pub const PERM_R: u8 = 0x02;

/// Bit of a permission word that grants write access.
pub const PERM_W: u8 = 0x04;

/// Bit of a permission word that grants instruction fetch.
pub const PERM_X: u8 = 0x08;

/// Bit of a permission word that opens a page to user mode.
pub const PERM_U: u8 = 0x10;

/// All permission bits together.
pub const PERM_ALL: u8 = 0x1e;

/// The permissions of a mapped page: any of read, write, execute and
/// user-accessible.
#[derive(Clone, Copy, Debug, PartialEq, Eq, Structural)]
pub struct MapPermission {
    /// The page may be read.
    pub read: bool,
    /// The page may be written.
    pub write: bool,
    /// Instructions may be fetched from the page.
    pub execute: bool,
    /// User mode may access the page.
    pub user: bool,
}

impl MapPermission {
    /// The permission word of `self`: one bit for each access granted.
    pub open spec fn spec_bits(&self) -> u8 {
        (if self.read { PERM_R } else { 0u8 }) | (if self.write { PERM_W } else { 0u8 }) | (
        if self.execute { PERM_X } else { 0u8 }) | (if self.user { PERM_U } else { 0u8 })
    }

    /// The permission that the word `bits` stands for.
    pub open spec fn of_bits(bits: u8) -> MapPermission {
        MapPermission {
            read: bits & PERM_R != 0,
            write: bits & PERM_W != 0,
            execute: bits & PERM_X != 0,
            user: bits & PERM_U != 0,
        }
    }

    /// What either of the two permissions grants.
    pub open spec fn spec_union(self, other: MapPermission) -> MapPermission {
        MapPermission {
            read: self.read || other.read,
            write: self.write || other.write,
            execute: self.execute || other.execute,
            user: self.user || other.user,
        }
    }

    /// Whether the request word `port` can be granted: no bit outside the
    /// low three, and at least one of those three.
    pub open spec fn port_ok(port: usize) -> bool {
        port & !0x7usize == 0 && port & 0x7 != 0
    }

    /// The permission that a request word `port` asks for: bit 0 asks for
    /// read, bit 1 for write, bit 2 for execute, and user access comes with
    /// every request.
    pub open spec fn of_port(port: usize) -> MapPermission {
        MapPermission {
            read: port & 0x1 != 0,
            write: port & 0x2 != 0,
            execute: port & 0x4 != 0,
            user: true,
        }
    }

    /// The requests that can be granted are the words from 1 to 7. Such a
    /// word asks for read access if it is odd, for write access if its
    /// second bit is set, and for execute access if it is 4 or more.
    pub proof fn lemma_port(port: usize)
        ensures
            Self::port_ok(port) <==> 1 <= port <= 7,
            Self::port_ok(port) ==> {
                &&& Self::of_port(port).read == (port % 2 == 1)
                &&& Self::of_port(port).write == ((port / 2) % 2 == 1)
                &&& Self::of_port(port).execute == (port >= 4)
                &&& Self::of_port(port).user
            },
    {
        assert((port & !0x7usize == 0 && port & 0x7 != 0) <==> 1 <= port <= 7) by (bit_vector);
        assert(1 <= port <= 7 ==> (port & 0x1 != 0 <==> port % 2 == 1) && (port & 0x2 != 0 <==> (
        port / 2) % 2 == 1) && (port & 0x4 != 0 <==> port >= 4)) by (bit_vector);
    }

    /// No access at all.
    pub fn empty() -> (p: MapPermission)
        ensures
            p == (MapPermission { read: false, write: false, execute: false, user: false }),
    {
        MapPermission { read: false, write: false, execute: false, user: false }
    }

    /// Read access.
    #[allow(non_snake_case)]
    pub fn R() -> (p: MapPermission)
        ensures
            p == (MapPermission { read: true, write: false, execute: false, user: false }),
    {
        MapPermission { read: true, write: false, execute: false, user: false }
    }

    /// Write access.
    #[allow(non_snake_case)]
    pub fn W() -> (p: MapPermission)
        ensures
            p == (MapPermission { read: false, write: true, execute: false, user: false }),
    {
        MapPermission { read: false, write: true, execute: false, user: false }
    }

    /// Instruction fetch.
    #[allow(non_snake_case)]
    pub fn X() -> (p: MapPermission)
        ensures
            p == (MapPermission { read: false, write: false, execute: true, user: false }),
    {
        MapPermission { read: false, write: false, execute: true, user: false }
    }

    /// Access from user mode.
    #[allow(non_snake_case)]
    pub fn U() -> (p: MapPermission)
        ensures
            p == (MapPermission { read: false, write: false, execute: false, user: true }),
    {
        MapPermission { read: false, write: false, execute: false, user: true }
    }

    /// The permission word of `self`.
    #[verifier::when_used_as_spec(spec_bits)]
    pub fn bits(&self) -> (bits: u8)
        ensures
            bits == self.spec_bits(),
            bits & !PERM_ALL == 0,
            Self::of_bits(bits) == *self,
    {
        let r: u8 = if self.read { PERM_R } else { 0 };
        let w: u8 = if self.write { PERM_W } else { 0 };
        let x: u8 = if self.execute { PERM_X } else { 0 };
        let u: u8 = if self.user { PERM_U } else { 0 };
        let bits: u8 = r | w | x | u;
        assert(bits & !0x1eu8 == 0 && (bits & 0x02 != 0 <==> r != 0) && (bits & 0x04 != 0 <==> w
            != 0) && (bits & 0x08 != 0 <==> x != 0) && (bits & 0x10 != 0 <==> u != 0))
            by (bit_vector)
            requires
                bits == r | w | x | u,
                r == 0x02 || r == 0,
                w == 0x04 || w == 0,
                x == 0x08 || x == 0,
                u == 0x10 || u == 0,
        ;
        bits
    }

    /// The permission that the word `bits` stands for, if every bit of it is
    /// a permission bit.
    pub fn from_bits(bits: u8) -> (p: Option<MapPermission>)
        ensures
            p is Some <==> bits & !PERM_ALL == 0,
            p is Some ==> p->0 == Self::of_bits(bits),
    {
        if bits & !PERM_ALL == 0 {
            Some(
                MapPermission {
                    read: bits & PERM_R != 0,
                    write: bits & PERM_W != 0,
                    execute: bits & PERM_X != 0,
                    user: bits & PERM_U != 0,
                },
            )
        } else {
            None
        }
    }

    /// What either of the two permissions grants.
    #[verifier::when_used_as_spec(spec_union)]
    pub fn union(self, other: MapPermission) -> (p: MapPermission)
        ensures
            p == self.spec_union(other),
    {
        MapPermission {
            read: self.read || other.read,
            write: self.write || other.write,
            execute: self.execute || other.execute,
            user: self.user || other.user,
        }
    }

    /// The permission that the request word `port` asks for, if the request
    /// can be granted.
    pub fn from_port(port: usize) -> (p: Option<MapPermission>)
        ensures
            p is Some <==> Self::port_ok(port),
            p is Some ==> p->0 == Self::of_port(port),
    {
        if port & !0x7 != 0 || port & 0x7 == 0 {
            return None;
        }
        let low: u8 = (port & 0x7) as u8;
        let bits: u8 = low << 1;
        assert(bits & !0x1eu8 == 0 && (bits & 0x02 != 0 <==> port & 0x1 != 0) && (bits & 0x04 != 0
            <==> port & 0x2 != 0) && (bits & 0x08 != 0 <==> port & 0x4 != 0) && bits & 0x10 == 0)
            by (bit_vector)
            requires
                low == (port & 0x7) as u8,
                bits == low << 1u8,
        ;
        Some(Self::from_bits(bits).unwrap().union(Self::U()))
    }
}

/// What a lookup of a virtual page yields: whether the page is mapped, and
/// with what permission.
#[derive(Clone, Copy, Debug, PartialEq, Eq, Structural)]
pub struct PageTableEntry {
    /// Whether the entry maps a page.
    pub valid: bool,
    /// The permission of the page.
    pub permission: MapPermission,
}

impl PageTableEntry {
    /// The valid entry of a page mapped with `perm`.
    pub open spec fn framed(perm: MapPermission) -> PageTableEntry {
        PageTableEntry { valid: true, permission: perm }
    }

    /// Whether the entry maps a page.
    pub open spec fn spec_is_valid(&self) -> bool {
        self.valid
    }

    /// The entry that maps nothing.
    pub fn empty() -> (pte: PageTableEntry)
        ensures
            pte == (PageTableEntry {
                valid: false,
                permission: MapPermission {
                    read: false,
                    write: false,
                    execute: false,
                    user: false,
                },
            }),
    {
        PageTableEntry { valid: false, permission: MapPermission::empty() }
    }

    /// The valid entry of a page mapped with `perm`.
    pub fn new(perm: MapPermission) -> (pte: PageTableEntry)
        ensures
            pte == Self::framed(perm),
    {
        PageTableEntry { valid: true, permission: perm }
    }

    /// Whether the entry maps a page.
    #[verifier::when_used_as_spec(spec_is_valid)]
    pub fn is_valid(&self) -> (yes: bool)
        ensures
            yes == self.valid,
    {
        self.valid
    }

    /// Whether the entry grants read access.
    pub fn readable(&self) -> (yes: bool)
        ensures
            yes == self.permission.read,
    {
        self.permission.read
    }

    /// Whether the entry grants write access.
    pub fn writable(&self) -> (yes: bool)
        ensures
            yes == self.permission.write,
    {
        self.permission.write
    }

    /// Whether the entry grants instruction fetch.
    pub fn executable(&self) -> (yes: bool)
        ensures
            yes == self.permission.execute,
    {
        self.permission.execute
    }

    /// Whether the entry lets user mode access the page.
    pub fn user(&self) -> (yes: bool)
        ensures
            yes == self.permission.user,
    {
        self.permission.user
    }
}

} // verus!
