use crate::addr::HostPhysAddr;
use vstd::prelude::*;

verus! {

/// Whether the entry is valid.
pub const PTE_V: usize = 1;
/// Whether the page is readable.
pub const PTE_R: usize = 2;
/// Whether the page is writable.
pub const PTE_W: usize = 4;
/// Whether the page is executable.
pub const PTE_X: usize = 8;
/// Whether the page is accessible to user mode.
pub const PTE_U: usize = 16;
/// Designates a global mapping.
pub const PTE_G: usize = 32;
/// The page has been read, written or fetched since the bit was last cleared.
pub const PTE_A: usize = 64;
/// The page has been written since the bit was last cleared.
pub const PTE_D: usize = 128;

/// The eight flag bits an entry carries.
pub const PTE_FLAG_MASK: usize = 0xff;

/// Bits 10..54 of an entry: the physical page number, shifted.
pub const PTE_PHYS_ADDR_MASK: u64 = 0x003f_ffff_ffff_fc00;

/// Physical addresses an entry can hold lie below this bound (56 bits).
pub const PTE_ADDR_LIMIT: u64 = 0x0100_0000_0000_0000;

/// Page-table entry flags: V, R, W, X, U, G, A, D in bits 0 to 7. A value
/// is well formed when no other bit is set; mapping functions require it.
#[derive(Debug, Clone, Copy, PartialEq, Eq, Structural)]
pub struct PTEFlags(pub usize);

impl PTEFlags {
    /// No flag set.
    pub fn empty() -> (r: Self)
        ensures
            r.0 == 0,
    {
        PTEFlags(0)
    }

    /// The flags among `bits`, other bits dropped.
    pub fn from_bits_truncate(bits: usize) -> (r: Self)
        ensures
            r.0 == bits & 0xff,
    {
        PTEFlags(bits & PTE_FLAG_MASK)
    }

    pub fn bits(self) -> (r: usize)
        ensures
            r == self.0,
    {
        self.0
    }

    /// The flags set in either operand.
    pub fn union(self, other: Self) -> (r: Self)
        ensures
            r.0 == self.0 | other.0,
    {
        PTEFlags(self.0 | other.0)
    }

    /// Whether every flag of `other` is set in `self`.
    pub fn contains(self, other: Self) -> (r: bool)
        ensures
            r == (self.0 & other.0 == other.0),
    {
        self.0 & other.0 == other.0
    }
}

/// The entry word that maps `paddr` with `flags`.
pub open spec fn pte_bits(paddr: u64, flags: u64) -> u64 {
    (flags & 0xff) | ((paddr >> 2u64) & PTE_PHYS_ADDR_MASK)
}

/// The physical address an entry word holds.
pub open spec fn pte_paddr(e: u64) -> u64 {
    (e & PTE_PHYS_ADDR_MASK) << 2u64
}

/// The flag bits of an entry word.
pub open spec fn pte_flags(e: u64) -> u64 {
    e & 0xff
}

/// Whether the V bit of an entry word is set.
pub open spec fn pte_valid(e: u64) -> bool {
    e & 1 != 0
}

/// An entry built from a 4 KiB-aligned address below the limit gives back
/// that address and the low eight flag bits.
pub proof fn lemma_pte_round_trip(paddr: u64, flags: u64)
    requires
        paddr % 4096 == 0,
        paddr < PTE_ADDR_LIMIT,
    ensures
        pte_paddr(pte_bits(paddr, flags)) == paddr,
        pte_flags(pte_bits(paddr, flags)) == flags & 0xff,
        pte_valid(pte_bits(paddr, flags)) == (flags & 1 != 0),
        (flags & 1 != 0) ==> pte_bits(paddr, flags) != 0,
        pte_paddr(pte_bits(paddr, flags)) < PTE_ADDR_LIMIT,
{
    assert(pte_paddr(pte_bits(paddr, flags)) == paddr) by (bit_vector)
        requires paddr % 4096 == 0, paddr < 0x0100_0000_0000_0000u64;
    assert(pte_flags(pte_bits(paddr, flags)) == flags & 0xff) by (bit_vector);
    assert(pte_valid(pte_bits(paddr, flags)) == (flags & 1 != 0)) by (bit_vector);
    assert((flags & 1 != 0) ==> pte_bits(paddr, flags) != 0) by (bit_vector);
}

/// Every entry word holds an address below the limit.
pub proof fn lemma_pte_paddr_bound(e: u64)
    ensures
        pte_paddr(e) < PTE_ADDR_LIMIT,
        pte_paddr(e) % 4096 == 0,
{
    assert(pte_paddr(e) < 0x0100_0000_0000_0000u64) by (bit_vector);
    assert(pte_paddr(e) % 4096 == 0) by (bit_vector);
}

/// One page-table entry: flags in bits 0..8 and the physical page number in
/// bits 10..54.
#[derive(Debug, Clone, Copy, PartialEq, Eq, Structural)]
pub struct PageTableEntry(pub u64);

impl PageTableEntry {
    pub fn new(paddr: HostPhysAddr, flags: PTEFlags) -> (r: Self)
        ensures
            r.0 == pte_bits(paddr.0 as u64, flags.0 as u64),
    {
        PageTableEntry(((flags.0 as u64) & 0xff) | (((paddr.0 as u64) >> 2) & PTE_PHYS_ADDR_MASK))
    }

    pub fn empty() -> (r: Self)
        ensures
            r.0 == 0,
    {
        PageTableEntry(0)
    }

    /// The physical address the entry holds.
    pub fn ppn(&self) -> (r: HostPhysAddr)
        ensures
            r.0 == pte_paddr(self.0) as usize,
    {
        HostPhysAddr(((self.0 & PTE_PHYS_ADDR_MASK) << 2) as usize)
    }

    pub fn flags(&self) -> (r: PTEFlags)
        ensures
            r.0 == pte_flags(self.0) as usize,
    {
        PTEFlags((self.0 & 0xff) as usize)
    }

    pub fn is_valid(&self) -> (r: bool)
        ensures
            r == pte_valid(self.0),
    {
        self.0 & 1 != 0
    }

    pub fn readable(&self) -> (r: bool)
        ensures
            r == (self.0 & (PTE_R as u64) != 0),
    {
        self.0 & (PTE_R as u64) != 0
    }

    pub fn writable(&self) -> (r: bool)
        ensures
            r == (self.0 & (PTE_W as u64) != 0),
    {
        self.0 & (PTE_W as u64) != 0
    }

    pub fn executable(&self) -> (r: bool)
        ensures
            r == (self.0 & (PTE_X as u64) != 0),
    {
        self.0 & (PTE_X as u64) != 0
    }

    pub fn is_user(&self) -> (r: bool)
        ensures
            r == (self.0 & (PTE_U as u64) != 0),
    {
        self.0 & (PTE_U as u64) != 0
    }

    pub fn is_global(&self) -> (r: bool)
        ensures
            r == (self.0 & (PTE_G as u64) != 0),
    {
        self.0 & (PTE_G as u64) != 0
    }

    pub fn dirty(&self) -> (r: bool)
        ensures
            r == (self.0 & (PTE_D as u64) != 0),
    {
        self.0 & (PTE_D as u64) != 0
    }

    pub fn accessed(&self) -> (r: bool)
        ensures
            r == (self.0 & (PTE_A as u64) != 0),
    {
        self.0 & (PTE_A as u64) != 0
    }

    /// Whether every bit of the entry is zero.
    pub fn is_unused(&self) -> (r: bool)
        ensures
            r == (self.0 == 0),
    {
        self.0 == 0
    }
}

} // verus!
