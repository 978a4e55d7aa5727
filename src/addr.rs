use vstd::prelude::*;

verus! {

/// The greatest multiple of `align` that is not above `addr`.
pub open spec fn align_down_spec(addr: int, align: int) -> int {
    addr - addr % align
}

/// The smallest multiple of `align` that is not below `addr`.
pub open spec fn align_up_spec(addr: int, align: int) -> int {
    if addr % align == 0 {
        addr
    } else {
        addr - addr % align + align
    }
}

/// Whether `n` is a power of two.
pub open spec fn is_pow2(n: int) -> bool
    decreases n,
{
    if n <= 0 {
        false
    } else if n == 1 {
        true
    } else {
        n % 2 == 0 && is_pow2(n / 2)
    }
}

/// Align address upwards: the smallest multiple of `align` that is `>= addr`.
pub fn align_up(addr: usize, align: usize) -> (r: usize)
    requires
        align > 0,
        addr + align - 1 <= usize::MAX,
    ensures
        r == align_up_spec(addr as int, align as int),
        r % align == 0,
        addr <= r < addr + align,
{
    let off = addr % align;
    assert(off <= addr && off < align) by (nonlinear_arith)
        requires off == addr % align, align > 0;
    if off == 0 {
        addr
    } else {
        assert((addr - off + align) % (align as int) == 0) by (nonlinear_arith)
            requires off == addr % align, align > 0;
        addr - off + align
    }
}

/// Align address downwards: the greatest multiple of `align` that is `<= addr`.
pub fn align_down(addr: usize, align: usize) -> (r: usize)
    requires
        align > 0,
    ensures
        r == align_down_spec(addr as int, align as int),
        r % align == 0,
        r <= addr < r + align,
{
    let off = addr % align;
    assert(off <= addr && off < align) by (nonlinear_arith)
        requires off == addr % align, align > 0;
    assert((addr - off) % (align as int) == 0) by (nonlinear_arith)
        requires off == addr % align, align > 0;
    addr - off
}

/// The offset of the address within the alignment (`addr % align`).
pub fn align_offset(addr: usize, align: usize) -> (r: usize)
    requires
        align > 0,
    ensures
        r == addr % align,
{
    addr % align
}

/// Whether the address is a multiple of `align`.
pub fn is_aligned(addr: usize, align: usize) -> (r: bool)
    requires
        align > 0,
    ensures
        r == (addr % align == 0),
{
    align_offset(addr, align) == 0
}

/// A host physical address.
#[derive(Debug, Clone, Copy, PartialEq, Eq, Structural)]
pub struct HostPhysAddr(pub usize);

/// A host virtual address.
#[derive(Debug, Clone, Copy, PartialEq, Eq, Structural)]
pub struct HostVirtAddr(pub usize);

/// A guest physical address.
#[derive(Debug, Clone, Copy, PartialEq, Eq, Structural)]
pub struct GuestPhysAddr(pub usize);

impl HostPhysAddr {
    pub fn new(addr: usize) -> (r: Self)
        ensures
            r.0 == addr,
    {
        HostPhysAddr(addr)
    }

    pub fn as_usize(self) -> (r: usize)
        ensures
            r == self.0,
    {
        self.0
    }

    pub fn is_aligned(self, align: usize) -> (r: bool)
        requires
            align > 0,
        ensures
            r == (self.0 % align == 0),
    {
        is_aligned(self.0, align)
    }

    pub fn align_up(self, align: usize) -> (r: Self)
        requires
            align > 0,
            self.0 + align - 1 <= usize::MAX,
        ensures
            r.0 == align_up_spec(self.0 as int, align as int),
    {
        HostPhysAddr(align_up(self.0, align))
    }

    pub fn align_down(self, align: usize) -> (r: Self)
        requires
            align > 0,
        ensures
            r.0 == align_down_spec(self.0 as int, align as int),
    {
        HostPhysAddr(align_down(self.0, align))
    }
}

impl HostVirtAddr {
    pub fn new(addr: usize) -> (r: Self)
        ensures
            r.0 == addr,
    {
        HostVirtAddr(addr)
    }

    pub fn as_usize(self) -> (r: usize)
        ensures
            r == self.0,
    {
        self.0
    }

    pub fn is_aligned(self, align: usize) -> (r: bool)
        requires
            align > 0,
        ensures
            r == (self.0 % align == 0),
    {
        is_aligned(self.0, align)
    }

    pub fn align_up(self, align: usize) -> (r: Self)
        requires
            align > 0,
            self.0 + align - 1 <= usize::MAX,
        ensures
            r.0 == align_up_spec(self.0 as int, align as int),
    {
        HostVirtAddr(align_up(self.0, align))
    }

    pub fn align_down(self, align: usize) -> (r: Self)
        requires
            align > 0,
        ensures
            r.0 == align_down_spec(self.0 as int, align as int),
    {
        HostVirtAddr(align_down(self.0, align))
    }
}

impl GuestPhysAddr {
    pub fn new(addr: usize) -> (r: Self)
        ensures
            r.0 == addr,
    {
        GuestPhysAddr(addr)
    }

    pub fn as_usize(self) -> (r: usize)
        ensures
            r == self.0,
    {
        self.0
    }

    pub fn is_aligned(self, align: usize) -> (r: bool)
        requires
            align > 0,
        ensures
            r == (self.0 % align == 0),
    {
        is_aligned(self.0, align)
    }

    pub fn align_up(self, align: usize) -> (r: Self)
        requires
            align > 0,
            self.0 + align - 1 <= usize::MAX,
        ensures
            r.0 == align_up_spec(self.0 as int, align as int),
    {
        GuestPhysAddr(align_up(self.0, align))
    }

    pub fn align_down(self, align: usize) -> (r: Self)
        requires
            align > 0,
        ensures
            r.0 == align_down_spec(self.0 as int, align as int),
    {
        GuestPhysAddr(align_down(self.0, align))
    }
}

impl From<usize> for HostPhysAddr {
    fn from(addr: usize) -> (r: Self) {
        HostPhysAddr(addr)
    }
}

impl vstd::std_specs::convert::FromSpecImpl<usize> for HostPhysAddr {
    open spec fn obeys_from_spec() -> bool {
        true
    }

    open spec fn from_spec(addr: usize) -> Self {
        HostPhysAddr(addr)
    }
}

impl From<usize> for HostVirtAddr {
    fn from(addr: usize) -> (r: Self) {
        HostVirtAddr(addr)
    }
}

impl vstd::std_specs::convert::FromSpecImpl<usize> for HostVirtAddr {
    open spec fn obeys_from_spec() -> bool {
        true
    }

    open spec fn from_spec(addr: usize) -> Self {
        HostVirtAddr(addr)
    }
}

impl From<usize> for GuestPhysAddr {
    fn from(addr: usize) -> (r: Self) {
        GuestPhysAddr(addr)
    }
}

impl vstd::std_specs::convert::FromSpecImpl<usize> for GuestPhysAddr {
    open spec fn obeys_from_spec() -> bool {
        true
    }

    open spec fn from_spec(addr: usize) -> Self {
        GuestPhysAddr(addr)
    }
}

} // verus!
