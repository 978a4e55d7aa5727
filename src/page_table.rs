use crate::addr::{HostPhysAddr, HostVirtAddr};
use crate::error::HypervisorResult;
use crate::frame::PhysFrameAllocator;
use crate::pte::{PTEFlags, PTE_ADDR_LIMIT};
use crate::radix::RadixTable;
use vstd::prelude::*;

verus! {

/// The hypervisor's own stage-1 (Sv39) table: three levels of 512 entries,
/// 4 KiB leaf pages, built from frames of a frame allocator.
pub struct PageTable {
    inner: RadixTable,
}

impl View for PageTable {
    type V = RadixTable;

    closed spec fn view(&self) -> RadixTable {
        self.inner
    }
}

impl PageTable {
    pub open spec fn wf(&self) -> bool {
        self@.wf() && self@.root_len() == 512
    }

    /// A placeholder with no root frame, replaced once the allocator is up.
    pub fn empty() -> (r: Self)
        ensures
            r@.root_len() == 0,
            r@.root_addr() == usize::MAX,
    {
        PageTable { inner: RadixTable::empty() }
    }

    /// A table with a fresh, zeroed root frame.
    pub fn try_new(alloc: &mut PhysFrameAllocator) -> (r: HypervisorResult<Self>)
        requires
            old(alloc).wf(),
            old(alloc)@.base + old(alloc)@.total * 4096 <= PTE_ADDR_LIMIT as int,
        ensures
            final(alloc).wf(),
            r is Ok ==> r->Ok_0.wf(),
            r is Ok ==> forall|vpn: int| #[trigger] r->Ok_0@.leaf(vpn) == 0,
            r is Ok ==> old(alloc)@.alloc_post(final(alloc)@, 1, 4096,
                Ok(HostPhysAddr(r->Ok_0@.root_addr() as usize))),
            r is Err ==> old(alloc)@.alloc_post(final(alloc)@, 1, 4096, Err(r->Err_0)),
    {
        match RadixTable::try_new(alloc, 1) {
            Ok(t) => Ok(PageTable { inner: t }),
            Err(e) => Err(e),
        }
    }

    pub fn root_paddr(&self) -> (r: HostPhysAddr)
        ensures
            r.0 == self@.root_addr(),
    {
        HostPhysAddr(self.inner.root_paddr())
    }

    /// Map the 4 KiB page at `vaddr` to the frame at `paddr`.
    pub fn map(
        &mut self,
        alloc: &mut PhysFrameAllocator,
        vaddr: HostVirtAddr,
        paddr: HostPhysAddr,
        flags: PTEFlags,
    ) -> (r: HypervisorResult<()>)
        requires
            flags.0 <= 0xff,
            old(self).wf(),
            old(alloc).wf(),
            old(alloc)@.base + old(alloc)@.total * 4096 <= PTE_ADDR_LIMIT as int,
        ensures
            final(self).wf(),
            final(alloc).wf(),
            final(alloc)@.base == old(alloc)@.base,
            final(alloc)@.total == old(alloc)@.total,
            final(alloc)@.free.subset_of(old(alloc)@.free),
            final(self)@.root_addr() == old(self)@.root_addr(),
            final(alloc)@.free.len() + 2 >= old(alloc)@.free.len(),
            (r == Err::<(), crate::error::HypervisorError>(crate::error::HypervisorError::AlreadyMapped) || r == Err::<
                (),
                crate::error::HypervisorError,
            >(crate::error::HypervisorError::InvalidParam)) ==> final(alloc)@ == old(alloc)@,
            RadixTable::map_post(old(self)@, final(self)@, old(alloc)@.free.len() as int,
                vaddr.0 as int, paddr.0 as int, flags.0 as int, r),
    {
        self.inner.map(alloc, vaddr.0, paddr.0, flags.0)
    }

    /// Map `num_pages` consecutive pages; see `RadixTable::map_region`.
    pub fn map_region(
        &mut self,
        alloc: &mut PhysFrameAllocator,
        vaddr: HostVirtAddr,
        paddr: HostPhysAddr,
        num_pages: usize,
        flags: PTEFlags,
    ) -> (r: HypervisorResult<()>)
        requires
            flags.0 <= 0xff,
            old(self).wf(),
            old(alloc).wf(),
            old(alloc)@.base + old(alloc)@.total * 4096 <= PTE_ADDR_LIMIT as int,
        ensures
            final(self).wf(),
            final(alloc).wf(),
            final(alloc)@.base == old(alloc)@.base,
            final(alloc)@.total == old(alloc)@.total,
            final(alloc)@.free.subset_of(old(alloc)@.free),
            final(self)@.root_addr() == old(self)@.root_addr(),
            final(alloc)@.free.len() + 2 * num_pages >= old(alloc)@.free.len(),
            RadixTable::map_region_post(old(self)@, final(self)@, old(alloc)@.free.len() as int,
                vaddr.0 as int, paddr.0 as int, num_pages as int, flags.0 as int, r),
    {
        self.inner.map_region(alloc, vaddr.0, paddr.0, num_pages, flags.0)
    }

    /// The frame and flags of the page holding `vaddr`.
    pub fn query(&self, vaddr: HostVirtAddr) -> (r: HypervisorResult<(HostPhysAddr, PTEFlags)>)
        requires
            self.wf(),
        ensures
            match self@.query_spec(vaddr.0 as int) {
                Ok((p, f)) => r == Ok::<(HostPhysAddr, PTEFlags), crate::error::HypervisorError>((HostPhysAddr(p), PTEFlags(f))),
                Err(e) => r == Err::<(HostPhysAddr, PTEFlags), crate::error::HypervisorError>(e),
            },
    {
        match self.inner.query(vaddr.0) {
            Ok((p, f)) => Ok((HostPhysAddr(p), PTEFlags(f))),
            Err(e) => Err(e),
        }
    }

    /// The host-physical address `vaddr` translates to.
    pub fn translate(&self, vaddr: HostVirtAddr) -> (r: HypervisorResult<HostPhysAddr>)
        requires
            self.wf(),
        ensures
            match self@.translate_spec(vaddr.0 as int) {
                Ok(p) => r == Ok::<HostPhysAddr, crate::error::HypervisorError>(HostPhysAddr(p)),
                Err(e) => r == Err::<HostPhysAddr, crate::error::HypervisorError>(e),
            },
    {
        match self.inner.translate(vaddr.0) {
            Ok(p) => Ok(HostPhysAddr(p)),
            Err(e) => Err(e),
        }
    }

    /// Give every frame of the table back to `alloc`.
    pub fn release(self, alloc: &mut PhysFrameAllocator)
        requires
            old(alloc).wf(),
        ensures
            final(alloc).wf(),
            final(alloc)@.base == old(alloc)@.base,
            final(alloc)@.total == old(alloc)@.total,
            final(alloc)@.free == old(alloc)@.free.union(old(alloc)@.runs_freed(self@.frame_runs())),
            final(alloc)@.used == old(alloc)@.used - old(alloc)@.runs_freed(self@.frame_runs()).difference(
                old(alloc)@.free,
            ).len(),
    {
        self.inner.release(alloc)
    }

    /// Each table frame's address and words, for writing the table into
    /// physical memory; see `RadixTable::table_frames`.
    pub fn table_frames(&self) -> (r: Vec<(usize, Vec<u64>)>)
        requires
            self.wf(),
        ensures
            r@.len() == 1 + self@.num_tables(),
            r@[0].0 == self@.root_addr(),
            r@[0].1@.len() == self@.root_len(),
            forall|j: int| 1 <= j < r@.len() ==> (#[trigger] r@[j]).1@.len() == 512 && r@[j].0 % 4096 == 0,
            forall|i: int| 0 <= i < self@.root_len() && r@[0].1@[i] != 0 ==> exists|j: int|
                1 <= j < r@.len() && #[trigger] r@[0].1@[i] == crate::pte::pte_bits((#[trigger] r@[j]).0 as u64, crate::pte::PTE_V as u64),
            forall|vpn: int| #[trigger] self@.leaf(vpn) != 0 ==> exists|j: int|
                1 <= j < r@.len() && (#[trigger] r@[j]).1@[vpn % 512] == self@.leaf(vpn),
    {
        self.inner.table_frames()
    }
}

} // verus!
