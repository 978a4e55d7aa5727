use crate::addr::{align_down, align_up, HostPhysAddr, HostVirtAddr};
use crate::config::PAGE_SIZE_4K;
use crate::dtb::{Device, MachineMeta};
use crate::error::{HypervisorError, HypervisorResult};
use crate::frame::PhysFrameAllocator;
use crate::page_table::PageTable;
use crate::pte::{lemma_pte_round_trip, pte_bits, PTEFlags, PTE_ADDR_LIMIT, PTE_R, PTE_V, PTE_W, PTE_X};
use crate::radix::{in_region, lemma_disjoint_ranges_vpns, region_vpn, RadixTable};
use vstd::prelude::*;

verus! {

/// Pages a host table can address (512 * 512 * 512).
pub const HOST_SPAN_PAGES: usize = 0x800_0000;

/// Flags of the hypervisor's text, read-only data, and data / bss / free
/// memory / MMIO mappings.
pub const TEXT_FLAGS: usize = 11;
pub const RODATA_FLAGS: usize = 3;
pub const DATA_FLAGS: usize = 7;

/// Whether every page of `[start, end)` is identity-mapped with `flags` in `t`.
pub open spec fn identity_mapped(t: RadixTable, start: int, end: int, flags: int) -> bool {
    forall|i: int|
        0 <= i < (end - start) / 4096 ==> #[trigger] t.leaf(region_vpn(start, i, 512)) == pte_bits(
            (start + i * 4096) as u64,
            flags as u64,
        )
}

/// Bytes a host table translates (512 GiB): below this, distinct pages have
/// distinct page numbers.
pub open spec fn host_span_bytes() -> int {
    0x80_0000_0000
}

/// Whether no page of `[start, end)` is mapped in `t`.
pub open spec fn identity_unmapped(t: RadixTable, start: int, end: int) -> bool {
    forall|i: int| 0 <= i < (end - start) / 4096 ==> #[trigger] t.leaf(region_vpn(start, i, 512)) == 0
}

/// Whether `[start, end)` is a page-aligned range inside the host span.
pub open spec fn section_ok(start: int, end: int) -> bool {
    start % 4096 == 0 && end % 4096 == 0 && 0 <= start <= end <= host_span_bytes()
}

/// Whether two ranges do not overlap.
pub open spec fn disjoint(s1: int, e1: int, s2: int, e2: int) -> bool {
    e1 <= s2 || e2 <= s1
}

/// A range that was unmapped stays unmapped across a change confined to
/// the pages of another range it does not overlap.
pub proof fn lemma_still_unmapped(t0: RadixTable, t1: RadixTable, s1: int, e1: int, s2: int, e2: int)
    requires
        forall|v: int| !in_region(v, s1, (e1 - s1) / 4096, 512) ==> #[trigger] t1.leaf(v) == t0.leaf(v),
        identity_unmapped(t0, s2, e2),
        section_ok(s1, e1),
        section_ok(s2, e2),
        disjoint(s1, e1, s2, e2),
    ensures
        identity_unmapped(t1, s2, e2),
{
    lemma_disjoint_ranges_vpns(s1, e1, s2, e2, 512);
    assert forall|i: int| 0 <= i < (e2 - s2) / 4096 implies #[trigger] t1.leaf(region_vpn(s2, i, 512)) == 0 by {
        assert(!in_region(region_vpn(s2, i, 512), s1, (e1 - s1) / 4096, 512));
    }
}

/// Whether `[start, end)` can be identity-mapped at all: page-aligned,
/// ordered, no longer than the host span, and below the address limit.
pub open spec fn range_valid(start: int, end: int) -> bool {
    start % 4096 == 0 && end % 4096 == 0 && start <= end && (end - start) / 4096 <= HOST_SPAN_PAGES
        && end <= PTE_ADDR_LIMIT as int
}

fn range_valid_exec(start: usize, end: usize) -> (r: bool)
    ensures
        r == range_valid(start as int, end as int),
{
    start % PAGE_SIZE_4K == 0 && end % PAGE_SIZE_4K == 0 && start <= end && (end - start) / PAGE_SIZE_4K
        <= HOST_SPAN_PAGES && end as u64 <= PTE_ADDR_LIMIT
}

/// Whether every section bound of the image can be mapped.
pub open spec fn sections_valid(l: ImageLayout) -> bool {
    &&& range_valid(l.stext as int, l.etext as int)
    &&& range_valid(l.srodata as int, l.erodata as int)
    &&& range_valid(l.sdata as int, l.edata as int)
    &&& range_valid(l.sbss as int, l.ebss as int)
}

/// Whether a device window can be mapped: page-aligned base and size, an
/// end that fits in `usize`, and a valid range.
pub open spec fn device_valid(d: Device) -> bool {
    d.base_address % 4096 == 0 && d.size % 4096 == 0 && d.base_address + d.size <= usize::MAX
        && range_valid(d.base_address as int, d.base_address + d.size)
}

/// An identity mapping with the V flag survives any change that keeps every
/// non-zero leaf.
pub proof fn lemma_identity_kept(t0: RadixTable, t1: RadixTable, start: int, end: int, flags: int)
    requires
        identity_mapped(t0, start, end, flags),
        forall|v: int| t0.leaf(v) != 0 ==> #[trigger] t1.leaf(v) == t0.leaf(v),
        start % 4096 == 0,
        0 <= start <= end <= PTE_ADDR_LIMIT as int,
        0 <= flags <= usize::MAX,
        (flags as u64) & 1 != 0,
    ensures
        identity_mapped(t1, start, end, flags),
{
    assert forall|i: int| 0 <= i < (end - start) / 4096 implies #[trigger] t1.leaf(region_vpn(start, i, 512))
        == pte_bits((start + i * 4096) as u64, flags as u64) by {
        assert((start + i * 4096) % 4096 == 0) by (nonlinear_arith)
            requires start % 4096 == 0;
        assert(start + i * 4096 < end) by (nonlinear_arith)
            requires i < (end - start) / 4096, start <= end;
        lemma_pte_round_trip((start + i * 4096) as u64, flags as u64);
        assert(t0.leaf(region_vpn(start, i, 512)) != 0);
    }
}

/// Identity-map `[start, end)` into the host table with `flags`. Both ends
/// must be page-aligned (`InvalidParam` otherwise). On success every page of
/// the range is mapped and every leaf that was already set is unchanged.
pub fn map_identity(
    pt: &mut PageTable,
    alloc: &mut PhysFrameAllocator,
    start: usize,
    end: usize,
    flags: usize,
) -> (r: HypervisorResult<()>)
    requires
        flags <= 0xff,
        old(pt).wf(),
        old(alloc).wf(),
        old(alloc)@.base + old(alloc)@.total * 4096 <= PTE_ADDR_LIMIT as int,
    ensures
        final(pt).wf(),
        final(alloc).wf(),
        final(alloc)@.base == old(alloc)@.base,
        final(alloc)@.total == old(alloc)@.total,
        r is Ok ==> identity_mapped(final(pt)@, start as int, end as int, flags as int),
        r is Ok ==> start <= end <= PTE_ADDR_LIMIT as int && start % 4096 == 0,
        r is Ok ==> forall|v: int| old(pt)@.leaf(v) != 0 ==> #[trigger] final(pt)@.leaf(v) == old(pt)@.leaf(v),
        r is Ok ==> final(alloc)@.free.len() + 2 * ((end - start) / 4096) >= old(alloc)@.free.len(),
        forall|v: int| !in_region(v, start as int, (end - start) / 4096, 512) ==> #[trigger] final(pt)@.leaf(v)
            == old(pt)@.leaf(v),
        r == Err::<(), HypervisorError>(HypervisorError::InvalidParam) <==> !range_valid(start as int, end as int),
        r == Err::<(), HypervisorError>(HypervisorError::InvalidParam) ==> final(pt)@ == old(pt)@ && final(alloc)@
            == old(alloc)@,
        r != Err::<(), HypervisorError>(HypervisorError::NotMapped),
        (section_ok(start as int, end as int) && identity_unmapped(old(pt)@, start as int, end as int)
            && old(alloc)@.free.len() >= 2 * ((end - start) / 4096)) ==> r is Ok,
{
    if start % PAGE_SIZE_4K != 0 || end % PAGE_SIZE_4K != 0 || end < start || end as u64 > PTE_ADDR_LIMIT {
        return Err(HypervisorError::InvalidParam);
    }
    let n = (end - start) / PAGE_SIZE_4K;
    if n > HOST_SPAN_PAGES {
        proof {
            assert(n * 4096 == end - start) by (nonlinear_arith)
                requires n == (end - start) / 4096, (end - start) % 4096 == 0;
            assert(!section_ok(start as int, end as int)) by (nonlinear_arith)
                requires n * 4096 == end - start, n > 0x800_0000int, start >= 0;
        }
        return Err(HypervisorError::InvalidParam);
    }
    let ghost t0 = pt@;
    let res = pt.map_region(alloc, HostVirtAddr(start), HostPhysAddr(start), n, PTEFlags(flags));
    proof {
        assert(n * 4096 == end - start) by (nonlinear_arith)
            requires n == (end - start) / 4096, (end - start) % 4096 == 0;
        assert(t0.root_len() * 262144 == HOST_SPAN_PAGES);
        if section_ok(start as int, end as int) {
            assert(n <= HOST_SPAN_PAGES) by (nonlinear_arith)
                requires n * 4096 == end - start, end <= 0x80_0000_0000int, start >= 0;
        }
        if res is Ok {
            assert(n * 4096 == end - start) by (nonlinear_arith)
                requires n == (end - start) / 4096, (end - start) % 4096 == 0;
            assert forall|v: int| t0.leaf(v) != 0 implies #[trigger] pt@.leaf(v) == t0.leaf(v) by {
                if in_region(v, start as int, n as int, 512) {
                    let j = choose|j: int| 0 <= j < n && v == #[trigger] region_vpn(start as int, j, 512);
                    let w = pt@.leaf(region_vpn(start as int, j, 512));
                }
            }
        }
    }
    res
}

/// Section bounds of the hypervisor image, all page-aligned.
#[derive(Debug, Clone, Copy, PartialEq, Eq, Structural)]
pub struct ImageLayout {
    pub stext: usize,
    pub etext: usize,
    pub srodata: usize,
    pub erodata: usize,
    pub sdata: usize,
    pub edata: usize,
    pub sbss: usize,
    pub ebss: usize,
}

/// Whether the image sections are page-aligned, ordered, inside the host
/// span, pairwise disjoint, unmapped in `t`, and `free` frames are enough for
/// their tables (two per page).
pub open spec fn image_fits(l: ImageLayout, t: RadixTable, free: int) -> bool {
    &&& section_ok(l.stext as int, l.etext as int)
    &&& section_ok(l.srodata as int, l.erodata as int)
    &&& section_ok(l.sdata as int, l.edata as int)
    &&& section_ok(l.sbss as int, l.ebss as int)
    &&& disjoint(l.stext as int, l.etext as int, l.srodata as int, l.erodata as int)
    &&& disjoint(l.stext as int, l.etext as int, l.sdata as int, l.edata as int)
    &&& disjoint(l.stext as int, l.etext as int, l.sbss as int, l.ebss as int)
    &&& disjoint(l.srodata as int, l.erodata as int, l.sdata as int, l.edata as int)
    &&& disjoint(l.srodata as int, l.erodata as int, l.sbss as int, l.ebss as int)
    &&& disjoint(l.sdata as int, l.edata as int, l.sbss as int, l.ebss as int)
    &&& identity_unmapped(t, l.stext as int, l.etext as int)
    &&& identity_unmapped(t, l.srodata as int, l.erodata as int)
    &&& identity_unmapped(t, l.sdata as int, l.edata as int)
    &&& identity_unmapped(t, l.sbss as int, l.ebss as int)
    &&& free >= 2 * ((l.etext - l.stext) / 4096 + (l.erodata - l.srodata) / 4096 + (l.edata - l.sdata) / 4096 + (l.ebss - l.sbss) / 4096)
}

/// Identity-map the hypervisor image: text R+X, read-only data R, data and
/// bss R+W, all valid. Every bound is checked before anything is mapped:
/// `InvalidParam`, with nothing changed, exactly when one cannot be mapped.
/// It succeeds whenever the image fits.
pub fn map_hypervisor_image(pt: &mut PageTable, alloc: &mut PhysFrameAllocator, layout: &ImageLayout) -> (r:
    HypervisorResult<()>)
    requires
        old(pt).wf(),
        old(alloc).wf(),
        old(alloc)@.base + old(alloc)@.total * 4096 <= PTE_ADDR_LIMIT as int,
    ensures
        final(pt).wf(),
        final(alloc).wf(),
        r is Ok ==> identity_mapped(final(pt)@, layout.stext as int, layout.etext as int, TEXT_FLAGS as int),
        r is Ok ==> identity_mapped(final(pt)@, layout.srodata as int, layout.erodata as int, RODATA_FLAGS as int),
        r is Ok ==> identity_mapped(final(pt)@, layout.sdata as int, layout.edata as int, DATA_FLAGS as int),
        r is Ok ==> identity_mapped(final(pt)@, layout.sbss as int, layout.ebss as int, DATA_FLAGS as int),
        image_fits(*layout, old(pt)@, old(alloc)@.free.len() as int) ==> r is Ok,
        r == Err::<(), HypervisorError>(HypervisorError::InvalidParam) <==> !sections_valid(*layout),
        r == Err::<(), HypervisorError>(HypervisorError::InvalidParam) ==> final(pt)@ == old(pt)@ && final(alloc)@
            == old(alloc)@,
{
    if !(range_valid_exec(layout.stext, layout.etext) && range_valid_exec(layout.srodata, layout.erodata)
        && range_valid_exec(layout.sdata, layout.edata) && range_valid_exec(layout.sbss, layout.ebss)) {
        return Err(HypervisorError::InvalidParam);
    }
    proof {
        assert((TEXT_FLAGS as u64) & 1 != 0) by (bit_vector);
        assert((RODATA_FLAGS as u64) & 1 != 0) by (bit_vector);
        assert((DATA_FLAGS as u64) & 1 != 0) by (bit_vector);
    }
    let ghost l = *layout;
    let ghost fits = image_fits(l, pt@, alloc@.free.len() as int);
    let ghost t0 = pt@;
    let ghost f0 = alloc@.free.len() as int;
    match map_identity(pt, alloc, layout.stext, layout.etext, TEXT_FLAGS) {
        Ok(()) => {},
        Err(e) => return Err(e),
    }
    let ghost t1 = pt@;
    proof {
        if fits {
            lemma_still_unmapped(t0, t1, l.stext as int, l.etext as int, l.srodata as int, l.erodata as int);
            lemma_still_unmapped(t0, t1, l.stext as int, l.etext as int, l.sdata as int, l.edata as int);
            lemma_still_unmapped(t0, t1, l.stext as int, l.etext as int, l.sbss as int, l.ebss as int);
        }
    }
    match map_identity(pt, alloc, layout.srodata, layout.erodata, RODATA_FLAGS) {
        Ok(()) => {},
        Err(e) => return Err(e),
    }
    let ghost t2 = pt@;
    proof {
        lemma_identity_kept(t1, t2, layout.stext as int, layout.etext as int, TEXT_FLAGS as int);
        if fits {
            lemma_still_unmapped(t1, t2, l.srodata as int, l.erodata as int, l.sdata as int, l.edata as int);
            lemma_still_unmapped(t1, t2, l.srodata as int, l.erodata as int, l.sbss as int, l.ebss as int);
        }
    }
    match map_identity(pt, alloc, layout.sdata, layout.edata, DATA_FLAGS) {
        Ok(()) => {},
        Err(e) => return Err(e),
    }
    let ghost t3 = pt@;
    proof {
        lemma_identity_kept(t2, t3, layout.stext as int, layout.etext as int, TEXT_FLAGS as int);
        lemma_identity_kept(t2, t3, layout.srodata as int, layout.erodata as int, RODATA_FLAGS as int);
        if fits {
            lemma_still_unmapped(t2, t3, l.sdata as int, l.edata as int, l.sbss as int, l.ebss as int);
        }
    }
    match map_identity(pt, alloc, layout.sbss, layout.ebss, DATA_FLAGS) {
        Ok(()) => {},
        Err(e) => return Err(e),
    }
    let ghost t4 = pt@;
    proof {
        lemma_identity_kept(t3, t4, layout.stext as int, layout.etext as int, TEXT_FLAGS as int);
        lemma_identity_kept(t3, t4, layout.srodata as int, layout.erodata as int, RODATA_FLAGS as int);
        lemma_identity_kept(t3, t4, layout.sdata as int, layout.edata as int, DATA_FLAGS as int);
    }
    Ok(())
}

/// Identity-map the free memory after the hypervisor image, from
/// `hypervisor_end` aligned up to the end of physical memory aligned down,
/// readable and writable.
pub fn map_free_memory(
    pt: &mut PageTable,
    alloc: &mut PhysFrameAllocator,
    meta: &MachineMeta,
    hypervisor_end: usize,
) -> (r: HypervisorResult<(usize, usize)>)
    requires
        old(pt).wf(),
        old(alloc).wf(),
        old(alloc)@.base + old(alloc)@.total * 4096 <= PTE_ADDR_LIMIT as int,
    ensures
        final(pt).wf(),
        final(alloc).wf(),
        r is Ok ==> identity_mapped(final(pt)@, r->Ok_0.0 as int, r->Ok_0.1 as int, DATA_FLAGS as int),
        r is Ok ==> r->Ok_0.0 == crate::addr::align_up_spec(hypervisor_end as int, 4096)
            && r->Ok_0.1 == crate::addr::align_down_spec(meta.phys_mem_start + meta.phys_mem_size, 4096),
        ({
            let s = crate::addr::align_up_spec(hypervisor_end as int, 4096);
            let e = crate::addr::align_down_spec(meta.phys_mem_start + meta.phys_mem_size, 4096);
            forall|v: int| !in_region(v, s, (e - s) / 4096, 512) ==> #[trigger] final(pt)@.leaf(v) == old(pt)@.leaf(v)
        }),
        ({
            let s = crate::addr::align_up_spec(hypervisor_end as int, 4096);
            let e = crate::addr::align_down_spec(meta.phys_mem_start + meta.phys_mem_size, 4096);
            (hypervisor_end + 4095 <= usize::MAX && meta.phys_mem_start + meta.phys_mem_size <= usize::MAX
                && section_ok(s, e) && identity_unmapped(old(pt)@, s, e) && old(alloc)@.free.len() >= 2 * ((e - s)
                / 4096)) ==> r is Ok
        }),
        r == Err::<(usize, usize), HypervisorError>(HypervisorError::InvalidParam) <==> (hypervisor_end + 4095
            > usize::MAX || meta.phys_mem_start + meta.phys_mem_size > usize::MAX || !range_valid(
            crate::addr::align_up_spec(hypervisor_end as int, 4096),
            crate::addr::align_down_spec(meta.phys_mem_start + meta.phys_mem_size, 4096),
        )),
        r == Err::<(usize, usize), HypervisorError>(HypervisorError::InvalidParam) ==> final(pt)@ == old(pt)@
            && final(alloc)@ == old(alloc)@,
{
    if hypervisor_end > usize::MAX - (PAGE_SIZE_4K - 1) || meta.phys_mem_size > usize::MAX - meta.phys_mem_start {
        return Err(HypervisorError::InvalidParam);
    }
    let start = align_up(hypervisor_end, PAGE_SIZE_4K);
    let end = align_down(meta.phys_mem_start + meta.phys_mem_size, PAGE_SIZE_4K);
    match map_identity(pt, alloc, start, end, DATA_FLAGS) {
        Ok(()) => Ok((start, end)),
        Err(e) => Err(e),
    }
}

/// Pages of the device windows from the `d`-th on.
pub open spec fn window_pages(devs: Seq<Device>, d: int) -> int
    decreases devs.len() - d,
{
    if d < 0 || d >= devs.len() {
        0
    } else {
        devs[d].size / 4096 + window_pages(devs, d + 1)
    }
}

/// Whether every device window is page-aligned, inside the host span,
/// disjoint from the others and unmapped in `t`, and `free` frames are enough
/// for their tables.
pub open spec fn windows_fit(devs: Seq<Device>, t: RadixTable, free: int) -> bool {
    &&& forall|d: int| 0 <= d < devs.len() ==> section_ok((#[trigger] devs[d]).base_address as int, devs[d].base_address + devs[d].size)
        && devs[d].base_address + devs[d].size <= usize::MAX
    &&& forall|d1: int, d2: int| 0 <= d1 < d2 < devs.len() ==> disjoint((#[trigger] devs[d1]).base_address as int,
        devs[d1].base_address + devs[d1].size, (#[trigger] devs[d2]).base_address as int, devs[d2].base_address + devs[d2].size)
    &&& forall|d: int| 0 <= d < devs.len() ==> identity_unmapped(t, (#[trigger] devs[d]).base_address as int, devs[d].base_address + devs[d].size)
    &&& free >= 2 * window_pages(devs, 0)
}

/// Identity-map every MMIO device window of the machine, readable and
/// writable. Every window is checked before anything is mapped:
/// `InvalidParam`, with nothing changed, exactly when one cannot be mapped.
pub fn map_mmio_regions(pt: &mut PageTable, alloc: &mut PhysFrameAllocator, meta: &MachineMeta) -> (r:
    HypervisorResult<()>)
    requires
        old(pt).wf(),
        old(alloc).wf(),
        old(alloc)@.base + old(alloc)@.total * 4096 <= PTE_ADDR_LIMIT as int,
    ensures
        final(pt).wf(),
        final(alloc).wf(),
        r is Ok ==> forall|d: int|
            0 <= d < meta.virtio@.len() ==> identity_mapped(
                final(pt)@,
                (#[trigger] meta.virtio@[d]).base_address as int,
                meta.virtio@[d].base_address + meta.virtio@[d].size,
                DATA_FLAGS as int,
            ),
        windows_fit(meta.virtio@, old(pt)@, old(alloc)@.free.len() as int) ==> r is Ok,
        r == Err::<(), HypervisorError>(HypervisorError::InvalidParam) <==> exists|d: int|
            0 <= d < meta.virtio@.len() && !device_valid(#[trigger] meta.virtio@[d]),
        r == Err::<(), HypervisorError>(HypervisorError::InvalidParam) ==> final(pt)@ == old(pt)@ && final(alloc)@
            == old(alloc)@,
{
    let mut c: usize = 0;
    while c < meta.virtio.len()
        invariant
            c <= meta.virtio@.len(),
            forall|d: int| 0 <= d < c ==> device_valid(#[trigger] meta.virtio@[d]),
            pt.wf(),
            alloc.wf(),
            pt@ == old(pt)@,
            alloc@ == old(alloc)@,
        decreases meta.virtio@.len() - c,
    {
        let dev = meta.virtio[c];
        if dev.base_address % PAGE_SIZE_4K != 0 || dev.size % PAGE_SIZE_4K != 0 || dev.size > usize::MAX
            - dev.base_address || !range_valid_exec(dev.base_address, dev.base_address + dev.size) {
            assert(!device_valid(meta.virtio@[c as int]));
            return Err(HypervisorError::InvalidParam);
        }
        c = c + 1;
    }
    proof {
        assert((DATA_FLAGS as u64) & 1 != 0) by (bit_vector);
    }
    let ghost devs = meta.virtio@;
    let ghost fits = windows_fit(devs, pt@, alloc@.free.len() as int);
    let mut d: usize = 0;
    while d < meta.virtio.len()
        invariant
            d <= meta.virtio@.len(),
            pt.wf(),
            alloc.wf(),
            alloc@.base + alloc@.total * 4096 <= PTE_ADDR_LIMIT as int,
            forall|k: int|
                0 <= k < d ==> identity_mapped(
                    pt@,
                    (#[trigger] meta.virtio@[k]).base_address as int,
                    meta.virtio@[k].base_address + meta.virtio@[k].size,
                    DATA_FLAGS as int,
                ) && meta.virtio@[k].base_address % 4096 == 0 && meta.virtio@[k].base_address + meta.virtio@[k].size
                    <= PTE_ADDR_LIMIT as int,
            devs == meta.virtio@,
            forall|k: int| 0 <= k < devs.len() ==> device_valid(#[trigger] devs[k]),
            fits == windows_fit(devs, old(pt)@, old(alloc)@.free.len() as int),
            fits ==> alloc@.free.len() >= 2 * window_pages(devs, d as int),
            fits ==> forall|k: int| d <= k < devs.len() ==> identity_unmapped(pt@, (#[trigger] devs[k]).base_address as int, devs[k].base_address + devs[k].size),
        decreases meta.virtio@.len() - d,
    {
        let dev = meta.virtio[d];
        if dev.size > usize::MAX - dev.base_address {
            return Err(HypervisorError::InvalidParam);
        }
        let ghost t0 = pt@;
        proof {
            if fits {
                assert(section_ok(devs[d as int].base_address as int, devs[d as int].base_address + devs[d as int].size));
                assert(window_pages(devs, d as int) == dev.size / 4096 + window_pages(devs, d + 1));
                assert((dev.base_address + dev.size - dev.base_address) / 4096 == dev.size / 4096);
                assert(window_pages(devs, d + 1) >= 0) by {
                    lemma_window_pages_nonneg(devs, d + 1);
                }
            }
        }
        match map_identity(pt, alloc, dev.base_address, dev.base_address + dev.size, DATA_FLAGS) {
            Ok(()) => {},
            Err(e) => return Err(e),
        }
        proof {
            assert forall|k: int| 0 <= k < d + 1 implies identity_mapped(
                pt@,
                (#[trigger] meta.virtio@[k]).base_address as int,
                meta.virtio@[k].base_address + meta.virtio@[k].size,
                DATA_FLAGS as int,
            ) && meta.virtio@[k].base_address % 4096 == 0 && meta.virtio@[k].base_address + meta.virtio@[k].size
                <= PTE_ADDR_LIMIT as int by {
                if k < d {
                    assert((DATA_FLAGS as u64) & 1 != 0) by (bit_vector);
                    lemma_identity_kept(
                        t0,
                        pt@,
                        meta.virtio@[k].base_address as int,
                        meta.virtio@[k].base_address + meta.virtio@[k].size,
                        DATA_FLAGS as int,
                    );
                }
            }
        }
        proof {
            if fits {
                assert forall|k: int| d + 1 <= k < devs.len() implies identity_unmapped(pt@, (#[trigger] devs[k]).base_address as int, devs[k].base_address + devs[k].size) by {
                    assert(disjoint(devs[d as int].base_address as int, devs[d as int].base_address + devs[d as int].size,
                        devs[k].base_address as int, devs[k].base_address + devs[k].size));
                    lemma_still_unmapped(t0, pt@, dev.base_address as int, dev.base_address + dev.size,
                        devs[k].base_address as int, devs[k].base_address + devs[k].size);
                }
            }
        }
        d = d + 1;
    }
    Ok(())
}

pub proof fn lemma_window_pages_nonneg(devs: Seq<Device>, d: int)
    ensures
        window_pages(devs, d) >= 0,
    decreases devs.len() - d,
{
    if 0 <= d < devs.len() {
        lemma_window_pages_nonneg(devs, d + 1);
    }
}

/// The hypervisor's page table: an empty Sv39 table with a fresh root.
pub fn init_page_table(alloc: &mut PhysFrameAllocator) -> (r: HypervisorResult<PageTable>)
    requires
        old(alloc).wf(),
        old(alloc)@.base + old(alloc)@.total * 4096 <= PTE_ADDR_LIMIT as int,
    ensures
        final(alloc).wf(),
        r is Ok ==> r->Ok_0.wf() && forall|v: int| #[trigger] r->Ok_0@.leaf(v) == 0,
        r is Ok ==> final(alloc)@.free.len() == old(alloc)@.free.len() - 1 && old(alloc)@.alloc_post(final(alloc)@, 1, 4096,
            Ok(HostPhysAddr(r->Ok_0@.root_addr() as usize))),
        r is Err ==> r->Err_0 == HypervisorError::NoMemory && old(alloc)@.free.len() == 0 && final(alloc)@ == old(alloc)@,
{
    let ghost v0 = alloc@;
    let res = PageTable::try_new(alloc);
    proof {
        crate::frame::lemma_single_frame_run(v0);
        if res is Err {
            assert(alloc@.free == v0.free && alloc@.used == v0.used);
        }
    }
    res
}

} // verus!
