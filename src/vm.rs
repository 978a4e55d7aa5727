use crate::addr::{align_down, align_up, align_down_spec, align_up_spec, GuestPhysAddr, HostPhysAddr};
use crate::config::PAGE_SIZE_4K;
use crate::dtb::MachineMeta;
use crate::error::{HypervisorError, HypervisorResult};
use crate::frame::PhysFrameAllocator;
use crate::guest_page_table::GuestPageTable;
use crate::mem_window::PhysMemWindow;
use crate::pte::{lemma_pte_round_trip, pte_bits, PTEFlags, PTE_ADDR_LIMIT};
use crate::radix::{in_region, lemma_disjoint_ranges_vpns, lemma_region_keeps_set_leaves, region_valid, region_vpn, vpn_of, RadixTable};
use crate::region::{disjoint, window_pages, lemma_window_pages_nonneg};
use crate::dtb::Device;
use crate::frame::FrameAllocView;
use vstd::set_lib::lemma_int_range;
use crate::vcpu::{IdAllocator, VCpu};
use crate::vconfig::{parse_entry, parse_memory_limit};
use vstd::prelude::*;
use vstd::string::StringSliceAdditionalSpecFns;

verus! {

/// Permissions of guest memory and guest MMIO windows: V | R | W | X | U.
pub const GUEST_FLAGS: usize = 31;

/// Pages a G-stage table can address (2048 * 512 * 512).
pub const GUEST_SPAN_PAGES: usize = 0x2000_0000;

/// One VM of the static configuration list.
#[derive(Debug, Clone)]
pub struct VMConfig {
    pub name: &'static str,
    pub kernel: &'static str,
    pub memory_limit: usize,
    pub num_vcpu: usize,
    pub entry: usize,
}

/// Assemble a configuration record from its fields as written: the memory
/// limit as a count with unit `M` or `G`, the entry as hexadecimal. `None`
/// when either does not parse.
pub fn vm_config_from_fields(
    name: &'static str,
    kernel: &'static str,
    memory_limit: &str,
    num_vcpu: usize,
    entry: &str,
) -> (r: Option<VMConfig>)
    ensures
        r is Some <==> (crate::vconfig::fit_usize(crate::vconfig::memory_limit_of(memory_limit.spec_bytes())) is Some
            && crate::vconfig::fit_usize(crate::vconfig::entry_of(entry.spec_bytes())) is Some),
        r is Some ==> r->Some_0.memory_limit == crate::vconfig::fit_usize(crate::vconfig::memory_limit_of(memory_limit.spec_bytes()))->Some_0
            && r->Some_0.entry == crate::vconfig::fit_usize(crate::vconfig::entry_of(entry.spec_bytes()))->Some_0
            && r->Some_0.num_vcpu == num_vcpu && r->Some_0.name == name && r->Some_0.kernel == kernel,
{
    let entry = match parse_entry(entry) {
        Some(e) => e,
        None => return None,
    };
    let memory_limit = match parse_memory_limit(memory_limit) {
        Some(m) => m,
        None => return None,
    };
    Some(VMConfig { name, kernel, memory_limit, num_vcpu, entry })
}

/// An embedded guest image and the name it is looked up by.
#[derive(Debug, Clone, Copy)]
pub struct KernelImage {
    pub name: &'static str,
    pub image: &'static [u8],
}

/// Lower case of an ASCII letter; other bytes unchanged.
pub open spec fn ascii_lower(c: u8) -> u8 {
    if 65 <= c <= 90 {
        (c + 32) as u8
    } else {
        c
    }
}

/// Whether two byte strings are equal ignoring ASCII case.
pub open spec fn eq_ignore_case(a: Seq<u8>, b: Seq<u8>) -> bool {
    a.len() == b.len() && forall|i: int| 0 <= i < a.len() ==> ascii_lower(#[trigger] a[i]) == ascii_lower(b[i])
}

fn lower_exec(c: u8) -> (r: u8)
    ensures
        r == ascii_lower(c),
{
    if 65 <= c && c <= 90 {
        c + 32
    } else {
        c
    }
}

/// Whether `a` and `b` are equal ignoring ASCII case.
pub fn eq_ignore_ascii_case(a: &[u8], b: &[u8]) -> (r: bool)
    ensures
        r == eq_ignore_case(a@, b@),
{
    if a.len() != b.len() {
        return false;
    }
    let mut i: usize = 0;
    while i < a.len()
        invariant
            i <= a@.len(),
            a@.len() == b@.len(),
            forall|k: int| 0 <= k < i ==> ascii_lower(#[trigger] a@[k]) == ascii_lower(b@[k]),
        decreases a@.len() - i,
    {
        if lower_exec(a[i]) != lower_exec(b[i]) {
            return false;
        }
        i = i + 1;
    }
    true
}

/// The image whose name matches `kernel` ignoring ASCII case (the first such
/// entry); `None` for an unsupported kernel.
pub fn kernel_image(images: &[KernelImage], kernel: &str) -> (r: Option<&'static [u8]>)
    ensures
        r is None <==> forall|i: int|
            0 <= i < images@.len() ==> !eq_ignore_case(#[trigger] images@[i].name.spec_bytes(), kernel.spec_bytes()),
        r is Some ==> exists|i: int|
            0 <= i < images@.len() && eq_ignore_case(#[trigger] images@[i].name.spec_bytes(), kernel.spec_bytes())
                && r->Some_0 == images@[i].image && forall|j: int|
                0 <= j < i ==> !eq_ignore_case(#[trigger] images@[j].name.spec_bytes(), kernel.spec_bytes()),
{
    let k = kernel.as_bytes();
    let mut i: usize = 0;
    while i < images.len()
        invariant
            i <= images@.len(),
            k@ == kernel.spec_bytes(),
            forall|j: int| 0 <= j < i ==> !eq_ignore_case(#[trigger] images@[j].name.spec_bytes(), kernel.spec_bytes()),
        decreases images@.len() - i,
    {
        let entry = images[i];
        if eq_ignore_ascii_case(entry.name.as_bytes(), k) {
            return Some(entry.image);
        }
        i = i + 1;
    }
    None
}

/// Bytes a G-stage table translates (2 TiB).
pub open spec fn guest_span_bytes() -> int {
    0x200_0000_0000
}

/// Whether every page of `[s, e)` is identity-mapped with `GUEST_FLAGS`.
pub open spec fn guest_mapped(t: RadixTable, s: int, e: int) -> bool {
    forall|i: int|
        0 <= i < (e - s) / 4096 ==> #[trigger] t.leaf(region_vpn(s, i, 2048)) == pte_bits(
            (s + i * 4096) as u64,
            GUEST_FLAGS as u64,
        )
}

/// Whether no page of `[s, e)` is mapped.
pub open spec fn guest_unmapped(t: RadixTable, s: int, e: int) -> bool {
    forall|i: int| 0 <= i < (e - s) / 4096 ==> #[trigger] t.leaf(region_vpn(s, i, 2048)) == 0
}

/// Whether `[s, e)` is a page-aligned range inside the guest span.
pub open spec fn window_ok(s: int, e: int) -> bool {
    s % 4096 == 0 && e % 4096 == 0 && 0 <= s <= e <= guest_span_bytes() && e <= usize::MAX
}

/// Whether page `v` lies in the memory window or one of the first `d`
/// device windows.
pub open spec fn in_guest_windows(v: int, base: int, size: int, devs: Seq<Device>, d: int) -> bool {
    in_region(v, base, size / 4096, 2048) || exists|k: int|
        0 <= k < d && in_region(v, (#[trigger] devs[k]).base_address as int, devs[k].size as int / 4096, 2048)
}

/// When building a guest is owed success: a non-empty memory window that
/// fits the guest span and holds the image at the entry address; device
/// windows page-aligned, inside the span, disjoint from the memory window and
/// from each other; and, once the memory window's own frames are taken out of
/// the pool, frames enough for a 16 KiB-aligned root of four frames plus two
/// table frames per page mapped.
pub open spec fn guest_fits(cfg: &VMConfig, devs: Seq<Device>, v: FrameAllocView, image_len: int) -> bool {
    let base = align_down_spec(cfg.entry as int, 4096);
    let size = align_up_spec(cfg.memory_limit as int, 4096);
    &&& 1 <= cfg.memory_limit <= usize::MAX - 4095
    &&& window_ok(base, base + size)
    &&& cfg.entry - base + image_len <= size
    &&& forall|d: int| 0 <= d < devs.len() ==> window_ok((#[trigger] devs[d]).base_address as int, devs[d].base_address + devs[d].size)
        && disjoint(base, base + size, devs[d].base_address as int, devs[d].base_address + devs[d].size)
    &&& forall|d1: int, d2: int| 0 <= d1 < d2 < devs.len() ==> disjoint((#[trigger] devs[d1]).base_address as int,
        devs[d1].base_address + devs[d1].size, (#[trigger] devs[d2]).base_address as int, devs[d2].base_address + devs[d2].size)
    &&& v.after_reserve(base, size).has_run(4, 16384)
    &&& v.after_reserve(base, size).free.len() >= 4 + 2 * (size / 4096 + window_pages(devs, 0))
}

/// Build a guest's G-stage table and memory: identity-map the memory window
/// (entry aligned down, limit aligned up) with `GUEST_FLAGS`, copy the image
/// to the entry address through the translation, then map every MMIO
/// device window the same way. The memory window's frames are first taken
/// out of the pool, so that no table is ever placed in guest memory; they
/// stay reserved for the guest. On failure the table's frames go back to
/// `alloc`. It succeeds whenever the guest fits.
#[verifier::spinoff_prover]
#[verifier::rlimit(60)]
pub fn init_guest_page_table(
    vm_config: &VMConfig,
    meta: &MachineMeta,
    alloc: &mut PhysFrameAllocator,
    image: &[u8],
) -> (r: HypervisorResult<(GuestPageTable, PhysMemWindow)>)
    requires
        old(alloc).wf(),
        old(alloc)@.base + old(alloc)@.total * 4096 <= PTE_ADDR_LIMIT as int,
    ensures
        final(alloc).wf(),
        final(alloc)@.base == old(alloc)@.base,
        final(alloc)@.total == old(alloc)@.total,
        r is Ok ==> guest_layout(vm_config, meta.virtio@, r->Ok_0.0, r->Ok_0.1, image@),
        r is Ok ==> forall|k: int| #[trigger] old(alloc)@.reserved(
            align_down_spec(vm_config.entry as int, 4096),
            align_up_spec(vm_config.memory_limit as int, 4096),
        ).contains(k) ==> !final(alloc)@.free.contains(k),
        guest_fits(vm_config, meta.virtio@, old(alloc)@, image@.len() as int) ==> r is Ok,
{
    let ghost devs = meta.virtio@;
    let ghost fits = guest_fits(vm_config, devs, alloc@, image@.len() as int);
    let ghost f0 = alloc@.free.len() as int;
    let entry = vm_config.entry;
    if vm_config.memory_limit > usize::MAX - (PAGE_SIZE_4K - 1) {
        return Err(HypervisorError::InvalidParam);
    }
    let base = align_down(entry, PAGE_SIZE_4K);
    let size = align_up(vm_config.memory_limit, PAGE_SIZE_4K);
    let pages = size / PAGE_SIZE_4K;
    proof {
        assert(pages * 4096 == size) by (nonlinear_arith)
            requires pages == size / 4096, size % 4096 == 0;
        if fits {
            assert(pages <= GUEST_SPAN_PAGES) by (nonlinear_arith)
                requires pages * 4096 == size, base + size <= 0x200_0000_0000int, base >= 0;
            lemma_window_pages_nonneg(devs, 0);
        }
    }
    if pages > GUEST_SPAN_PAGES || size > usize::MAX - base {
        return Err(HypervisorError::InvalidParam);
    }
    alloc.reserve_range(base, size);
    let ghost vr = alloc@;
    let mut gpt = match GuestPageTable::try_new(alloc) {
        Ok(t) => t,
        Err(e) => {
            proof {
                assert(FrameAllocView::valid_request(4, 16384));
                assert(alloc@ == vr);
                if fits {
                    assert(vr.has_run(4, 16384));
                    assert(e != HypervisorError::NoMemory);
                    assert(e != HypervisorError::InvalidParam);
                }
            }
            return Err(e);
        },
    };
    let ghost t0 = gpt@;
    proof {
        if fits {
            assert(alloc@.free.len() >= 2 * (pages + window_pages(devs, 0))) by {
                crate::frame::lemma_alloc_addr(vr, alloc@, 4, 16384, HostPhysAddr(gpt@.root_addr() as usize));
                let i = vr.index_of(gpt@.root_addr());
                lemma_int_range(i, i + 4);
                assert(alloc@.used == vr.used + 4);
            }
        }
    }
    let flags = PTEFlags(GUEST_FLAGS);
    match gpt.map_region(alloc, GuestPhysAddr(base), HostPhysAddr(base), pages, flags) {
        Ok(()) => {},
        Err(e) => {
            gpt.release(alloc);
            return Err(e);
        },
    }
    let ghost t1 = gpt@;
    proof {
        assert(t1.root_len() * 262144 == GUEST_SPAN_PAGES);
        assert(region_valid(base as int, base as int, pages as int));
    }
    let entry_paddr = match gpt.translate(GuestPhysAddr(entry)) {
        Ok(p) => p,
        Err(e) => {
            proof {
                if fits {
                    assert(pages >= 1) by (nonlinear_arith)
                        requires pages * 4096 == size, size >= vm_config.memory_limit, vm_config.memory_limit >= 1;
                    assert(entry / 4096 == base / 4096) by (nonlinear_arith)
                        requires base == entry - entry % 4096;
                    assert(vpn_of(entry as int, 2048) == region_vpn(base as int, 0, 2048));
                    assert(t1.leaf(region_vpn(base as int, 0, 2048)) == pte_bits((base + 0 * 4096) as u64, GUEST_FLAGS as u64));
                    lemma_pte_round_trip(base as u64, GUEST_FLAGS as u64);
                    assert((GUEST_FLAGS as u64) & 1 != 0) by (bit_vector);
                }
            }
            gpt.release(alloc);
            return Err(e);
        },
    };
    proof {
        // The entry lies in the first page of the window.
        assert(pages >= 1) by {
            if pages == 0 {
                let ve = vpn_of(entry as int, 2048);
                assert(!in_region(ve, base as int, 0, 2048));
                assert(t1.leaf(ve) == t0.leaf(ve));
                assert(!crate::pte::pte_valid(0u64)) by (bit_vector);
            }
        }
        assert(entry / 4096 == base / 4096) by (nonlinear_arith)
            requires base == entry - entry % 4096;
        assert(vpn_of(entry as int, 2048) == region_vpn(base as int, 0, 2048));
        lemma_pte_round_trip(base as u64, GUEST_FLAGS as u64);
        assert((GUEST_FLAGS as u64) & 1 != 0) by (bit_vector);
        assert(entry_paddr.0 == entry);
    }
    let mut mem = PhysMemWindow::new(base, size);
    match mem.write(entry_paddr.0, image) {
        Ok(()) => {},
        Err(e) => {
            gpt.release(alloc);
            return Err(e);
        },
    }
    proof {
        assert forall|v: int| #[trigger] gpt@.leaf(v) != 0 implies in_guest_windows(v, base as int, size as int, devs, 0) by {
            if !in_region(v, base as int, pages as int, 2048) {
                assert(gpt@.leaf(v) == t0.leaf(v));
            }
        }
        if fits {
            assert forall|k: int| 0 <= k < devs.len() implies guest_unmapped(gpt@, (#[trigger] devs[k]).base_address as int,
                devs[k].base_address + devs[k].size) by {
                lemma_disjoint_ranges_vpns(base as int, base + size, devs[k].base_address as int, devs[k].base_address + devs[k].size, 2048);
                assert forall|i: int| 0 <= i < (devs[k].base_address + devs[k].size - devs[k].base_address) / 4096
                    implies #[trigger] gpt@.leaf(region_vpn(devs[k].base_address as int, i, 2048)) == 0 by {
                    assert(!in_region(region_vpn(devs[k].base_address as int, i, 2048), base as int, (base + size - base) / 4096, 2048));
                    assert(gpt@.leaf(region_vpn(devs[k].base_address as int, i, 2048)) == t0.leaf(region_vpn(devs[k].base_address as int, i, 2048)));
                }
            }
        }
    }
    let mut d: usize = 0;
    while d < meta.virtio.len()
        invariant
            gpt.wf(),
            alloc.wf(),
            alloc@.base == old(alloc)@.base,
            alloc@.total == old(alloc)@.total,
            alloc@.base + alloc@.total * 4096 <= PTE_ADDR_LIMIT as int,
            devs == meta.virtio@,
            d <= devs.len(),
            flags == PTEFlags(GUEST_FLAGS),
            region_valid(base as int, base as int, pages as int),
            pages <= GUEST_SPAN_PAGES,
            pages * 4096 == size,
            base as int == align_down_spec(vm_config.entry as int, 4096),
            size as int == align_up_spec(vm_config.memory_limit as int, 4096),
            fits == guest_fits(vm_config, devs, old(alloc)@, image@.len() as int),
            vr == old(alloc)@.after_reserve(base as int, size as int),
            alloc@.free.subset_of(vr.free),
            guest_mapped(gpt@, base as int, base + size),
            forall|k: int| 0 <= k < d ==> guest_mapped(gpt@, (#[trigger] devs[k]).base_address as int, devs[k].base_address + devs[k].size)
                && devs[k].base_address % 4096 == 0 && devs[k].size % 4096 == 0
                && devs[k].base_address + devs[k].size <= PTE_ADDR_LIMIT as int,
            forall|v: int| #[trigger] gpt@.leaf(v) != 0 ==> in_guest_windows(v, base as int, size as int, devs, d as int),
            fits ==> alloc@.free.len() >= 2 * window_pages(devs, d as int),
            fits ==> forall|k: int| d <= k < devs.len() ==> guest_unmapped(gpt@, (#[trigger] devs[k]).base_address as int,
                devs[k].base_address + devs[k].size),
            mem@.base == base,
            mem@.bytes.len() == size,
            entry - base + image@.len() <= size,
            forall|k: int| 0 <= k < image@.len() ==> mem@.bytes[entry - base + k] == #[trigger] image@[k],
        decreases meta.virtio@.len() - d,
    {
        let dev = meta.virtio[d];
        if dev.base_address % PAGE_SIZE_4K != 0 || dev.size % PAGE_SIZE_4K != 0 || dev.size > usize::MAX - dev.base_address {
            gpt.release(alloc);
            return Err(HypervisorError::InvalidParam);
        }
        let dpages = dev.size / PAGE_SIZE_4K;
        proof {
            assert(dpages * 4096 == dev.size) by (nonlinear_arith)
                requires dpages == dev.size / 4096, dev.size % 4096 == 0;
            if fits {
                assert(window_ok(devs[d as int].base_address as int, devs[d as int].base_address + devs[d as int].size));
                assert(dpages <= GUEST_SPAN_PAGES) by (nonlinear_arith)
                    requires dpages * 4096 == dev.size, dev.base_address + dev.size <= 0x200_0000_0000int;
                assert(window_pages(devs, d as int) == dpages + window_pages(devs, d + 1));
                lemma_window_pages_nonneg(devs, d + 1);
                assert((dev.base_address + dev.size - dev.base_address) / 4096 == dpages);
            }
        }
        if dpages > GUEST_SPAN_PAGES {
            gpt.release(alloc);
            return Err(HypervisorError::InvalidParam);
        }
        let ghost g0 = gpt@;
        let ghost fb = alloc@.free.len() as int;
        assert(g0.root_len() * 262144 == GUEST_SPAN_PAGES);
        match gpt.map_region(alloc, GuestPhysAddr(dev.base_address), HostPhysAddr(dev.base_address), dpages, flags) {
            Ok(()) => {},
            Err(e) => {
                gpt.release(alloc);
                return Err(e);
            },
        }
        proof {
            lemma_region_keeps_set_leaves(g0, gpt@, fb, dev.base_address as int, dev.base_address as int, dpages as int, GUEST_FLAGS as int);
            assert((GUEST_FLAGS as u64) & 1 != 0) by (bit_vector);
            assert(region_valid(dev.base_address as int, dev.base_address as int, dpages as int));
            lemma_guest_mapped_kept(g0, gpt@, base as int, base + size);
            assert forall|k: int| 0 <= k < d + 1 implies guest_mapped(gpt@, (#[trigger] devs[k]).base_address as int, devs[k].base_address + devs[k].size)
                && devs[k].base_address % 4096 == 0 && devs[k].size % 4096 == 0
                && devs[k].base_address + devs[k].size <= PTE_ADDR_LIMIT as int by {
                if k < d {
                    lemma_guest_mapped_kept(g0, gpt@, devs[k].base_address as int, devs[k].base_address + devs[k].size);
                } else {
                    assert((devs[k].base_address + devs[k].size - devs[k].base_address) / 4096 == dpages);
                }
            }
            assert forall|v: int| #[trigger] gpt@.leaf(v) != 0 implies in_guest_windows(v, base as int, size as int, devs, d + 1) by {
                if in_region(v, dev.base_address as int, dpages as int, 2048) {
                    assert(in_region(v, devs[d as int].base_address as int, devs[d as int].size as int / 4096, 2048));
                } else {
                    assert(gpt@.leaf(v) == g0.leaf(v));
                    if !in_region(v, base as int, size as int / 4096, 2048) {
                        let k = choose|k: int| 0 <= k < d && in_region(v, (#[trigger] devs[k]).base_address as int, devs[k].size as int / 4096, 2048);
                        assert(0 <= k < d + 1);
                    }
                }
            }
            if fits {
                assert forall|k: int| d + 1 <= k < devs.len() implies guest_unmapped(gpt@, (#[trigger] devs[k]).base_address as int,
                    devs[k].base_address + devs[k].size) by {
                    assert(disjoint(devs[d as int].base_address as int, devs[d as int].base_address + devs[d as int].size,
                        devs[k].base_address as int, devs[k].base_address + devs[k].size));
                    lemma_disjoint_ranges_vpns(dev.base_address as int, dev.base_address + dev.size,
                        devs[k].base_address as int, devs[k].base_address + devs[k].size, 2048);
                    assert forall|i: int| 0 <= i < (devs[k].base_address + devs[k].size - devs[k].base_address) / 4096
                        implies #[trigger] gpt@.leaf(region_vpn(devs[k].base_address as int, i, 2048)) == 0 by {
                        assert(!in_region(region_vpn(devs[k].base_address as int, i, 2048), dev.base_address as int,
                            (dev.base_address + dev.size - dev.base_address) / 4096, 2048));
                        assert(g0.leaf(region_vpn(devs[k].base_address as int, i, 2048)) == 0);
                    }
                }
            }
        }
        d = d + 1;
    }
    Ok((gpt, mem))
}

/// A guest identity mapping survives any change that keeps every non-zero
/// leaf.
pub proof fn lemma_guest_mapped_kept(t0: RadixTable, t1: RadixTable, s: int, e: int)
    requires
        guest_mapped(t0, s, e),
        forall|v: int| t0.leaf(v) != 0 ==> #[trigger] t1.leaf(v) == t0.leaf(v),
        s % 4096 == 0,
        0 <= s <= e <= PTE_ADDR_LIMIT as int,
    ensures
        guest_mapped(t1, s, e),
{
    assert forall|i: int| 0 <= i < (e - s) / 4096 implies #[trigger] t1.leaf(region_vpn(s, i, 2048)) == pte_bits(
        (s + i * 4096) as u64, GUEST_FLAGS as u64) by {
        assert((s + i * 4096) % 4096 == 0) by (nonlinear_arith) requires s % 4096 == 0;
        assert(s + i * 4096 < e) by (nonlinear_arith) requires i < (e - s) / 4096, s <= e;
        lemma_pte_round_trip((s + i * 4096) as u64, GUEST_FLAGS as u64);
        assert((GUEST_FLAGS as u64) & 1 != 0) by (bit_vector);
        assert(t0.leaf(region_vpn(s, i, 2048)) != 0);
    }
}

/// A virtual machine: its vCPUs, its G-stage table, its kernel image and the
/// memory window backing its guest-physical memory.
pub struct VM {
    pub vm_id: usize,
    pub vcpus: Vec<VCpu>,
    pub guest_page_table: GuestPageTable,
    pub kernel_image: &'static [u8],
    pub memory: PhysMemWindow,
    pub memory_limit: usize,
    pub entry: GuestPhysAddr,
}

impl VM {
    /// Build a VM from its configuration: resolve the kernel image by name
    /// (`InvalidParam` for an unsupported kernel), build its G-stage table and
    /// memory, create `num_vcpu` vCPUs with fresh ids, and give the VM a fresh
    /// id (`NoMemory` once ids run out).
    pub fn new(
        vm_config: VMConfig,
        meta: &MachineMeta,
        alloc: &mut PhysFrameAllocator,
        images: &[KernelImage],
        vm_ids: &mut IdAllocator,
        vcpu_ids: &mut IdAllocator,
    ) -> (r: HypervisorResult<VM>)
        requires
            old(alloc).wf(),
            old(alloc)@.base + old(alloc)@.total * 4096 <= PTE_ADDR_LIMIT as int,
        ensures
            final(alloc).wf(),
            (forall|i: int|
                0 <= i < images@.len() ==> !eq_ignore_case(#[trigger] images@[i].name.spec_bytes(),
                    vm_config.kernel.spec_bytes())) ==> r == Err::<VM, HypervisorError>(HypervisorError::InvalidParam),
            r is Ok ==> ({
                let vm = r->Ok_0;
                &&& guest_layout(&vm_config, meta.virtio@, vm.guest_page_table, vm.memory, vm.kernel_image@)
                &&& exists|i: int|
                    0 <= i < images@.len() && eq_ignore_case(#[trigger] images@[i].name.spec_bytes(),
                        vm_config.kernel.spec_bytes()) && vm.kernel_image == images@[i].image
                &&& vm.vcpus@.len() == vm_config.num_vcpu
                &&& forall|k: int| 0 <= k < vm.vcpus@.len() ==> #[trigger] vm.vcpus@[k].vcpu_id
                    == old(vcpu_ids).next_id() + k
                &&& vm.vm_id == old(vm_ids).next_id()
                &&& vm.memory_limit == vm_config.memory_limit
                &&& vm.entry.0 == vm_config.entry
            }),
            ((exists|i: int| 0 <= i < images@.len() && eq_ignore_case(#[trigger] images@[i].name.spec_bytes(),
                vm_config.kernel.spec_bytes())) && (forall|i: int|
                0 <= i < images@.len() && eq_ignore_case(#[trigger] images@[i].name.spec_bytes(), vm_config.kernel.spec_bytes())
                    ==> guest_fits(&vm_config, meta.virtio@, old(alloc)@, images@[i].image@.len() as int))
                && old(vm_ids).next_id() < usize::MAX && old(vcpu_ids).next_id() + vm_config.num_vcpu <= usize::MAX)
                ==> r is Ok,
    {
        let kernel_image = match kernel_image(images, vm_config.kernel) {
            Some(img) => img,
            None => return Err(HypervisorError::InvalidParam),
        };
        let (guest_page_table, memory) = match init_guest_page_table(&vm_config, meta, alloc, kernel_image) {
            Ok(parts) => parts,
            Err(e) => return Err(e),
        };
        let ghost first = vcpu_ids.next_id();
        let mut vcpus: Vec<VCpu> = Vec::new();
        let mut k: usize = 0;
        while k < vm_config.num_vcpu
            invariant
                k <= vm_config.num_vcpu,
                vcpus@.len() == k,
                vcpu_ids.next_id() == first + k,
                first == old(vcpu_ids).next_id(),
                vm_ids.next_id() == old(vm_ids).next_id(),
                forall|j: int| 0 <= j < k ==> #[trigger] vcpus@[j].vcpu_id == first + j,
                alloc.wf(),
                guest_layout(&vm_config, meta.virtio@, guest_page_table, memory, kernel_image@),
                exists|i: int|
                    0 <= i < images@.len() && eq_ignore_case(#[trigger] images@[i].name.spec_bytes(),
                        vm_config.kernel.spec_bytes()) && kernel_image == images@[i].image,
            decreases vm_config.num_vcpu - k,
        {
            let id = match vcpu_ids.fetch_next() {
                Some(id) => id,
                None => {
                    guest_page_table.release(alloc);
                    return Err(HypervisorError::NoMemory);
                },
            };
            let ghost before = vcpus@;
            let v = VCpu::new(id);
            assert(id == first + k);
            vcpus.push(v);
            assert(vcpus@ == before.push(v));
            assert(vcpus@[k as int].vcpu_id == first + k);
            assert(forall|j: int| 0 <= j < k ==> vcpus@[j] == before[j]);
            k = k + 1;
        }
        let vm_id = match vm_ids.fetch_next() {
            Some(id) => id,
            None => {
                guest_page_table.release(alloc);
                return Err(HypervisorError::NoMemory);
            },
        };
        Ok(VM {
            vm_id,
            vcpus,
            guest_page_table,
            kernel_image,
            memory,
            memory_limit: vm_config.memory_limit,
            entry: GuestPhysAddr(vm_config.entry),
        })
    }
}

/// What a built guest looks like: the memory window is the entry aligned
/// down with the limit aligned up, every page of it and of every device
/// window is identity-mapped with `GUEST_FLAGS`, no other page is mapped,
/// and the image sits at the entry address.
pub open spec fn guest_layout(cfg: &VMConfig, devs: Seq<Device>, gpt: GuestPageTable, mem: PhysMemWindow, image: Seq<u8>) -> bool {
    let base = align_down_spec(cfg.entry as int, 4096);
    let size = align_up_spec(cfg.memory_limit as int, 4096);
    &&& gpt.wf()
    &&& mem@.base == base
    &&& mem@.bytes.len() == size
    &&& guest_mapped(gpt@, base, base + size)
    &&& forall|k: int| 0 <= k < devs.len() ==> guest_mapped(gpt@, (#[trigger] devs[k]).base_address as int, devs[k].base_address + devs[k].size)
    &&& forall|v: int| #[trigger] gpt@.leaf(v) != 0 ==> in_guest_windows(v, base, size, devs, devs.len() as int)
    &&& cfg.entry - base + image.len() <= size
    &&& forall|k: int| 0 <= k < image.len() ==> mem@.bytes[cfg.entry - base + k] == #[trigger] image[k]
}

} // verus!
