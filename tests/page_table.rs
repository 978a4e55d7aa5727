use hypercraft::addr::{GuestPhysAddr, HostPhysAddr, HostVirtAddr};
use hypercraft::console::physical_runs;
use hypercraft::dtb::{Device, MachineMeta};
use hypercraft::error::HypervisorError;
use hypercraft::frame::PhysFrameAllocator;
use hypercraft::guest_page_table::GuestPageTable;
use hypercraft::page_table::PageTable;
use hypercraft::pte::{PTEFlags, PageTableEntry, PTE_R, PTE_V, PTE_W, PTE_X};
use hypercraft::region::{map_free_memory, map_hypervisor_image, map_mmio_regions, ImageLayout};

fn pool() -> PhysFrameAllocator {
    let mut a = PhysFrameAllocator::new();
    a.init(HostPhysAddr::new(0x9000_0000), 0x40_0000);
    a
}

fn rw() -> PTEFlags {
    PTEFlags::from_bits_truncate(PTE_V | PTE_R | PTE_W)
}

#[test]
fn entry_round_trip() {
    let e = PageTableEntry::new(HostPhysAddr::new(0x8020_3000), rw());
    assert_eq!(e.ppn(), HostPhysAddr::new(0x8020_3000));
    assert_eq!(e.flags(), rw());
    assert!(e.is_valid() && e.readable() && e.writable());
    assert!(!e.executable() && !e.is_user() && !e.is_global() && !e.dirty() && !e.accessed());
    assert!(!e.is_unused());
    assert!(PageTableEntry::empty().is_unused());
    assert_eq!(e.0, (0x8020_3000u64 >> 2) | 7);
}

#[test]
fn map_then_translate_and_query() {
    let mut a = pool();
    let mut pt = PageTable::try_new(&mut a).unwrap();
    let v = HostVirtAddr::new(0x4000_5000);
    let p = HostPhysAddr::new(0x8123_4000);
    assert_eq!(pt.map(&mut a, v, p, rw()), Ok(()));
    for _ in 0..2 {
        assert_eq!(pt.translate(v), Ok(p));
        assert_eq!(pt.translate(HostVirtAddr::new(0x4000_5abc)), Ok(HostPhysAddr::new(0x8123_4abc)));
        assert_eq!(pt.query(v), Ok((p, rw())));
    }
    assert_eq!(pt.translate(HostVirtAddr::new(0x4000_6000)), Err(HypervisorError::NotMapped));
    // root, one second-level and one third-level table
    assert_eq!(a.used_frames(), 3);
}

#[test]
fn second_map_is_rejected() {
    let mut a = pool();
    let mut gpt = GuestPageTable::try_new(&mut a).unwrap();
    assert_eq!(gpt.root_paddr().as_usize() % 0x4000, 0);
    let v = GuestPhysAddr::new(0x8020_0000);
    let p = HostPhysAddr::new(0x9100_0000);
    assert_eq!(gpt.map(&mut a, v, p, rw()), Ok(()));
    assert_eq!(
        gpt.map(&mut a, v, HostPhysAddr::new(0x9200_0000), PTEFlags::from_bits_truncate(PTE_V | PTE_R)),
        Err(HypervisorError::AlreadyMapped)
    );
    assert_eq!(gpt.translate(v), Ok(p));
    assert_eq!(gpt.query_page(v), Ok((p, rw())));
    assert_eq!(gpt.query_page(GuestPhysAddr::new(0x8020_0001)), Err(HypervisorError::InvalidParam));
}

#[test]
fn misaligned_map_is_invalid() {
    let mut a = pool();
    let mut pt = PageTable::try_new(&mut a).unwrap();
    assert_eq!(
        pt.map(&mut a, HostVirtAddr::new(0x1001), HostPhysAddr::new(0x2000), rw()),
        Err(HypervisorError::InvalidParam)
    );
    assert_eq!(
        pt.map(&mut a, HostVirtAddr::new(0x1000), HostPhysAddr::new(0x2010), rw()),
        Err(HypervisorError::InvalidParam)
    );
}

#[test]
fn map_fails_without_frames() {
    let mut a = PhysFrameAllocator::new();
    a.init(HostPhysAddr::new(0x9000_0000), 0x2000);
    let mut pt = PageTable::try_new(&mut a).unwrap();
    let r = pt.map(&mut a, HostVirtAddr::new(0x1000), HostPhysAddr::new(0x2000), rw());
    assert_eq!(r, Err(HypervisorError::NoMemory));
}

#[test]
fn region_boundary() {
    let mut a = pool();
    let mut gpt = GuestPageTable::try_new(&mut a).unwrap();
    let v = 0x8000_0000usize;
    let p = 0x9080_0000usize;
    let n = 600usize;
    let flags = PTEFlags::from_bits_truncate(PTE_V | PTE_R | PTE_W | PTE_X);
    assert_eq!(gpt.map_region(&mut a, GuestPhysAddr::new(v), HostPhysAddr::new(p), n, flags), Ok(()));
    assert_eq!(gpt.translate(GuestPhysAddr::new(v)), Ok(HostPhysAddr::new(p)));
    assert_eq!(gpt.translate(GuestPhysAddr::new(v + n * 4096 - 1)), Ok(HostPhysAddr::new(p + n * 4096 - 1)));
    assert_eq!(gpt.translate(GuestPhysAddr::new(v + n * 4096)), Err(HypervisorError::NotMapped));
    // a region overlapping the first one stops at its first mapped page
    assert_eq!(
        gpt.map_region(&mut a, GuestPhysAddr::new(v - 2 * 4096), HostPhysAddr::new(p), 4, flags),
        Err(HypervisorError::AlreadyMapped)
    );
    assert_eq!(gpt.translate(GuestPhysAddr::new(v - 2 * 4096)), Ok(HostPhysAddr::new(p)));
}

#[test]
fn hypervisor_image_and_free_memory() {
    let mut a = pool();
    let mut pt = PageTable::try_new(&mut a).unwrap();
    let layout = ImageLayout {
        stext: 0x8020_0000,
        etext: 0x8020_3000,
        srodata: 0x8020_3000,
        erodata: 0x8020_4000,
        sdata: 0x8020_4000,
        edata: 0x8020_5000,
        sbss: 0x8020_5000,
        ebss: 0x8020_8000,
    };
    assert_eq!(map_hypervisor_image(&mut pt, &mut a, &layout), Ok(()));
    assert_eq!(
        pt.query(HostVirtAddr::new(0x8020_0000)),
        Ok((HostPhysAddr::new(0x8020_0000), PTEFlags::from_bits_truncate(PTE_V | PTE_R | PTE_X)))
    );
    assert_eq!(
        pt.query(HostVirtAddr::new(0x8020_3000)),
        Ok((HostPhysAddr::new(0x8020_3000), PTEFlags::from_bits_truncate(PTE_V | PTE_R)))
    );
    assert_eq!(pt.query(HostVirtAddr::new(0x8020_7000)), Ok((HostPhysAddr::new(0x8020_7000), rw())));
    let mut meta = MachineMeta::new();
    meta.phys_mem_start = 0x8000_0000;
    meta.phys_mem_size = 0x80_0000;
    assert_eq!(map_free_memory(&mut pt, &mut a, &meta, 0x8020_8001), Ok((0x8020_9000, 0x8080_0000)));
    assert_eq!(pt.translate(HostVirtAddr::new(0x8020_9001)), Ok(HostPhysAddr::new(0x8020_9001)));
    assert_eq!(pt.translate(HostVirtAddr::new(0x807f_ffff)), Ok(HostPhysAddr::new(0x807f_ffff)));
    assert_eq!(pt.translate(HostVirtAddr::new(0x8080_0000)), Err(HypervisorError::NotMapped));
    assert!(meta.push_device(Device { base_address: 0x1000_1000, size: 0x1000 }));
    assert_eq!(map_mmio_regions(&mut pt, &mut a, &meta), Ok(()));
    assert_eq!(pt.translate(HostVirtAddr::new(0x1000_1010)), Ok(HostPhysAddr::new(0x1000_1010)));
}

#[test]
fn console_runs_follow_physical_contiguity() {
    let mut a = pool();
    let mut pt = PageTable::try_new(&mut a).unwrap();
    let v = 0x5000_0000usize;
    assert_eq!(pt.map(&mut a, HostVirtAddr::new(v), HostPhysAddr::new(0x8100_0000), rw()), Ok(()));
    assert_eq!(pt.map(&mut a, HostVirtAddr::new(v + 0x1000), HostPhysAddr::new(0x8100_1000), rw()), Ok(()));
    assert_eq!(pt.map(&mut a, HostVirtAddr::new(v + 0x2000), HostPhysAddr::new(0x8300_0000), rw()), Ok(()));
    let runs = physical_runs(&pt, v + 0xff0, 0x1020).unwrap();
    assert_eq!(runs, vec![(0x8100_0ff0, 0x1010), (0x8300_0000, 0x10)]);
    assert_eq!(physical_runs(&pt, v + 0x2ff0, 0x20), Err(HypervisorError::NotMapped));
    assert_eq!(physical_runs(&pt, v, 0), Ok(vec![]));
}

#[test]
fn release_returns_every_frame() {
    let mut a = pool();
    let before = a.available_frames();
    let mut gpt = GuestPageTable::try_new(&mut a).unwrap();
    assert_eq!(gpt.map(&mut a, GuestPhysAddr::new(0x1000), HostPhysAddr::new(0x2000), rw()), Ok(()));
    assert_eq!(a.available_frames(), before - 6);
    let frames = gpt.table_frames();
    assert_eq!(frames.len(), 3);
    assert_eq!(frames[0].0, gpt.root_paddr().as_usize());
    assert_eq!(frames[0].1.len(), 2048);
    let leaf = frames[2].1[1];
    assert_eq!(leaf, (0x2000u64 >> 2) | (PTE_V | PTE_R | PTE_W) as u64);
    assert_eq!(frames[0].1[0], ((frames[1].0 as u64) >> 2) | 1);
    assert_eq!(frames[1].1[0], ((frames[2].0 as u64) >> 2) | 1);
    gpt.release(&mut a);
    assert_eq!(a.available_frames(), before);
}

#[test]
fn misaligned_image_section_is_refused_untouched() {
    let mut a = pool();
    let mut pt = PageTable::try_new(&mut a).unwrap();
    let used = a.used_frames();
    let layout = ImageLayout {
        stext: 0x8020_0000,
        etext: 0x8020_3000,
        srodata: 0x8020_3000,
        erodata: 0x8020_4000,
        sdata: 0x8020_4000,
        edata: 0x8020_4800,
        sbss: 0x8020_5000,
        ebss: 0x8020_8000,
    };
    assert_eq!(map_hypervisor_image(&mut pt, &mut a, &layout), Err(HypervisorError::InvalidParam));
    assert_eq!(pt.translate(HostVirtAddr::new(0x8020_0000)), Err(HypervisorError::NotMapped));
    assert_eq!(a.used_frames(), used);
}

#[test]
fn misaligned_device_window_is_refused_untouched() {
    let mut a = pool();
    let mut pt = PageTable::try_new(&mut a).unwrap();
    let mut meta = MachineMeta::new();
    assert!(meta.push_device(Device { base_address: 0x1000_1000, size: 0x1000 }));
    assert!(meta.push_device(Device { base_address: 0x1000_8000, size: 0x800 }));
    assert_eq!(map_mmio_regions(&mut pt, &mut a, &meta), Err(HypervisorError::InvalidParam));
    assert_eq!(pt.translate(HostVirtAddr::new(0x1000_1000)), Err(HypervisorError::NotMapped));
}

#[test]
fn empty_free_memory_is_refused() {
    let mut a = pool();
    let mut pt = PageTable::try_new(&mut a).unwrap();
    let mut meta = MachineMeta::new();
    meta.phys_mem_start = 0x8000_0000;
    meta.phys_mem_size = 0x10_0000;
    assert_eq!(map_free_memory(&mut pt, &mut a, &meta, 0x8020_0000), Err(HypervisorError::InvalidParam));
}

#[test]
fn rejected_map_takes_no_frame() {
    let mut a = pool();
    let mut gpt = GuestPageTable::try_new(&mut a).unwrap();
    let v = GuestPhysAddr::new(0x4000_0000);
    assert_eq!(gpt.map(&mut a, v, HostPhysAddr::new(0x9100_0000), rw()), Ok(()));
    let used = a.used_frames();
    assert_eq!(gpt.map(&mut a, v, HostPhysAddr::new(0x9200_0000), rw()), Err(HypervisorError::AlreadyMapped));
    assert_eq!(a.used_frames(), used);
}

#[test]
fn region_stops_at_first_mapped_page() {
    let mut a = pool();
    let mut pt = PageTable::try_new(&mut a).unwrap();
    let v = 0x6000_0000usize;
    assert_eq!(pt.map(&mut a, HostVirtAddr::new(v + 2 * 4096), HostPhysAddr::new(0x7000_0000), rw()), Ok(()));
    let r = pt.map_region(&mut a, HostVirtAddr::new(v), HostPhysAddr::new(0x8000_0000), 4, rw());
    assert_eq!(r, Err(HypervisorError::AlreadyMapped));
    assert_eq!(pt.translate(HostVirtAddr::new(v)), Ok(HostPhysAddr::new(0x8000_0000)));
    assert_eq!(pt.translate(HostVirtAddr::new(v + 4096)), Ok(HostPhysAddr::new(0x8000_1000)));
    assert_eq!(pt.translate(HostVirtAddr::new(v + 2 * 4096)), Ok(HostPhysAddr::new(0x7000_0000)));
    assert_eq!(pt.translate(HostVirtAddr::new(v + 3 * 4096)), Err(HypervisorError::NotMapped));
}
