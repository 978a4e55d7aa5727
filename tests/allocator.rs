use hypercraft::addr::HostPhysAddr;
use hypercraft::error::HypervisorError;
use hypercraft::frame::{init_frame_allocator, PhysFrameAllocator};
use hypercraft::dtb::MachineMeta;
use hypercraft::heap::{expand_frames, heap_expand_size, next_power_of_two};

fn pool(start: usize, size: usize) -> PhysFrameAllocator {
    let mut a = PhysFrameAllocator::new();
    a.init(HostPhysAddr::new(start), size);
    a
}

#[test]
fn init_carves_aligned_frames() {
    let a = pool(0x8040_0010, 0x10_0000);
    // start rounds up to 0x8040_1000, end rounds down to 0x8050_0000
    assert_eq!(a.total_frames(), 0xff);
    assert_eq!(a.used_frames(), 0);
    assert_eq!(a.available_frames(), 0xff);
}

#[test]
fn single_frame_comes_from_the_pool() {
    let mut a = pool(0x8040_0000, 0x4000);
    let p = a.alloc_frames(1, 0x1000).unwrap();
    assert_eq!(p, HostPhysAddr::new(0x8040_0000));
    assert_eq!(a.used_frames(), 1);
    assert_eq!(a.available_frames(), 3);
}

#[test]
fn allocations_never_overlap_and_exhaust() {
    let mut a = pool(0x8040_0000, 0x10000);
    let mut got: Vec<(usize, usize)> = Vec::new();
    for n in [1usize, 3, 2, 4, 1, 5] {
        match a.alloc_frames(n, 0x1000) {
            Ok(p) => got.push((p.as_usize(), n)),
            Err(e) => assert_eq!(e, HypervisorError::NoMemory),
        }
        assert!(a.used_frames() <= a.total_frames());
    }
    let total: usize = got.iter().map(|g| g.1).sum();
    assert_eq!(total, a.used_frames());
    for (i, x) in got.iter().enumerate() {
        for y in got.iter().skip(i + 1) {
            let (xs, xe) = (x.0, x.0 + x.1 * 0x1000);
            let (ys, ye) = (y.0, y.0 + y.1 * 0x1000);
            assert!(xe <= ys || ye <= xs);
        }
    }
    assert_eq!(a.alloc_frames(16, 0x1000), Err(HypervisorError::NoMemory));
}

#[test]
fn alignment_is_honoured() {
    let mut a = pool(0x8040_1000, 0x40000);
    let p = a.alloc_frames(4, 0x4000).unwrap();
    assert_eq!(p.as_usize() % 0x4000, 0);
    let q = a.alloc_frames(1, 0x10000).unwrap();
    assert_eq!(q.as_usize() % 0x10000, 0);
    assert_eq!(a.alloc_frames(2, 0x800), Err(HypervisorError::InvalidParam));
    assert_eq!(a.alloc_frames(0, 0x1000), Err(HypervisorError::InvalidParam));
}

#[test]
fn alloc_dealloc_round_trip_keeps_available() {
    let mut a = pool(0x8040_0000, 0x20000);
    let before = a.available_frames();
    for _ in 0..5 {
        let p = a.alloc_frames(3, 0x2000).unwrap();
        a.dealloc_frames(p, 3);
        assert_eq!(a.available_frames(), before);
    }
    let p = a.alloc_frames(2, 0x1000).unwrap();
    a.dealloc_frames(p, 2);
    a.dealloc_frames(p, 2);
    assert_eq!(a.available_frames(), before);
}

#[test]
fn init_from_machine_description() {
    let mut meta = MachineMeta::new();
    meta.phys_mem_start = 0x8000_0000;
    meta.phys_mem_size = 0x100_0000;
    let mut a = PhysFrameAllocator::new();
    assert_eq!(init_frame_allocator(&mut a, &meta, 0x8060_0123), Ok(()));
    assert_eq!(a.total_frames(), (0x8100_0000 - 0x8060_1000) / 0x1000);
    let mut b = PhysFrameAllocator::new();
    assert_eq!(init_frame_allocator(&mut b, &meta, 0x9000_0000), Err(HypervisorError::InvalidParam));
}

#[test]
fn heap_growth_size() {
    assert_eq!(next_power_of_two(0), Some(1));
    assert_eq!(next_power_of_two(5000), Some(8192));
    assert_eq!(next_power_of_two(usize::MAX), None);
    assert_eq!(heap_expand_size(0, 100), Some(4096));
    assert_eq!(heap_expand_size(8192, 100), Some(8192));
    assert_eq!(heap_expand_size(5000, 3), Some(8192));
    assert_eq!(heap_expand_size(32768, 40000), Some(65536));
    assert_eq!(expand_frames(65536), 16);
}

#[test]
fn reserved_frames_are_never_handed_out() {
    let mut a = pool(0x8000_0000, 0x10_000);
    a.reserve_range(0x8000_0000 - 0x2000, 0x4000);
    assert_eq!(a.used_frames(), 2);
    for _ in 0..14 {
        let p = a.alloc_frames(1, 0x1000).unwrap();
        assert!(p.as_usize() >= 0x8000_2000);
    }
    assert_eq!(a.alloc_frames(1, 0x1000), Err(HypervisorError::NoMemory));
}
