use hypercraft::addr::{GuestPhysAddr, HostPhysAddr};
use hypercraft::dtb::{Device, MachineMeta};
use hypercraft::error::HypervisorError;
use hypercraft::frame::PhysFrameAllocator;
use hypercraft::pcpu::{bind_vcpu_to_pcpu, bind_vcpus, init_pcpus, vcpu_pairs, PCpu};
use hypercraft::vcpu::IdAllocator;
use hypercraft::vm::{eq_ignore_ascii_case, kernel_image, vm_config_from_fields, KernelImage, VM};

const IMAGE: [u8; 64] = [
    0x13, 0x05, 0x20, 0x03, 0x93, 0x08, 0x10, 0x00, 0x73, 0x00, 0x00, 0x00, 0x93, 0x08, 0x80, 0x00,
    0x73, 0x00, 0x00, 0x00, 0x01, 0x02, 0x03, 0x04, 0x05, 0x06, 0x07, 0x08, 0x09, 0x0a, 0x0b, 0x0c,
    0x0d, 0x0e, 0x0f, 0x10, 0x11, 0x12, 0x13, 0x14, 0x15, 0x16, 0x17, 0x18, 0x19, 0x1a, 0x1b, 0x1c,
    0x1d, 0x1e, 0x1f, 0x20, 0x21, 0x22, 0x23, 0x24, 0x25, 0x26, 0x27, 0x28, 0x29, 0x2a, 0x2b, 0x2c,
];
const OTHER: [u8; 4] = [1, 2, 3, 4];

fn images() -> [KernelImage; 2] {
    [
        KernelImage { name: "rCore-Tutorial-v3", image: &OTHER },
        KernelImage { name: "hello-world", image: &IMAGE },
    ]
}

fn pool() -> PhysFrameAllocator {
    let mut a = PhysFrameAllocator::new();
    a.init(HostPhysAddr::new(0x9000_0000), 0x40_0000);
    a
}

#[test]
fn guest_bring_up() {
    let mut a = pool();
    let cfg = vm_config_from_fields("guest0", "Hello-World", "2M", 1, "0x80200000").unwrap();
    let meta = MachineMeta::new();
    let imgs = images();
    let mut vm_ids = IdAllocator::new();
    let mut vcpu_ids = IdAllocator::new();
    let vm = VM::new(cfg, &meta, &mut a, &imgs, &mut vm_ids, &mut vcpu_ids).unwrap();
    let base = 0x8020_0000usize;
    let size = 2 * 1024 * 1024;
    let mut mapped = 0;
    for i in 0..1024usize {
        let v = base - 256 * 4096 + i * 4096;
        if vm.guest_page_table.translate(GuestPhysAddr::new(v)).is_ok() {
            assert!(v >= base && v < base + size);
            mapped += 1;
        }
    }
    assert_eq!(mapped, 512);
    assert_eq!(vm.guest_page_table.translate(GuestPhysAddr::new(base + size - 1)), Ok(HostPhysAddr::new(base + size - 1)));
    assert_eq!(vm.guest_page_table.translate(GuestPhysAddr::new(base + size)), Err(HypervisorError::NotMapped));
    for k in 0..64 {
        assert_eq!(vm.memory.read_byte(base + k), Some(IMAGE[k]));
    }
    assert_eq!(vm.memory.read_byte(base + 64), Some(0));
    assert_eq!(vm.memory.base(), base);
    assert_eq!(vm.memory.len(), size);
    assert_eq!(vm.kernel_image, &IMAGE[..]);
    assert_eq!(vm.vcpus.len(), 1);
    assert_eq!(vm.vcpus[0].vcpu_id, 0);
    assert_eq!(vm.vm_id, 0);
    assert_eq!(vm.entry, GuestPhysAddr::new(base));
}

#[test]
fn guest_mmio_is_mapped() {
    let mut a = pool();
    let cfg = vm_config_from_fields("g", "hello-world", "1M", 2, "0x8020_0000").unwrap();
    let mut meta = MachineMeta::new();
    assert!(meta.push_device(Device { base_address: 0x1000_1000, size: 0x2000 }));
    let imgs = images();
    let mut vm_ids = IdAllocator::new();
    let mut vcpu_ids = IdAllocator::new();
    let vm = VM::new(cfg, &meta, &mut a, &imgs, &mut vm_ids, &mut vcpu_ids).unwrap();
    assert_eq!(vm.guest_page_table.translate(GuestPhysAddr::new(0x1000_2ff8)), Ok(HostPhysAddr::new(0x1000_2ff8)));
    assert_eq!(vm.vcpus.len(), 2);
    assert_eq!(vm.vcpus[1].vcpu_id, 1);
}

#[test]
fn unsupported_kernel_is_refused() {
    let mut a = pool();
    let cfg = vm_config_from_fields("g", "linux", "2M", 1, "0x80200000").unwrap();
    let meta = MachineMeta::new();
    let imgs = images();
    let mut vm_ids = IdAllocator::new();
    let mut vcpu_ids = IdAllocator::new();
    let r = VM::new(cfg, &meta, &mut a, &imgs, &mut vm_ids, &mut vcpu_ids);
    assert!(matches!(r, Err(HypervisorError::InvalidParam)));
}

#[test]
fn empty_memory_window_is_refused() {
    let mut a = pool();
    let before = a.available_frames();
    let cfg = vm_config_from_fields("g", "hello-world", "0M", 1, "0x80200000").unwrap();
    let meta = MachineMeta::new();
    let imgs = images();
    let mut vm_ids = IdAllocator::new();
    let mut vcpu_ids = IdAllocator::new();
    let r = VM::new(cfg, &meta, &mut a, &imgs, &mut vm_ids, &mut vcpu_ids);
    assert!(matches!(r, Err(HypervisorError::NotMapped)));
    assert_eq!(a.available_frames(), before);
}

#[test]
fn kernel_lookup_ignores_case() {
    let imgs = images();
    assert_eq!(kernel_image(&imgs, "HELLO-WORLD"), Some(&IMAGE[..]));
    assert_eq!(kernel_image(&imgs, "rcore-tutorial-v3"), Some(&OTHER[..]));
    assert_eq!(kernel_image(&imgs, "hello"), None);
    assert!(eq_ignore_ascii_case(b"AbC", b"aBc"));
    assert!(!eq_ignore_ascii_case(b"abc", b"abd"));
}

#[test]
fn ids_are_monotonic() {
    let mut ids = IdAllocator::new();
    assert_eq!(ids.fetch_next(), Some(0));
    assert_eq!(ids.fetch_next(), Some(1));
    assert_eq!(ids.fetch_next(), Some(2));
}

#[test]
fn vcpus_bind_round_robin() {
    let mut a = pool();
    let mut pcpus: Vec<PCpu> = init_pcpus(&mut a, 0, 2).unwrap();
    assert_eq!(pcpus.len(), 2);
    assert_eq!(pcpus[1].hart_id, 1);
    let (t0, t1) = (pcpus[0].stack_top.as_usize(), pcpus[1].stack_top.as_usize());
    assert_eq!(t0 % 4096, 0);
    assert!(t0 + 0x4000 <= t1 || t1 + 0x4000 <= t0);
    let pairs = vec![(0usize, 0usize), (0, 1), (1, 2)];
    assert_eq!(bind_vcpus(&pairs, &mut pcpus), Ok(()));
    assert_eq!(pcpus[0].vcpus, vec![(0, 0), (1, 2)]);
    assert_eq!(pcpus[1].vcpus, vec![(0, 1)]);
    assert_eq!(bind_vcpu_to_pcpu(&mut pcpus, 0, 1, 1), Err(HypervisorError::InvalidParam));
    assert_eq!(bind_vcpu_to_pcpu(&mut pcpus, 0, 3, 5), Err(HypervisorError::InvalidParam));
    assert!(matches!(init_pcpus(&mut a, 1, 1), Err(HypervisorError::InvalidParam)));
}

#[test]
fn pairs_of_built_vms() {
    let mut a = pool();
    let cfg = vm_config_from_fields("g", "hello-world", "1M", 2, "0x80200000").unwrap();
    let meta = MachineMeta::new();
    let imgs = images();
    let mut vm_ids = IdAllocator::new();
    let mut vcpu_ids = IdAllocator::new();
    let vm = VM::new(cfg, &meta, &mut a, &imgs, &mut vm_ids, &mut vcpu_ids).unwrap();
    let vms = vec![vm];
    assert_eq!(vcpu_pairs(&vms), vec![(0, 0), (0, 1)]);
}

#[test]
fn guest_window_in_the_pool_is_reserved() {
    let mut a = PhysFrameAllocator::new();
    a.init(HostPhysAddr::new(0x8000_0000), 0x80_0000);
    let cfg = vm_config_from_fields("g", "hello-world", "2M", 1, "0x80200000").unwrap();
    let meta = MachineMeta::new();
    let imgs = images();
    let mut vm_ids = IdAllocator::new();
    let mut vcpu_ids = IdAllocator::new();
    let vm = VM::new(cfg, &meta, &mut a, &imgs, &mut vm_ids, &mut vcpu_ids).unwrap();
    let frames = vm.guest_page_table.table_frames();
    for (paddr, _) in frames.iter() {
        assert!(*paddr < 0x8020_0000 || *paddr >= 0x8040_0000);
    }
    assert!(a.used_frames() >= 512);
}
