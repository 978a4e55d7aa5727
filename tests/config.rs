use hypercraft::addr::{align_down, align_offset, align_up, is_aligned, HostPhysAddr};
use hypercraft::bits::{get_bits, set_bits};
use hypercraft::csr::{Hcounteren, Hvip};
use hypercraft::hgatp::{Hgatp, Mode};
use hypercraft::percpu::percpu_ptr;
use hypercraft::vconfig::{parse_entry, parse_memory_limit, parse_unsigned};
use bit_field::BitField;

#[test]
fn memory_limits() {
    assert_eq!(parse_memory_limit("2M"), Some(2 * 1024 * 1024));
    assert_eq!(parse_memory_limit(" 128m "), Some(128 * 1024 * 1024));
    assert_eq!(parse_memory_limit("1G"), Some(1024 * 1024 * 1024));
    assert_eq!(parse_memory_limit("3MM"), Some(3 * 1024 * 1024));
    assert_eq!(parse_memory_limit("+4M"), Some(4 * 1024 * 1024));
    assert_eq!(parse_memory_limit("5K"), None);
    assert_eq!(parse_memory_limit("M"), None);
    assert_eq!(parse_memory_limit(""), None);
    assert_eq!(parse_memory_limit("1x2M"), None);
    assert_eq!(parse_memory_limit("99999999999999999999G"), None);
}

#[test]
fn entry_addresses() {
    assert_eq!(parse_entry("0x80200000"), Some(0x8020_0000));
    assert_eq!(parse_entry("0X8020_0000"), Some(0x8020_0000));
    assert_eq!(parse_entry("80_20_00_00"), Some(0x8020_0000));
    assert_eq!(parse_entry("0xdeadBEEF"), Some(0xdead_beef));
    assert_eq!(parse_entry("0x"), None);
    assert_eq!(parse_entry("0xg0"), None);
    assert_eq!(parse_entry("0x1_0000_0000_0000_0000"), None);
}

#[test]
fn unsigned_numbers() {
    assert_eq!(parse_unsigned(b"42", 10), Some(42));
    assert_eq!(parse_unsigned(b"+7", 10), Some(7));
    assert_eq!(parse_unsigned(b"+", 10), None);
    assert_eq!(parse_unsigned(b"ff", 10), None);
    assert_eq!(parse_unsigned(b"ff", 16), Some(255));
    assert_eq!(parse_unsigned(b"18446744073709551615", 10), Some(usize::MAX));
    assert_eq!(parse_unsigned(b"18446744073709551616", 10), None);
}

#[test]
fn alignment_helpers() {
    assert_eq!(align_up(0x1001, 0x1000), 0x2000);
    assert_eq!(align_up(0x2000, 0x1000), 0x2000);
    assert_eq!(align_down(0x1fff, 0x1000), 0x1000);
    assert_eq!(align_offset(0x1234, 0x1000), 0x234);
    assert!(is_aligned(0x3000, 0x1000));
    assert!(!is_aligned(0x3001, 0x1000));
    let a = HostPhysAddr::new(0x1801);
    assert_eq!(a.align_up(0x800), HostPhysAddr::new(0x2000));
    assert_eq!(a.align_down(0x800), HostPhysAddr::new(0x1800));
    assert!(!a.is_aligned(0x800));
    assert_eq!(HostPhysAddr::from(5usize).as_usize(), 5);
}

#[test]
fn register_fields_agree_with_bit_field() {
    let x: u64 = 0x1234_5678_9abc_def0;
    assert_eq!(get_bits(x, 44, 58), x.get_bits(44..58));
    assert_eq!(set_bits(x, 44, 58, 0x155), *x.clone().set_bits(44..58, 0x155));
    let mut h = Hgatp::from_bits(0);
    h.set_vmid(0x3fff);
    h.set_ppn(0xfff_ffff_ffff);
    h.set_mode(Mode::Sv48x4);
    assert_eq!(h.vmid(), 0x3fff);
    assert_eq!(h.ppn(), 0xfff_ffff_ffff);
    assert_eq!(h.mode(), Some(Mode::Sv48x4));
    assert_eq!(Hgatp::from_bits(3usize << 60).mode(), None);
    assert_eq!(Mode::from_code(8), Some(Mode::Sv39x4));
    assert_eq!(Mode::Bare.code(), 0);
    let mut v = Hvip::from_bits(0);
    v.set_vs_timer_interrupt(true);
    assert_eq!(v.bits(), 1 << 6);
    assert!(v.vs_timer_interrupt() && !v.vs_software_interrupt() && !v.vs_external_interrupt());
    let mut c = Hcounteren::from_bits(7);
    c.set_time(false);
    assert_eq!(c.bits(), 5);
}

#[test]
fn percpu_slots() {
    assert_eq!(percpu_ptr(0x1000, 3, 0x20), Some(0x1060));
    assert_eq!(percpu_ptr(usize::MAX - 1, 1, 2), None);
}
