use hypercraft::csr::{Hedeleg, Hideleg, Hstatus, Hvip, Sstatus};
use hypercraft::hgatp::{Hgatp, Mode};
use hypercraft::pcpu::{hypervisor_csr_values, prepare_vcpu};
use hypercraft::sbi::{classify_sbi_call, SbiCall, SbiRet, EID_SRST, EID_TIME, LEGACY_CONSOLE_GETCHAR, LEGACY_CONSOLE_PUTCHAR, LEGACY_SHUTDOWN, TIME_SET_TIMER};
use hypercraft::scause::{Exception, Interrupt, Scause, Trap};
use hypercraft::vcpu::{GeneralPurposeRegs, GuestCsr, HypCsr, VCpu};
use hypercraft::world_switch::{vm_enter, vm_exit, HartRegs};
use hypercraft::vm_exit::{finish_hypercall, vmexit_handler, ExitDecision, FatalReason};

const ECALL_FROM_VS: usize = 10;
const LOAD_GUEST_PAGE_FAULT: usize = 21;

fn vcpu_with(a7: usize, a6: usize, a0: usize) -> VCpu {
    let mut v = VCpu::new(3);
    v.guest_cpu_state.gprs.set(17, a7);
    v.guest_cpu_state.gprs.set(16, a6);
    v.guest_cpu_state.gprs.set(10, a0);
    v.guest_cpu_state.sepc = 0x8020_0008;
    v
}

#[test]
fn shutdown_hypercall_ends_run_loop() {
    let mut v = vcpu_with(LEGACY_SHUTDOWN, 0, 0);
    let d = vmexit_handler(&v, Scause::from_bits(ECALL_FROM_VS));
    assert_eq!(d, ExitDecision::Hypercall(SbiCall::Shutdown));
    let exit = finish_hypercall(&mut v, SbiCall::Shutdown, SbiRet { error: 0, value: 0 });
    assert!(exit);
    assert_eq!(v.guest_cpu_state.sepc, 0x8020_000c);
    assert_eq!(v.guest_cpu_state.gprs.get(10), 0);
}

#[test]
fn putchar_hypercall_resumes_guest() {
    let mut v = vcpu_with(LEGACY_CONSOLE_PUTCHAR, 0, 50);
    let d = vmexit_handler(&v, Scause::from_bits(ECALL_FROM_VS));
    assert_eq!(d, ExitDecision::Hypercall(SbiCall::ConsolePutchar(50)));
    let exit = finish_hypercall(&mut v, SbiCall::ConsolePutchar(50), SbiRet { error: 0, value: 7 });
    assert!(!exit);
    assert_eq!(v.guest_cpu_state.gprs.get(10), 7);
    assert_eq!(v.guest_cpu_state.sepc, 0x8020_000c);
}

#[test]
fn timer_hypercall_returns_error_and_value() {
    let mut v = vcpu_with(EID_TIME, TIME_SET_TIMER, 12345);
    let c = classify_sbi_call(&v);
    assert_eq!(c, SbiCall::SetTimer(12345));
    assert!(!finish_hypercall(&mut v, c, SbiRet { error: 1, value: 2 }));
    assert_eq!(v.guest_cpu_state.gprs.get(10), 1);
    assert_eq!(v.guest_cpu_state.gprs.get(11), 2);
    let w = vcpu_with(EID_TIME, 4, 0);
    assert_eq!(classify_sbi_call(&w), SbiCall::UnsupportedTime(4));
    assert_eq!(classify_sbi_call(&vcpu_with(LEGACY_CONSOLE_GETCHAR, 0, 0)), SbiCall::ConsoleGetchar);
    assert_eq!(classify_sbi_call(&vcpu_with(EID_SRST, 0, 0)), SbiCall::Reset);
}

#[test]
fn unknown_trap_is_fatal() {
    let v = vcpu_with(LEGACY_SHUTDOWN, 0, 0);
    for code in [0usize, 2, 3, 8, 12, 20, 22, 23, 30] {
        let d = vmexit_handler(&v, Scause::from_bits(code));
        assert!(matches!(d, ExitDecision::Fatal(FatalReason::UnknownTrap(_))));
    }
    let timer = (1usize << 63) | 5;
    assert_eq!(
        vmexit_handler(&v, Scause::from_bits(timer)),
        ExitDecision::Fatal(FatalReason::UnknownTrap(Trap::Interrupt(Interrupt::SupervisorTimer)))
    );
}

#[test]
fn unsupported_hypercall_is_fatal() {
    let v = vcpu_with(0x1234, 0, 0);
    assert_eq!(
        vmexit_handler(&v, Scause::from_bits(ECALL_FROM_VS)),
        ExitDecision::Fatal(FatalReason::UnsupportedSbi(SbiCall::Unsupported(0x1234)))
    );
}

#[test]
fn guest_page_fault_stops_the_vcpu() {
    let v = vcpu_with(0, 0, 0);
    assert_eq!(vmexit_handler(&v, Scause::from_bits(LOAD_GUEST_PAGE_FAULT)), ExitDecision::GuestPageFault);
}

#[test]
fn sbi_ids_match_sbi_spec() {
    assert_eq!(LEGACY_CONSOLE_PUTCHAR, sbi_spec::legacy::LEGACY_CONSOLE_PUTCHAR);
    assert_eq!(LEGACY_CONSOLE_GETCHAR, sbi_spec::legacy::LEGACY_CONSOLE_GETCHAR);
    assert_eq!(LEGACY_SHUTDOWN, sbi_spec::legacy::LEGACY_SHUTDOWN);
    assert_eq!(EID_SRST, sbi_spec::srst::EID_SRST);
    assert_eq!(EID_TIME, sbi_spec::time::EID_TIME);
    assert_eq!(TIME_SET_TIMER, sbi_spec::time::SET_TIMER);
}

#[test]
fn scause_classification() {
    let s = Scause::from_bits(ECALL_FROM_VS);
    assert!(!s.is_interrupt());
    assert_eq!(s.code(), 10);
    assert_eq!(s.cause(), Trap::Exception(Exception::VirtualSupervisorEnvCall));
    assert_eq!(Exception::from(21), Exception::LoadGuestPageFault);
    assert_eq!(Exception::from(4), Exception::Unknown);
    assert_eq!(Interrupt::from(10), Interrupt::VirtualSupervisorExternal);
    assert_eq!(Interrupt::from(3), Interrupt::Unknown);
    let i = Scause::from_bits((1usize << 63) | 9);
    assert!(i.is_interrupt());
    assert_eq!(i.code(), 9);
}

#[test]
fn vcpu_preparation() {
    let mut v = VCpu::new(0);
    let h = prepare_vcpu(&mut v, 0x8020_0000, Hstatus::from_bits(0x2_0000_0000), Sstatus::from_bits(0x22), Hgatp::from_bits(0), 0x9000_4000);
    assert_eq!(v.guest_cpu_state.hstatus, 0x2_0000_0000);
    assert_eq!(v.guest_cpu_state.sstatus, 0x122);
    assert_eq!(v.guest_cpu_state.sepc, 0x8020_0000);
    assert_eq!(h.mode(), Some(Mode::Sv39x4));
    assert_eq!(h.ppn(), 0x9_0004);
    assert_eq!(h.bits(), (8usize << 60) | 0x9_0004);
}

#[test]
fn boot_csr_values() {
    let (hs, he, hi, hc, hv) = hypervisor_csr_values(
        Hstatus::from_bits(0),
        Hedeleg::from_bits(0),
        Hideleg::from_bits(0),
        Hvip::from_bits(0x444),
    );
    assert!(hs.spv() && hs.spvp() && !hs.gva());
    assert_eq!(he.bits(), (1 << 8) | (1 << 13) | (1 << 15) | (1 << 2) | (1 << 1));
    assert_eq!(hi.bits(), (1 << 6) | (1 << 10));
    assert!(hc.cycle() && hc.time() && hc.instret());
    assert_eq!(hc.bits(), 0xffff_ffff);
    assert_eq!(hv.bits(), 0);
}

#[test]
fn saved_state_offsets() {
    assert_eq!(VCpu::hyp_gpr_offset(1), 288 + 8);
    assert_eq!(VCpu::guest_gpr_offset(10), 80);
    assert_eq!(VCpu::hyp_csr_offset(HypCsr::Sscratch), 288 + 256 + 24);
    assert_eq!(VCpu::hyp_csr_offset(HypCsr::Hstatus), 288 + 256 + 32);
    assert_eq!(VCpu::guest_csr_offset(GuestCsr::Sepc), 256 + 24);
}

#[test]
fn world_switch_round_trip() {
    let mut gprs = GeneralPurposeRegs::new();
    for i in 0..32 {
        gprs.set(i, 100 + i);
    }
    let mut hart = HartRegs { gprs, sstatus: 0x8, hstatus: 0x80, scounteren: 1, sepc: 0x10, stvec: 0x20, sscratch: 0x30 };
    let before = hart;
    let mut v = VCpu::new(0);
    v.guest_cpu_state.gprs.set(10, 50);
    v.guest_cpu_state.sepc = 0x8020_0000;
    v.guest_cpu_state.sstatus = 0x100;
    v.guest_cpu_state.hstatus = 0x180;
    vm_enter(&mut hart, &mut v, 0xdead_0000, 0xbeef_0000);
    assert_eq!(hart.hstatus, 0x180);
    assert_eq!(hart.gprs.get(10), 50);
    assert_eq!(hart.sepc, 0x8020_0000);
    assert_eq!(hart.stvec, 0xdead_0000);
    assert_eq!(hart.sscratch, 0xbeef_0000);
    // the guest runs: it changes its registers and traps at a new PC
    hart.gprs.set(17, 8);
    hart.gprs.set(5, 77);
    hart.sepc = 0x8020_0010;
    vm_exit(&mut hart, &mut v);
    assert_eq!(v.guest_cpu_state.gprs.get(17), 8);
    assert_eq!(v.guest_cpu_state.gprs.get(5), 77);
    assert_eq!(v.guest_cpu_state.sepc, 0x8020_0010);
    for k in [1usize, 2, 3, 4, 8, 9, 10, 17, 27] {
        assert_eq!(hart.gprs.get(k), before.gprs.get(k));
    }
    assert_eq!(hart.sstatus, before.sstatus);
    assert_eq!(hart.hstatus, before.hstatus);
    assert_eq!(v.guest_cpu_state.hstatus, 0x180);
    assert_eq!(hart.scounteren, before.scounteren);
    assert_eq!(hart.stvec, before.stvec);
    assert_eq!(hart.sscratch, before.sscratch);
}
