use crate::scause::{trap_of, Exception, Scause, Trap};
use crate::sbi::{classify_sbi_call, handle_sbi_call, is_supported, sbi_call_of, sbi_result_regs, SbiCall, SbiRet, LEGACY_SHUTDOWN};
use crate::vcpu::{VCpu, REG_A0, REG_A1, REG_A6, REG_A7};
use vstd::prelude::*;

verus! {

/// Why the hypervisor must halt.
#[derive(Debug, Clone, Copy, PartialEq, Eq, Structural)]
pub enum FatalReason {
    /// The guest left with a trap cause the hypervisor does not handle.
    UnknownTrap(Trap),
    /// The guest made a hypercall the hypervisor does not serve.
    UnsupportedSbi(SbiCall),
}

/// What to do about a guest exit.
#[derive(Debug, Clone, Copy, PartialEq, Eq, Structural)]
pub enum ExitDecision {
    /// Forward the hypercall to the firmware, then call `finish_hypercall`.
    Hypercall(SbiCall),
    /// A guest page fault: record it and stop running this vCPU.
    GuestPageFault,
    /// Halt the system.
    Fatal(FatalReason),
}

/// The decision for an exit with cause value `cause` and guest registers
/// a7, a6, a0.
pub open spec fn exit_decision(cause: u64, a7: usize, a6: usize, a0: usize) -> ExitDecision {
    match trap_of(cause) {
        Trap::Exception(Exception::VirtualSupervisorEnvCall) => {
            let c = sbi_call_of(a7, a6, a0);
            if is_supported(c) {
                ExitDecision::Hypercall(c)
            } else {
                ExitDecision::Fatal(FatalReason::UnsupportedSbi(c))
            }
        },
        Trap::Exception(Exception::LoadGuestPageFault) => ExitDecision::GuestPageFault,
        t => ExitDecision::Fatal(FatalReason::UnknownTrap(t)),
    }
}

/// Classify a guest exit from the trap cause register and the guest's
/// registers.
pub fn vmexit_handler(vcpu: &VCpu, scause: Scause) -> (r: ExitDecision)
    ensures
        r == exit_decision(
            scause.bits,
            vcpu.guest_cpu_state.gprs.0[REG_A7 as int],
            vcpu.guest_cpu_state.gprs.0[REG_A6 as int],
            vcpu.guest_cpu_state.gprs.0[REG_A0 as int],
        ),
        trap_of(scause.bits) != Trap::Exception(Exception::VirtualSupervisorEnvCall) && trap_of(
            scause.bits,
        ) != Trap::Exception(Exception::LoadGuestPageFault) ==> r is Fatal,
{
    match scause.cause() {
        Trap::Exception(Exception::VirtualSupervisorEnvCall) => {
            let c = classify_sbi_call(vcpu);
            match c {
                SbiCall::Unsupported(_) => ExitDecision::Fatal(FatalReason::UnsupportedSbi(c)),
                SbiCall::UnsupportedTime(_) => ExitDecision::Fatal(FatalReason::UnsupportedSbi(c)),
                _ => ExitDecision::Hypercall(c),
            }
        },
        Trap::Exception(Exception::LoadGuestPageFault) => ExitDecision::GuestPageFault,
        t => ExitDecision::Fatal(FatalReason::UnknownTrap(t)),
    }
}

/// Finish a served hypercall: write its result registers, step the guest
/// past the 4-byte `ecall`, and say whether the run loop ends (it does
/// exactly for a shutdown request).
pub fn finish_hypercall(vcpu: &mut VCpu, call: SbiCall, ret: SbiRet) -> (exit: bool)
    ensures
        exit == (call == SbiCall::Shutdown),
        final(vcpu).guest_cpu_state.sepc == old(vcpu).guest_cpu_state.sepc.wrapping_add(4),
        ({
            let (a0, a1) = sbi_result_regs(
                call,
                ret,
                old(vcpu).guest_cpu_state.gprs.0[REG_A0 as int],
                old(vcpu).guest_cpu_state.gprs.0[REG_A1 as int],
            );
            final(vcpu).guest_cpu_state.gprs.0@ == old(vcpu).guest_cpu_state.gprs.0@.update(
                REG_A0 as int,
                a0,
            ).update(REG_A1 as int, a1)
        }),
        final(vcpu).hyp_cpu_state == old(vcpu).hyp_cpu_state,
{
    handle_sbi_call(vcpu, call, ret);
    vcpu.guest_cpu_state.sepc = vcpu.guest_cpu_state.sepc.wrapping_add(4);
    match call {
        SbiCall::Shutdown => true,
        _ => false,
    }
}

/// A supervisor environment call from the guest with the legacy shutdown id
/// in a7 is served as a shutdown, and finishing it ends the run loop rather
/// than re-entering the guest.
pub proof fn lemma_shutdown_ends_run_loop(cause: u64, a7: usize, a6: usize, a0: usize)
    requires
        trap_of(cause) == Trap::Exception(Exception::VirtualSupervisorEnvCall),
        a7 == LEGACY_SHUTDOWN,
    ensures
        exit_decision(cause, a7, a6, a0) == ExitDecision::Hypercall(SbiCall::Shutdown),
{
}

/// An exit whose cause is neither a supervisor environment call nor a guest
/// load page fault always takes the fatal path, never a re-entry.
pub proof fn lemma_unknown_trap_is_fatal(cause: u64, a7: usize, a6: usize, a0: usize)
    requires
        trap_of(cause) != Trap::Exception(Exception::VirtualSupervisorEnvCall),
        trap_of(cause) != Trap::Exception(Exception::LoadGuestPageFault),
    ensures
        exit_decision(cause, a7, a6, a0) == ExitDecision::Fatal(FatalReason::UnknownTrap(trap_of(cause))),
{
}

} // verus!
