use crate::vcpu::{VCpu, REG_A0, REG_A1, REG_A6, REG_A7};
use vstd::prelude::*;

verus! {

/// Extension ids and function ids of the hypercalls the hypervisor serves.
pub const LEGACY_CONSOLE_PUTCHAR: usize = 1;
pub const LEGACY_CONSOLE_GETCHAR: usize = 2;
pub const LEGACY_SHUTDOWN: usize = 8;
/// "SRST": system reset extension.
pub const EID_SRST: usize = 0x5352_5354;
/// "TIME": timer extension.
pub const EID_TIME: usize = 0x5449_4d45;
/// Function id of `set_timer` in the timer extension.
pub const TIME_SET_TIMER: usize = 0;

/// A guest hypercall, decoded from its argument registers.
#[derive(Debug, Clone, Copy, PartialEq, Eq, Structural)]
pub enum SbiCall {
    /// Print one character (a0).
    ConsolePutchar(usize),
    /// Read one character.
    ConsoleGetchar,
    /// The guest asks to be shut down.
    Shutdown,
    /// The guest asks for a system reset.
    Reset,
    /// Program the next timer event (a0).
    SetTimer(u64),
    /// An extension id the hypervisor does not serve.
    Unsupported(usize),
    /// A function of the timer extension the hypervisor does not serve.
    UnsupportedTime(usize),
}

/// What the firmware answered to a forwarded call.
#[derive(Debug, Clone, Copy, PartialEq, Eq, Structural)]
pub struct SbiRet {
    pub error: usize,
    pub value: usize,
}

/// The hypercall that extension id `a7`, function id `a6` and first argument
/// `a0` name.
pub open spec fn sbi_call_of(a7: usize, a6: usize, a0: usize) -> SbiCall {
    if a7 == LEGACY_CONSOLE_PUTCHAR {
        SbiCall::ConsolePutchar(a0)
    } else if a7 == LEGACY_CONSOLE_GETCHAR {
        SbiCall::ConsoleGetchar
    } else if a7 == LEGACY_SHUTDOWN {
        SbiCall::Shutdown
    } else if a7 == EID_SRST {
        SbiCall::Reset
    } else if a7 == EID_TIME {
        if a6 == TIME_SET_TIMER {
            SbiCall::SetTimer(a0 as u64)
        } else {
            SbiCall::UnsupportedTime(a6)
        }
    } else {
        SbiCall::Unsupported(a7)
    }
}

/// Whether the hypervisor serves the call (the others are fatal).
pub open spec fn is_supported(c: SbiCall) -> bool {
    !(c is Unsupported) && !(c is UnsupportedTime)
}

/// Decode the hypercall the guest made from its a7, a6 and a0 registers.
pub fn classify_sbi_call(vcpu: &VCpu) -> (r: SbiCall)
    ensures
        r == sbi_call_of(
            vcpu.guest_cpu_state.gprs.0[REG_A7 as int],
            vcpu.guest_cpu_state.gprs.0[REG_A6 as int],
            vcpu.guest_cpu_state.gprs.0[REG_A0 as int],
        ),
{
    let a7 = vcpu.guest_cpu_state.gprs.get(REG_A7);
    let a6 = vcpu.guest_cpu_state.gprs.get(REG_A6);
    let a0 = vcpu.guest_cpu_state.gprs.get(REG_A0);
    if a7 == LEGACY_CONSOLE_PUTCHAR {
        SbiCall::ConsolePutchar(a0)
    } else if a7 == LEGACY_CONSOLE_GETCHAR {
        SbiCall::ConsoleGetchar
    } else if a7 == LEGACY_SHUTDOWN {
        SbiCall::Shutdown
    } else if a7 == EID_SRST {
        SbiCall::Reset
    } else if a7 == EID_TIME {
        if a6 == TIME_SET_TIMER {
            SbiCall::SetTimer(a0 as u64)
        } else {
            SbiCall::UnsupportedTime(a6)
        }
    } else {
        SbiCall::Unsupported(a7)
    }
}

/// The guest's a0 and a1 after a served call whose firmware answer is `ret`
/// (a legacy call answers in `ret.value`).
pub open spec fn sbi_result_regs(c: SbiCall, ret: SbiRet, a0: usize, a1: usize) -> (usize, usize) {
    match c {
        SbiCall::ConsolePutchar(_) => (ret.value, a1),
        SbiCall::ConsoleGetchar => (ret.value, a1),
        SbiCall::Shutdown => (0, a1),
        SbiCall::Reset => (0, a1),
        SbiCall::SetTimer(_) => (ret.error, ret.value),
        _ => (a0, a1),
    }
}

/// Write the outcome of a served hypercall into the guest's a0 / a1.
pub fn handle_sbi_call(vcpu: &mut VCpu, call: SbiCall, ret: SbiRet)
    ensures
        ({
            let (a0, a1) = sbi_result_regs(
                call,
                ret,
                old(vcpu).guest_cpu_state.gprs.0[REG_A0 as int],
                old(vcpu).guest_cpu_state.gprs.0[REG_A1 as int],
            );
            final(vcpu).guest_cpu_state.gprs.0@ == old(vcpu).guest_cpu_state.gprs.0@.update(
                REG_A0 as int,
                a0,
            ).update(REG_A1 as int, a1)
        }),
        final(vcpu).guest_cpu_state.sepc == old(vcpu).guest_cpu_state.sepc,
        final(vcpu).guest_cpu_state.sstatus == old(vcpu).guest_cpu_state.sstatus,
        final(vcpu).guest_cpu_state.hstatus == old(vcpu).guest_cpu_state.hstatus,
        final(vcpu).guest_cpu_state.scounteren == old(vcpu).guest_cpu_state.scounteren,
        final(vcpu).hyp_cpu_state == old(vcpu).hyp_cpu_state,
        final(vcpu).vcpu_id == old(vcpu).vcpu_id,
{
    let a0 = vcpu.guest_cpu_state.gprs.get(REG_A0);
    let a1 = vcpu.guest_cpu_state.gprs.get(REG_A1);
    let (n0, n1) = match call {
        SbiCall::ConsolePutchar(_) => (ret.value, a1),
        SbiCall::ConsoleGetchar => (ret.value, a1),
        SbiCall::Shutdown => (0, a1),
        SbiCall::Reset => (0, a1),
        SbiCall::SetTimer(_) => (ret.error, ret.value),
        _ => (a0, a1),
    };
    vcpu.guest_cpu_state.gprs.set(REG_A0, n0);
    vcpu.guest_cpu_state.gprs.set(REG_A1, n1);
    proof {
        assert(vcpu.guest_cpu_state.gprs.0@ =~= old(vcpu).guest_cpu_state.gprs.0@.update(REG_A0 as int, n0).update(
            REG_A1 as int,
            n1,
        ));
    }
}

} // verus!
