use vstd::prelude::*;

verus! {

/// Number of general-purpose registers.
pub const NUM_GPRS: usize = 32;
/// Register numbers of the argument registers the hypercall ABI uses.
pub const REG_A0: usize = 10;
pub const REG_A1: usize = 11;
pub const REG_A6: usize = 16;
pub const REG_A7: usize = 17;

/// Bytes of one saved register.
pub const REG_BYTES: usize = 8;
/// Layout of the saved-state block, in bytes: the guest half (32 registers,
/// then four control registers), then the hypervisor half (32 registers, then
/// five control registers), then the vCPU id. The assembly
/// that performs the world switch uses these offsets, and its build checks
/// them against the structs.
pub const VCPU_HYP_STATE_OFFSET: usize = 288;
pub const CPU_STATE_CSR_OFFSET: usize = 256;
pub const HYP_STATE_SIZE: usize = 296;
pub const CPU_STATE_SIZE: usize = 288;
pub const VCPU_GUEST_STATE_OFFSET: usize = 0;

/// The 32 general-purpose registers, x0 to x31.
#[derive(Debug, Clone, Copy)]
pub struct GeneralPurposeRegs(pub [usize; 32]);

impl GeneralPurposeRegs {
    /// All registers zero.
    pub fn new() -> (r: Self)
        ensures
            forall|i: int| 0 <= i < 32 ==> r.0[i] == 0,
    {
        GeneralPurposeRegs([0usize; 32])
    }

    pub fn get(&self, index: usize) -> (r: usize)
        requires
            index < NUM_GPRS,
        ensures
            r == self.0[index as int],
    {
        self.0[index]
    }

    pub fn set(&mut self, index: usize, val: usize)
        requires
            index < NUM_GPRS,
        ensures
            final(self).0@ == old(self).0@.update(index as int, val),
    {
        self.0[index] = val;
    }
}

/// Guest register state as the guest last left it.
#[derive(Debug, Clone, Copy)]
pub struct GuestCpuState {
    pub gprs: GeneralPurposeRegs,
    pub sstatus: usize,
    pub hstatus: usize,
    pub scounteren: usize,
    pub sepc: usize,
}

/// Hypervisor register state to restore when the guest exits.
#[derive(Debug, Clone, Copy)]
pub struct HypervisorCpuState {
    pub gprs: GeneralPurposeRegs,
    pub sstatus: usize,
    pub scounteren: usize,
    pub stvec: usize,
    pub sscratch: usize,
    pub hstatus: usize,
}

impl GuestCpuState {
    pub fn new() -> (r: Self)
        ensures
            forall|i: int| 0 <= i < 32 ==> r.gprs.0[i] == 0,
            r.sstatus == 0 && r.hstatus == 0 && r.scounteren == 0 && r.sepc == 0,
    {
        GuestCpuState { gprs: GeneralPurposeRegs::new(), sstatus: 0, hstatus: 0, scounteren: 0, sepc: 0 }
    }
}

impl HypervisorCpuState {
    pub fn new() -> (r: Self)
        ensures
            forall|i: int| 0 <= i < 32 ==> r.gprs.0[i] == 0,
            r.sstatus == 0 && r.scounteren == 0 && r.stvec == 0 && r.sscratch == 0 && r.hstatus == 0,
    {
        HypervisorCpuState {
            gprs: GeneralPurposeRegs::new(),
            sstatus: 0,
            scounteren: 0,
            stvec: 0,
            sscratch: 0,
            hstatus: 0,
        }
    }
}

/// Control registers of the guest half, in layout order.
#[derive(Debug, Clone, Copy, PartialEq, Eq, Structural)]
pub enum GuestCsr {
    Sstatus,
    Hstatus,
    Scounteren,
    Sepc,
}

/// Control registers of the hypervisor half, in layout order.
#[derive(Debug, Clone, Copy, PartialEq, Eq, Structural)]
pub enum HypCsr {
    Sstatus,
    Scounteren,
    Stvec,
    Sscratch,
    Hstatus,
}

pub open spec fn guest_csr_slot(c: GuestCsr) -> int {
    match c {
        GuestCsr::Sstatus => 0,
        GuestCsr::Hstatus => 1,
        GuestCsr::Scounteren => 2,
        GuestCsr::Sepc => 3,
    }
}

pub open spec fn hyp_csr_slot(c: HypCsr) -> int {
    match c {
        HypCsr::Sstatus => 0,
        HypCsr::Scounteren => 1,
        HypCsr::Stvec => 2,
        HypCsr::Sscratch => 3,
        HypCsr::Hstatus => 4,
    }
}

/// A virtual CPU: its id and the two register-state halves exchanged on every
/// world switch.
#[derive(Debug, Clone, Copy)]
pub struct VCpu {
    pub guest_cpu_state: GuestCpuState,
    pub hyp_cpu_state: HypervisorCpuState,
    pub vcpu_id: usize,
}

impl VCpu {
    /// A vCPU with the given id and all registers zero.
    pub fn new(vcpu_id: usize) -> (r: Self)
        ensures
            r.vcpu_id == vcpu_id,
            forall|i: int| 0 <= i < 32 ==> r.guest_cpu_state.gprs.0[i] == 0,
            forall|i: int| 0 <= i < 32 ==> r.hyp_cpu_state.gprs.0[i] == 0,
            r.guest_cpu_state.sstatus == 0 && r.guest_cpu_state.hstatus == 0 && r.guest_cpu_state.scounteren == 0
                && r.guest_cpu_state.sepc == 0,
            r.hyp_cpu_state.sstatus == 0 && r.hyp_cpu_state.scounteren == 0 && r.hyp_cpu_state.stvec == 0
                && r.hyp_cpu_state.sscratch == 0 && r.hyp_cpu_state.hstatus == 0,
    {
        VCpu {
            guest_cpu_state: GuestCpuState::new(),
            hyp_cpu_state: HypervisorCpuState::new(),
            vcpu_id,
        }
    }

    /// Byte offset of hypervisor register `index` in the saved-state block.
    pub fn hyp_gpr_offset(index: usize) -> (r: usize)
        requires
            index < NUM_GPRS,
        ensures
            r == VCPU_HYP_STATE_OFFSET + index * REG_BYTES,
    {
        VCPU_HYP_STATE_OFFSET + index * REG_BYTES
    }

    /// Byte offset of guest register `index` in the saved-state block.
    pub fn guest_gpr_offset(index: usize) -> (r: usize)
        requires
            index < NUM_GPRS,
        ensures
            r == VCPU_GUEST_STATE_OFFSET + index * REG_BYTES,
    {
        VCPU_GUEST_STATE_OFFSET + index * REG_BYTES
    }

    /// Byte offset of a hypervisor control register in the saved-state block.
    pub fn hyp_csr_offset(reg: HypCsr) -> (r: usize)
        ensures
            r == VCPU_HYP_STATE_OFFSET + CPU_STATE_CSR_OFFSET + hyp_csr_slot(reg) * REG_BYTES,
    {
        let slot: usize = match reg {
            HypCsr::Sstatus => 0,
            HypCsr::Scounteren => 1,
            HypCsr::Stvec => 2,
            HypCsr::Sscratch => 3,
            HypCsr::Hstatus => 4,
        };
        VCPU_HYP_STATE_OFFSET + CPU_STATE_CSR_OFFSET + slot * REG_BYTES
    }

    /// Byte offset of a guest control register in the saved-state block.
    pub fn guest_csr_offset(reg: GuestCsr) -> (r: usize)
        ensures
            r == VCPU_GUEST_STATE_OFFSET + CPU_STATE_CSR_OFFSET + guest_csr_slot(reg) * REG_BYTES,
    {
        let slot: usize = match reg {
            GuestCsr::Sstatus => 0,
            GuestCsr::Hstatus => 1,
            GuestCsr::Scounteren => 2,
            GuestCsr::Sepc => 3,
        };
        VCPU_GUEST_STATE_OFFSET + CPU_STATE_CSR_OFFSET + slot * REG_BYTES
    }
}

/// Hands out process-unique identifiers in increasing order.
pub struct IdAllocator {
    next: usize,
}

impl IdAllocator {
    pub closed spec fn next_id(&self) -> nat {
        self.next as nat
    }

    pub fn new() -> (r: Self)
        ensures
            r.next_id() == 0,
    {
        IdAllocator { next: 0 }
    }

    /// The next identifier, or `None` once every `usize` has been handed out.
    pub fn fetch_next(&mut self) -> (r: Option<usize>)
        ensures
            old(self).next_id() < usize::MAX ==> r == Some(old(self).next_id() as usize)
                && final(self).next_id() == old(self).next_id() + 1,
            old(self).next_id() >= usize::MAX ==> r is None && final(self).next_id()
                == old(self).next_id(),
            0 <= final(self).next_id() <= usize::MAX,
    {
        if self.next == usize::MAX {
            None
        } else {
            let id = self.next;
            self.next = self.next + 1;
            Some(id)
        }
    }
}

} // verus!
