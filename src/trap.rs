use vstd::prelude::*;

verus! {

/// General registers of RISC-V as a trap saves them (x0 is not kept).
#[derive(Debug, Default, Clone, Copy, PartialEq, Eq, Structural)]
pub struct GeneralRegisters {
    pub ra: usize,
    pub sp: usize,
    pub gp: usize,
    pub tp: usize,
    pub t0: usize,
    pub t1: usize,
    pub t2: usize,
    pub s0: usize,
    pub s1: usize,
    pub a0: usize,
    pub a1: usize,
    pub a2: usize,
    pub a3: usize,
    pub a4: usize,
    pub a5: usize,
    pub a6: usize,
    pub a7: usize,
    pub s2: usize,
    pub s3: usize,
    pub s4: usize,
    pub s5: usize,
    pub s6: usize,
    pub s7: usize,
    pub s8: usize,
    pub s9: usize,
    pub s10: usize,
    pub s11: usize,
    pub t3: usize,
    pub t4: usize,
    pub t5: usize,
    pub t6: usize,
}

/// Registers saved when a trap (interrupt or exception) reaches the
/// hypervisor itself.
#[derive(Debug, Default, Clone, Copy, PartialEq, Eq, Structural)]
pub struct TrapFrame {
    /// All general registers.
    pub regs: GeneralRegisters,
    /// Supervisor Exception Program Counter.
    pub sepc: usize,
    /// Supervisor Status Register.
    pub sstatus: usize,
}

/// Bytes of a saved trap frame: 31 registers, then `sepc` and `sstatus`.
pub const TRAP_FRAME_SIZE: usize = 33 * 8;

} // verus!
