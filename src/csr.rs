use crate::bits::{bit_of, get_bit, set_bit, with_bit};
use vstd::prelude::*;

verus! {

/// Hypervisor counter-enable register: which counters VS-mode may read.
#[derive(Debug, Clone, Copy, PartialEq, Eq, Structural)]
pub struct Hcounteren {
    pub bits: usize,
}

impl Hcounteren {
    /// The register holding `x`.
    pub fn from_bits(x: usize) -> (r: Self)
        ensures
            r.bits == x,
    {
        Hcounteren { bits: x }
    }

    pub fn bits(&self) -> (r: usize)
        ensures
            r == self.bits,
    {
        self.bits
    }

    /// Whether VS-mode may read the cycle counter.
    pub fn cycle(&self) -> (r: bool)
        ensures
            r == bit_of(self.bits, 0),
    {
        get_bit(self.bits, 0)
    }

    pub fn set_cycle(&mut self, val: bool)
        ensures
            final(self).bits == with_bit(old(self).bits, 0, val),
    {
        self.bits = set_bit(self.bits, 0, val);
    }

    /// Whether VS-mode may read the time counter.
    pub fn time(&self) -> (r: bool)
        ensures
            r == bit_of(self.bits, 1),
    {
        get_bit(self.bits, 1)
    }

    pub fn set_time(&mut self, val: bool)
        ensures
            final(self).bits == with_bit(old(self).bits, 1, val),
    {
        self.bits = set_bit(self.bits, 1, val);
    }

    /// Whether VS-mode may read the instructions-retired counter.
    pub fn instret(&self) -> (r: bool)
        ensures
            r == bit_of(self.bits, 2),
    {
        get_bit(self.bits, 2)
    }

    pub fn set_instret(&mut self, val: bool)
        ensures
            final(self).bits == with_bit(old(self).bits, 2, val),
    {
        self.bits = set_bit(self.bits, 2, val);
    }
}

/// Hypervisor exception delegation register: which exceptions go straight to VS-mode.
#[derive(Debug, Clone, Copy, PartialEq, Eq, Structural)]
pub struct Hedeleg {
    pub bits: usize,
}

impl Hedeleg {
    /// The register holding `x`.
    pub fn from_bits(x: usize) -> (r: Self)
        ensures
            r.bits == x,
    {
        Hedeleg { bits: x }
    }

    pub fn bits(&self) -> (r: usize)
        ensures
            r == self.bits,
    {
        self.bits
    }

    /// Instruction address misaligned.
    pub fn inst_addr_misalign(&self) -> (r: bool)
        ensures
            r == bit_of(self.bits, 0),
    {
        get_bit(self.bits, 0)
    }

    pub fn set_inst_addr_misalign(&mut self, val: bool)
        ensures
            final(self).bits == with_bit(old(self).bits, 0, val),
    {
        self.bits = set_bit(self.bits, 0, val);
    }

    /// Instruction access fault.
    pub fn inst_access_fault(&self) -> (r: bool)
        ensures
            r == bit_of(self.bits, 1),
    {
        get_bit(self.bits, 1)
    }

    pub fn set_inst_access_fault(&mut self, val: bool)
        ensures
            final(self).bits == with_bit(old(self).bits, 1, val),
    {
        self.bits = set_bit(self.bits, 1, val);
    }

    /// Illegal instruction.
    pub fn illegal_inst(&self) -> (r: bool)
        ensures
            r == bit_of(self.bits, 2),
    {
        get_bit(self.bits, 2)
    }

    pub fn set_illegal_inst(&mut self, val: bool)
        ensures
            final(self).bits == with_bit(old(self).bits, 2, val),
    {
        self.bits = set_bit(self.bits, 2, val);
    }

    /// Environment call from U-mode or VU-mode.
    pub fn env_call_from_u_or_vu(&self) -> (r: bool)
        ensures
            r == bit_of(self.bits, 8),
    {
        get_bit(self.bits, 8)
    }

    pub fn set_env_call_from_u_or_vu(&mut self, val: bool)
        ensures
            final(self).bits == with_bit(old(self).bits, 8, val),
    {
        self.bits = set_bit(self.bits, 8, val);
    }

    /// Instruction page fault.
    pub fn inst_page_fault(&self) -> (r: bool)
        ensures
            r == bit_of(self.bits, 12),
    {
        get_bit(self.bits, 12)
    }

    pub fn set_inst_page_fault(&mut self, val: bool)
        ensures
            final(self).bits == with_bit(old(self).bits, 12, val),
    {
        self.bits = set_bit(self.bits, 12, val);
    }

    /// Load page fault.
    pub fn load_page_fault(&self) -> (r: bool)
        ensures
            r == bit_of(self.bits, 13),
    {
        get_bit(self.bits, 13)
    }

    pub fn set_load_page_fault(&mut self, val: bool)
        ensures
            final(self).bits == with_bit(old(self).bits, 13, val),
    {
        self.bits = set_bit(self.bits, 13, val);
    }

    /// Store/AMO page fault.
    pub fn store_page_fault(&self) -> (r: bool)
        ensures
            r == bit_of(self.bits, 15),
    {
        get_bit(self.bits, 15)
    }

    pub fn set_store_page_fault(&mut self, val: bool)
        ensures
            final(self).bits == with_bit(old(self).bits, 15, val),
    {
        self.bits = set_bit(self.bits, 15, val);
    }
}

/// Hypervisor interrupt delegation register: which VS-level interrupts go to VS-mode.
#[derive(Debug, Clone, Copy, PartialEq, Eq, Structural)]
pub struct Hideleg {
    pub bits: usize,
}

impl Hideleg {
    /// The register holding `x`.
    pub fn from_bits(x: usize) -> (r: Self)
        ensures
            r.bits == x,
    {
        Hideleg { bits: x }
    }

    pub fn bits(&self) -> (r: usize)
        ensures
            r == self.bits,
    {
        self.bits
    }

    /// VS-level timer interrupt.
    pub fn vs_timer_interrupt(&self) -> (r: bool)
        ensures
            r == bit_of(self.bits, 6),
    {
        get_bit(self.bits, 6)
    }

    pub fn set_vs_timer_interrupt(&mut self, val: bool)
        ensures
            final(self).bits == with_bit(old(self).bits, 6, val),
    {
        self.bits = set_bit(self.bits, 6, val);
    }

    /// VS-level external interrupt.
    pub fn vs_external_interrupt(&self) -> (r: bool)
        ensures
            r == bit_of(self.bits, 10),
    {
        get_bit(self.bits, 10)
    }

    pub fn set_vs_external_interrupt(&mut self, val: bool)
        ensures
            final(self).bits == with_bit(old(self).bits, 10, val),
    {
        self.bits = set_bit(self.bits, 10, val);
    }
}

/// Hypervisor status register.
#[derive(Debug, Clone, Copy, PartialEq, Eq, Structural)]
pub struct Hstatus {
    pub bits: usize,
}

impl Hstatus {
    /// The register holding `x`.
    pub fn from_bits(x: usize) -> (r: Self)
        ensures
            r.bits == x,
    {
        Hstatus { bits: x }
    }

    pub fn bits(&self) -> (r: usize)
        ensures
            r == self.bits,
    {
        self.bits
    }

    /// Supervisor Previous Virtualization mode.
    pub fn spv(&self) -> (r: bool)
        ensures
            r == bit_of(self.bits, 7),
    {
        get_bit(self.bits, 7)
    }

    pub fn set_spv(&mut self, val: bool)
        ensures
            final(self).bits == with_bit(old(self).bits, 7, val),
    {
        self.bits = set_bit(self.bits, 7, val);
    }

    /// Supervisor Previous Virtual Privilege.
    pub fn spvp(&self) -> (r: bool)
        ensures
            r == bit_of(self.bits, 8),
    {
        get_bit(self.bits, 8)
    }

    pub fn set_spvp(&mut self, val: bool)
        ensures
            final(self).bits == with_bit(old(self).bits, 8, val),
    {
        self.bits = set_bit(self.bits, 8, val);
    }

    /// Guest Virtual Address.
    pub fn gva(&self) -> (r: bool)
        ensures
            r == bit_of(self.bits, 6),
    {
        get_bit(self.bits, 6)
    }

    pub fn set_gva(&mut self, val: bool)
        ensures
            final(self).bits == with_bit(old(self).bits, 6, val),
    {
        self.bits = set_bit(self.bits, 6, val);
    }
}

/// Hypervisor virtual-interrupt-pending register.
#[derive(Debug, Clone, Copy, PartialEq, Eq, Structural)]
pub struct Hvip {
    pub bits: usize,
}

impl Hvip {
    /// The register holding `x`.
    pub fn from_bits(x: usize) -> (r: Self)
        ensures
            r.bits == x,
    {
        Hvip { bits: x }
    }

    pub fn bits(&self) -> (r: usize)
        ensures
            r == self.bits,
    {
        self.bits
    }

    /// VS-level software interrupt pending.
    pub fn vs_software_interrupt(&self) -> (r: bool)
        ensures
            r == bit_of(self.bits, 2),
    {
        get_bit(self.bits, 2)
    }

    pub fn set_vs_software_interrupt(&mut self, val: bool)
        ensures
            final(self).bits == with_bit(old(self).bits, 2, val),
    {
        self.bits = set_bit(self.bits, 2, val);
    }

    /// VS-level timer interrupt pending.
    pub fn vs_timer_interrupt(&self) -> (r: bool)
        ensures
            r == bit_of(self.bits, 6),
    {
        get_bit(self.bits, 6)
    }

    pub fn set_vs_timer_interrupt(&mut self, val: bool)
        ensures
            final(self).bits == with_bit(old(self).bits, 6, val),
    {
        self.bits = set_bit(self.bits, 6, val);
    }

    /// VS-level external interrupt pending.
    pub fn vs_external_interrupt(&self) -> (r: bool)
        ensures
            r == bit_of(self.bits, 10),
    {
        get_bit(self.bits, 10)
    }

    pub fn set_vs_external_interrupt(&mut self, val: bool)
        ensures
            final(self).bits == with_bit(old(self).bits, 10, val),
    {
        self.bits = set_bit(self.bits, 10, val);
    }
}

/// Supervisor status register.
#[derive(Debug, Clone, Copy, PartialEq, Eq, Structural)]
pub struct Sstatus {
    pub bits: usize,
}

impl Sstatus {
    /// The register holding `x`.
    pub fn from_bits(x: usize) -> (r: Self)
        ensures
            r.bits == x,
    {
        Sstatus { bits: x }
    }

    pub fn bits(&self) -> (r: usize)
        ensures
            r == self.bits,
    {
        self.bits
    }

    /// Supervisor Previous Privilege.
    pub fn spp(&self) -> (r: bool)
        ensures
            r == bit_of(self.bits, 8),
    {
        get_bit(self.bits, 8)
    }

    pub fn set_spp(&mut self, val: bool)
        ensures
            final(self).bits == with_bit(old(self).bits, 8, val),
    {
        self.bits = set_bit(self.bits, 8, val);
    }
}

/// Virtual supervisor status register.
#[derive(Debug, Clone, Copy, PartialEq, Eq, Structural)]
pub struct Vsstatus {
    pub bits: usize,
}

impl Vsstatus {
    /// The register holding `x`.
    pub fn from_bits(x: usize) -> (r: Self)
        ensures
            r.bits == x,
    {
        Vsstatus { bits: x }
    }

    pub fn bits(&self) -> (r: usize)
        ensures
            r == self.bits,
    {
        self.bits
    }
}

} // verus!
