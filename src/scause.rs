use vstd::prelude::*;

verus! {

/// Supervisor trap cause register: bit 63 marks an interrupt, the other bits
/// hold the cause code.
#[derive(Debug, Clone, Copy, PartialEq, Eq, Structural)]
pub struct Scause {
    pub bits: u64,
}

/// Classified trap cause.
#[derive(Debug, Clone, Copy, PartialEq, Eq, Structural)]
pub enum Trap {
    Interrupt(Interrupt),
    Exception(Exception),
}

#[derive(Debug, Clone, Copy, PartialEq, Eq, Structural)]
pub enum Interrupt {
    UserSoft,
    VirtualSupervisorSoft,
    SupervisorSoft,
    UserTimer,
    VirtualSupervisorTimer,
    SupervisorTimer,
    UserExternal,
    VirtualSupervisorExternal,
    SupervisorExternal,
    Unknown,
}

#[derive(Debug, Clone, Copy, PartialEq, Eq, Structural)]
pub enum Exception {
    InstructionMisaligned,
    InstructionFault,
    IllegalInstruction,
    Breakpoint,
    LoadFault,
    StoreMisaligned,
    StoreFault,
    UserEnvCall,
    VirtualSupervisorEnvCall,
    InstructionPageFault,
    LoadPageFault,
    StorePageFault,
    InstructionGuestPageFault,
    LoadGuestPageFault,
    VirtualInstruction,
    StoreGuestPageFault,
    Unknown,
}

/// The interrupt an interrupt cause code names.
pub open spec fn interrupt_of(nr: int) -> Interrupt {
    if nr == 0 {
        Interrupt::UserSoft
    } else if nr == 1 {
        Interrupt::SupervisorSoft
    } else if nr == 2 {
        Interrupt::VirtualSupervisorSoft
    } else if nr == 4 {
        Interrupt::UserTimer
    } else if nr == 5 {
        Interrupt::SupervisorTimer
    } else if nr == 6 {
        Interrupt::VirtualSupervisorTimer
    } else if nr == 8 {
        Interrupt::UserExternal
    } else if nr == 9 {
        Interrupt::SupervisorExternal
    } else if nr == 10 {
        Interrupt::VirtualSupervisorExternal
    } else {
        Interrupt::Unknown
    }
}

/// The exception an exception cause code names.
pub open spec fn exception_of(nr: int) -> Exception {
    if nr == 0 {
        Exception::InstructionMisaligned
    } else if nr == 1 {
        Exception::InstructionFault
    } else if nr == 2 {
        Exception::IllegalInstruction
    } else if nr == 3 {
        Exception::Breakpoint
    } else if nr == 5 {
        Exception::LoadFault
    } else if nr == 6 {
        Exception::StoreMisaligned
    } else if nr == 7 {
        Exception::StoreFault
    } else if nr == 8 {
        Exception::UserEnvCall
    } else if nr == 10 {
        Exception::VirtualSupervisorEnvCall
    } else if nr == 12 {
        Exception::InstructionPageFault
    } else if nr == 13 {
        Exception::LoadPageFault
    } else if nr == 15 {
        Exception::StorePageFault
    } else if nr == 20 {
        Exception::InstructionGuestPageFault
    } else if nr == 21 {
        Exception::LoadGuestPageFault
    } else if nr == 22 {
        Exception::VirtualInstruction
    } else if nr == 23 {
        Exception::StoreGuestPageFault
    } else {
        Exception::Unknown
    }
}

/// Whether the interrupt bit (63) of a cause value is set.
pub open spec fn cause_is_interrupt(bits: u64) -> bool {
    bits >> 63u64 == 1
}

/// The code field of a cause value.
pub open spec fn cause_code(bits: u64) -> u64 {
    bits & 0x7fff_ffff_ffff_ffff
}

/// The trap a cause value names.
pub open spec fn trap_of(bits: u64) -> Trap {
    if cause_is_interrupt(bits) {
        Trap::Interrupt(interrupt_of(cause_code(bits) as int))
    } else {
        Trap::Exception(exception_of(cause_code(bits) as int))
    }
}

impl Interrupt {
    pub fn from(nr: usize) -> (r: Self)
        ensures
            r == interrupt_of(nr as int),
    {
        match nr {
            0 => Interrupt::UserSoft,
            1 => Interrupt::SupervisorSoft,
            2 => Interrupt::VirtualSupervisorSoft,
            4 => Interrupt::UserTimer,
            5 => Interrupt::SupervisorTimer,
            6 => Interrupt::VirtualSupervisorTimer,
            8 => Interrupt::UserExternal,
            9 => Interrupt::SupervisorExternal,
            10 => Interrupt::VirtualSupervisorExternal,
            _ => Interrupt::Unknown,
        }
    }
}

impl Exception {
    pub fn from(nr: usize) -> (r: Self)
        ensures
            r == exception_of(nr as int),
    {
        match nr {
            0 => Exception::InstructionMisaligned,
            1 => Exception::InstructionFault,
            2 => Exception::IllegalInstruction,
            3 => Exception::Breakpoint,
            5 => Exception::LoadFault,
            6 => Exception::StoreMisaligned,
            7 => Exception::StoreFault,
            8 => Exception::UserEnvCall,
            10 => Exception::VirtualSupervisorEnvCall,
            12 => Exception::InstructionPageFault,
            13 => Exception::LoadPageFault,
            15 => Exception::StorePageFault,
            20 => Exception::InstructionGuestPageFault,
            21 => Exception::LoadGuestPageFault,
            22 => Exception::VirtualInstruction,
            23 => Exception::StoreGuestPageFault,
            _ => Exception::Unknown,
        }
    }
}

impl Scause {
    /// The register holding `x`.
    pub fn from_bits(x: usize) -> (r: Self)
        ensures
            r.bits == x as u64,
    {
        Scause { bits: x as u64 }
    }

    pub fn bits(&self) -> (r: usize)
        ensures
            r == self.bits as usize,
    {
        self.bits as usize
    }

    /// The code field: every bit but the interrupt bit.
    pub fn code(&self) -> (r: u64)
        ensures
            r == cause_code(self.bits),
    {
        self.bits & 0x7fff_ffff_ffff_ffff
    }

    /// Whether the trap is an interrupt.
    pub fn is_interrupt(&self) -> (r: bool)
        ensures
            r == cause_is_interrupt(self.bits),
    {
        self.bits >> 63 == 1
    }

    /// The trap cause this register names.
    pub fn cause(&self) -> (r: Trap)
        ensures
            r == trap_of(self.bits),
    {
        let c = self.code();
        if self.is_interrupt() {
            if c > 10 {
                Trap::Interrupt(Interrupt::Unknown)
            } else {
                Trap::Interrupt(Interrupt::from(c as usize))
            }
        } else {
            if c > 23 {
                Trap::Exception(Exception::Unknown)
            } else {
                Trap::Exception(Exception::from(c as usize))
            }
        }
    }
}

} // verus!
