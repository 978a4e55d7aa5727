use crate::bits::{field_of, get_bits, lemma_field_round_trip, low_mask, set_bits, with_field};
use vstd::prelude::*;

verus! {

/// Guest address translation mode held in `hgatp`.
#[derive(Debug, Clone, Copy, PartialEq, Eq, Structural)]
pub enum Mode {
    /// No G-stage translation.
    Bare,
    /// Two-stage translation with a 41-bit guest-physical space.
    Sv39x4,
    /// Two-stage translation with a 50-bit guest-physical space.
    Sv48x4,
}

/// Encoding of each mode in the MODE field.
pub open spec fn mode_code(m: Mode) -> u64 {
    match m {
        Mode::Bare => 0,
        Mode::Sv39x4 => 8,
        Mode::Sv48x4 => 9,
    }
}

impl Mode {
    /// The mode a MODE field value names, if any.
    pub fn from_code(x: usize) -> (r: Option<Mode>)
        ensures
            match r {
                Some(m) => mode_code(m) == x,
                None => x != 0 && x != 8 && x != 9,
            },
    {
        if x == 0 {
            Some(Mode::Bare)
        } else if x == 8 {
            Some(Mode::Sv39x4)
        } else if x == 9 {
            Some(Mode::Sv48x4)
        } else {
            None
        }
    }

    pub fn code(self) -> (r: usize)
        ensures
            r == mode_code(self),
    {
        match self {
            Mode::Bare => 0,
            Mode::Sv39x4 => 8,
            Mode::Sv48x4 => 9,
        }
    }
}

/// Hypervisor guest address translation and protection register: MODE in
/// bits 60..64, VMID in bits 44..58, root page number in bits 0..44. The
/// register is 64 bits wide.
#[derive(Debug, Clone, Copy, PartialEq, Eq, Structural)]
pub struct Hgatp {
    pub bits: u64,
}

impl Hgatp {
    /// The register holding `x`.
    pub fn from_bits(x: usize) -> (r: Self)
        ensures
            r.bits == x as u64,
    {
        Hgatp { bits: x as u64 }
    }

    /// The register value, for writing it back.
    pub fn bits(&self) -> (r: usize)
        ensures
            r == self.bits as usize,
    {
        self.bits as usize
    }

    /// Guest address translation mode; `None` for a reserved encoding.
    pub fn mode(&self) -> (r: Option<Mode>)
        ensures
            match r {
                Some(m) => mode_code(m) == field_of(self.bits, 60, 64),
                None => field_of(self.bits, 60, 64) != 0 && field_of(self.bits, 60, 64) != 8 && field_of(self.bits, 60, 64) != 9,
            },
    {
        let x = self.bits;
        let f = get_bits(x, 60, 64);
        assert(field_of(x, 60, 64) < 16) by (bit_vector);
        Mode::from_code(f as usize)
    }

    pub fn set_mode(&mut self, val: Mode)
        ensures
            final(self).bits == with_field(old(self).bits, 60, 64, mode_code(val)),
            field_of(final(self).bits, 60, 64) == mode_code(val),
            field_of(final(self).bits, 44, 58) == field_of(old(self).bits, 44, 58),
            field_of(final(self).bits, 0, 44) == field_of(old(self).bits, 0, 44),
    {
        assert(low_mask(4) == 15) by (bit_vector);
        proof {
            lemma_field_round_trip(self.bits, 60, 64, mode_code(val), 44, 58);
            lemma_field_round_trip(self.bits, 60, 64, mode_code(val), 0, 44);
        }
        self.bits = set_bits(self.bits, 60, 64, val.code() as u64);
    }

    /// Virtual machine ID.
    pub fn vmid(&self) -> (r: usize)
        ensures
            r == field_of(self.bits, 44, 58),
    {
        let x = self.bits;
        assert(field_of(x, 44, 58) < 0x4000) by (bit_vector);
        get_bits(x, 44, 58) as usize
    }

    /// Set the virtual machine ID, which must fit in 14 bits.
    pub fn set_vmid(&mut self, val: usize)
        requires
            val < 0x4000,
        ensures
            final(self).bits == with_field(old(self).bits, 44, 58, val as u64),
            field_of(final(self).bits, 44, 58) == val,
            field_of(final(self).bits, 60, 64) == field_of(old(self).bits, 60, 64),
            field_of(final(self).bits, 0, 44) == field_of(old(self).bits, 0, 44),
    {
        assert(low_mask(14) == 0x3fff) by (bit_vector);
        proof {
            lemma_field_round_trip(self.bits, 44, 58, val as u64, 60, 64);
            lemma_field_round_trip(self.bits, 44, 58, val as u64, 0, 44);
        }
        self.bits = set_bits(self.bits, 44, 58, val as u64);
    }

    /// Physical page number of the root table.
    pub fn ppn(&self) -> (r: u64)
        ensures
            r == field_of(self.bits, 0, 44),
    {
        get_bits(self.bits, 0, 44)
    }

    /// Set the root page number, which must fit in 44 bits.
    pub fn set_ppn(&mut self, val: u64)
        requires
            val < 0x1000_0000_0000,
        ensures
            final(self).bits == with_field(old(self).bits, 0, 44, val),
            field_of(final(self).bits, 0, 44) == val,
            field_of(final(self).bits, 60, 64) == field_of(old(self).bits, 60, 64),
            field_of(final(self).bits, 44, 58) == field_of(old(self).bits, 44, 58),
    {
        assert(low_mask(44) == 0xfff_ffff_ffff) by (bit_vector);
        proof {
            lemma_field_round_trip(self.bits, 0, 44, val, 60, 64);
            lemma_field_round_trip(self.bits, 0, 44, val, 44, 58);
        }
        self.bits = set_bits(self.bits, 0, 44, val);
    }
}

} // verus!
