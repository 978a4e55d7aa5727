use vstd::prelude::*;

verus! {

/// Bit `i` of `x`.
pub open spec fn bit_of(x: usize, i: usize) -> bool {
    (x >> i) & 1 == 1
}

/// `x` with bit `i` set to `v`.
pub open spec fn with_bit(x: usize, i: usize, v: bool) -> usize {
    if v {
        x | (1usize << i)
    } else {
        x & !(1usize << i)
    }
}

/// Bit `i` of `x` (the `get_bit` of a bit-field register).
pub fn get_bit(x: usize, i: usize) -> (r: bool)
    requires
        i < 32,
    ensures
        r == bit_of(x, i),
{
    (x >> i) & 1 == 1
}

/// `x` with bit `i` set to `v` (the `set_bit` of a bit-field register).
pub fn set_bit(x: usize, i: usize, v: bool) -> (r: usize)
    requires
        i < 32,
    ensures
        r == with_bit(x, i, v),
{
    if v {
        x | (1usize << i)
    } else {
        x & !(1usize << i)
    }
}

/// Setting a bit changes that bit only.
pub proof fn lemma_with_bit(x: usize, i: usize, v: bool, j: usize)
    requires
        i < 32,
        j < 32,
    ensures
        bit_of(with_bit(x, i, v), i) == v,
        j != i ==> bit_of(with_bit(x, i, v), j) == bit_of(x, j),
{
    if v {
        assert(((x | (1usize << i)) >> i) & 1 == 1) by (bit_vector)
            requires i < 32;
        assert(j != i ==> (((x | (1usize << i)) >> j) & 1 == 1) == ((x >> j) & 1 == 1)) by (bit_vector)
            requires i < 32, j < 32;
    } else {
        assert(((x & !(1usize << i)) >> i) & 1 == 0) by (bit_vector)
            requires i < 32;
        assert(j != i ==> (((x & !(1usize << i)) >> j) & 1 == 1) == ((x >> j) & 1 == 1)) by (bit_vector)
            requires i < 32, j < 32;
    }
}

/// A mask of the `w` low bits.
pub open spec fn low_mask(w: u64) -> u64 {
    ((1u64 << w) - 1) as u64
}

/// Bits `lo..hi` of the 64-bit value `x`, shifted down.
pub open spec fn field_of(x: u64, lo: u64, hi: u64) -> u64 {
    (x >> lo) & low_mask((hi - lo) as u64)
}

/// `x` with bits `lo..hi` replaced by `v`.
pub open spec fn with_field(x: u64, lo: u64, hi: u64, v: u64) -> u64 {
    (x & !(low_mask((hi - lo) as u64) << lo)) | (v << lo)
}

fn low_mask_exec(w: u64) -> (r: u64)
    requires
        w < 64,
    ensures
        r == low_mask(w),
{
    assert(1u64 << w >= 1) by (bit_vector)
        requires w < 64;
    (1u64 << w) - 1
}

/// Bits `lo..hi` of `x` (the `get_bits` of a bit-field register).
pub fn get_bits(x: u64, lo: u64, hi: u64) -> (r: u64)
    requires
        lo < hi <= 64,
        hi - lo < 64,
    ensures
        r == field_of(x, lo, hi),
{
    (x >> lo) & low_mask_exec(hi - lo)
}

/// `x` with bits `lo..hi` replaced by `v`, which must fit in the field (the
/// `set_bits` of a bit-field register).
pub fn set_bits(x: u64, lo: u64, hi: u64, v: u64) -> (r: u64)
    requires
        lo < hi <= 64,
        hi - lo < 64,
        v <= low_mask((hi - lo) as u64),
    ensures
        r == with_field(x, lo, hi, v),
{
    (x & !(low_mask_exec(hi - lo) << lo)) | (v << lo)
}

/// Writing a field and reading it back gives the value written; the other
/// fields stay as they were.
pub proof fn lemma_field_round_trip(x: u64, lo: u64, hi: u64, v: u64, lo2: u64, hi2: u64)
    requires
        lo < hi <= 64,
        hi - lo < 64,
        v <= low_mask((hi - lo) as u64),
        lo2 < hi2 <= 64,
        hi2 - lo2 < 64,
        hi2 <= lo || hi <= lo2,
    ensures
        field_of(with_field(x, lo, hi, v), lo, hi) == v,
        field_of(with_field(x, lo, hi, v), lo2, hi2) == field_of(x, lo2, hi2),
{
    let w = (hi - lo) as u64;
    let w2 = (hi2 - lo2) as u64;
    assert(((((x & !((((1u64 << w) - 1) as u64) << lo)) | (v << lo)) >> lo) & (((1u64 << w) - 1) as u64)) == v) by (bit_vector)
        requires lo < hi <= 64, w == hi - lo, w < 64, v <= ((1u64 << w) - 1) as u64;
    assert(((((x & !((((1u64 << w) - 1) as u64) << lo)) | (v << lo)) >> lo2) & (((1u64 << w2) - 1) as u64))
        == ((x >> lo2) & (((1u64 << w2) - 1) as u64))) by (bit_vector)
        requires lo < hi <= 64, w == hi - lo, w < 64, v <= ((1u64 << w) - 1) as u64,
            lo2 < hi2 <= 64, w2 == hi2 - lo2, w2 < 64, hi2 <= lo || hi <= lo2;
}

} // verus!
