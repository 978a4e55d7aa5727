use crate::addr::is_pow2;
use crate::config::PAGE_SIZE_4K;
use vstd::prelude::*;

verus! {

/// The smallest power of two that is at least `x`; `None` when it does not
/// fit in `usize`.
pub fn next_power_of_two(x: usize) -> (r: Option<usize>)
    ensures
        match r {
            Some(p) => is_pow2(p as int) && p >= x && (p == 1 || p / 2 < x),
            None => x > usize::MAX / 2 + 1,
        },
{
    let mut p: usize = 1;
    while p < x
        invariant
            is_pow2(p as int),
            p == 1 || p / 2 < x,
            p >= 1,
        decreases usize::MAX - p,
    {
        if p > usize::MAX / 2 {
            return None;
        }
        assert(is_pow2((p * 2) as int)) by {
            assert((p * 2) as int / 2 == p as int);
        }
        p = p * 2;
    }
    Some(p)
}

/// How much to grow the heap by when an allocation of `request` bytes fails
/// on a heap of `old_size` bytes: the next power of two at least as large as
/// both, and at least one frame. `None` when that does not fit in `usize`.
pub fn heap_expand_size(old_size: usize, request: usize) -> (r: Option<usize>)
    ensures
        match r {
            Some(s) => s >= PAGE_SIZE_4K && s >= old_size && s >= request && (s == PAGE_SIZE_4K || (
            is_pow2(s as int) && s / 2 < if old_size > request {
                old_size
            } else {
                request
            })),
            None => (if old_size > request {
                old_size
            } else {
                request
            }) > usize::MAX / 2 + 1,
        },
{
    let m = if old_size > request {
        old_size
    } else {
        request
    };
    match next_power_of_two(m) {
        Some(p) => {
            if p < PAGE_SIZE_4K {
                Some(PAGE_SIZE_4K)
            } else {
                Some(p)
            }
        },
        None => None,
    }
}

/// Frames to request from the frame allocator for a growth of `expand_size`
/// bytes.
pub fn expand_frames(expand_size: usize) -> (r: usize)
    ensures
        r == expand_size / PAGE_SIZE_4K,
{
    expand_size / PAGE_SIZE_4K
}

} // verus!
