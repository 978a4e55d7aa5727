use crate::addr::HostPhysAddr;
use vstd::prelude::*;

verus! {

/// Per-hart data kept in the per-CPU area.
#[derive(Debug, Clone, Copy, PartialEq, Eq, Structural)]
pub struct Percpu {
    pub hart_id: usize,
    pub stack_top: HostPhysAddr,
}

/// Address of hart `cpu_id`'s slot in a per-CPU area at `base` whose slots
/// are `percpu_size` bytes; `None` when it does not fit in `usize`.
pub fn percpu_ptr(base: usize, cpu_id: usize, percpu_size: usize) -> (r: Option<usize>)
    ensures
        base + cpu_id * percpu_size <= usize::MAX ==> r == Some((base + cpu_id * percpu_size) as usize),
        base + cpu_id * percpu_size > usize::MAX ==> r is None,
{
    if percpu_size != 0 && cpu_id > (usize::MAX - base) / percpu_size {
        assert(cpu_id * percpu_size > usize::MAX - base) by (nonlinear_arith)
            requires cpu_id > (usize::MAX - base) / (percpu_size as int), percpu_size > 0, base <= usize::MAX;
        return None;
    }
    assert(cpu_id * percpu_size <= usize::MAX - base) by (nonlinear_arith)
        requires percpu_size == 0 || cpu_id <= (usize::MAX - base) / (percpu_size as int), base <= usize::MAX;
    Some(base + cpu_id * percpu_size)
}

} // verus!
