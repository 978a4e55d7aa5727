use crate::addr::HostVirtAddr;
use crate::error::{HypervisorError, HypervisorResult};
use crate::page_table::PageTable;
use crate::radix::RadixTable;
use vstd::prelude::*;

verus! {

/// Total length of a list of `(paddr, len)` runs.
pub open spec fn total_len(runs: Seq<(usize, usize)>) -> int
    decreases runs.len(),
{
    if runs.len() == 0 {
        0
    } else {
        total_len(runs.drop_last()) + runs.last().1
    }
}

/// Byte `b` of a run that starts `start` bytes after `vaddr` translates to
/// `paddr + b`.
pub open spec fn run_byte(t: RadixTable, vaddr: int, start: int, paddr: int, b: int) -> bool {
    t.translate_spec(vaddr + start + b) == Ok::<usize, HypervisorError>((paddr + b) as usize)
}

/// Whether `runs` split the `len` bytes at `vaddr` into physically
/// contiguous pieces, in order: run `k` starts where the runs before it end,
/// and byte `t` of it translates to its address plus `t`.
pub open spec fn runs_cover(t: RadixTable, vaddr: int, runs: Seq<(usize, usize)>, len: int) -> bool {
    &&& total_len(runs) == len
    &&& forall|k: int|
        0 <= k < runs.len() ==> (#[trigger] runs[k]).1 > 0 && forall|b: int| 0 <= b < runs[k].1 ==> #[trigger] run_byte(t, vaddr, total_len(runs.take(k)), runs[k].0 as int, b)
}

proof fn lemma_push_run(runs: Seq<(usize, usize)>, x: (usize, usize))
    ensures
        total_len(runs.push(x)) == total_len(runs) + x.1,
        runs.push(x).take(runs.len() as int) == runs,
        forall|k: int| 0 <= k <= runs.len() ==> #[trigger] runs.push(x).take(k) == runs.take(k),
{
    assert(runs.push(x).drop_last() =~= runs);
    assert(runs.push(x).take(runs.len() as int) =~= runs);
    assert forall|k: int| 0 <= k <= runs.len() implies #[trigger] runs.push(x).take(k) == runs.take(k) by {
        assert(runs.push(x).take(k) =~= runs.take(k));
    }
}

/// Split the `len` bytes at `vaddr` into runs that are contiguous in
/// physical memory, translating every byte through the host table, so that
/// each run can be handed to the firmware console as one physical buffer.
/// `NotMapped` if a byte does not translate; `InvalidParam` if the range
/// wraps around the address space.
#[verifier::spinoff_prover]
pub fn physical_runs(pt: &PageTable, vaddr: usize, len: usize) -> (r: HypervisorResult<Vec<(usize, usize)>>)
    requires
        pt.wf(),
    ensures
        vaddr + len > usize::MAX ==> r == Err::<Vec<(usize, usize)>, HypervisorError>(HypervisorError::InvalidParam),
        r is Ok ==> runs_cover(pt@, vaddr as int, r->Ok_0@, len as int),
        r is Err ==> r->Err_0 == HypervisorError::InvalidParam && vaddr + len > usize::MAX || r->Err_0
            == HypervisorError::NotMapped && exists|b: int|
            0 <= b < len && #[trigger] pt@.translate_spec(vaddr + b) is Err,
{
    if len > usize::MAX - vaddr {
        return Err(HypervisorError::InvalidParam);
    }
    let mut runs: Vec<(usize, usize)> = Vec::new();
    if len == 0 {
        return Ok(runs);
    }
    let mut cur_paddr = match pt.translate(HostVirtAddr(vaddr)) {
        Ok(p) => p.0,
        Err(e) => {
            assert(pt@.translate_spec(vaddr + 0) is Err);
            return Err(e);
        },
    };
    let mut cur_off: usize = 0;
    let mut off: usize = 1;
    while off < len
        invariant
            pt.wf(),
            vaddr + len <= usize::MAX,
            0 <= cur_off < off <= len,
            total_len(runs@) == cur_off,
            forall|k: int|
                0 <= k < runs@.len() ==> (#[trigger] runs@[k]).1 > 0 && forall|b: int| 0 <= b < runs@[k].1 ==> #[trigger] run_byte(pt@, vaddr as int, total_len(runs@.take(k)), runs@[k].0 as int, b),
            forall|b: int| 0 <= b < off - cur_off ==> #[trigger] run_byte(pt@, vaddr as int, cur_off as int, cur_paddr as int, b),
        decreases len - off,
    {
        let p = match pt.translate(HostVirtAddr(vaddr + off)) {
            Ok(p) => p.0,
            Err(e) => return Err(e),
        };
        if p >= cur_paddr && p - cur_paddr == off - cur_off {
            proof {
                assert forall|b: int| 0 <= b < off + 1 - cur_off implies #[trigger] run_byte(pt@, vaddr as int, cur_off as int, cur_paddr as int, b) by {
                    if b == off - cur_off {
                        assert(vaddr + cur_off + b == vaddr + off);
                    }
                }
            }
            off = off + 1;
        } else {
            let ghost before = runs@;
            runs.push((cur_paddr, off - cur_off));
            proof {
                lemma_push_run(before, (cur_paddr, (off - cur_off) as usize));
                assert forall|k: int|
                    0 <= k < runs@.len() implies (#[trigger] runs@[k]).1 > 0 && forall|b: int| 0 <= b < runs@[k].1 ==> #[trigger] run_byte(pt@, vaddr as int, total_len(runs@.take(k)), runs@[k].0 as int, b) by {
                    if k < before.len() {
                        assert(runs@[k] == before[k]);
                        assert(runs@.take(k) == before.take(k));
                    } else {
                        assert(runs@.take(k) == before);
                    }
                }
            }
            cur_off = off;
            cur_paddr = p;
            proof {
                assert forall|b: int| 0 <= b < 1 implies #[trigger] run_byte(pt@, vaddr as int, cur_off as int, cur_paddr as int, b) by {
                    assert(vaddr + cur_off + b == vaddr + off);
                }
            }
            off = off + 1;
        }
    }
    let ghost before = runs@;
    runs.push((cur_paddr, len - cur_off));
    proof {
        lemma_push_run(before, (cur_paddr, (len - cur_off) as usize));
        assert forall|k: int|
            0 <= k < runs@.len() implies (#[trigger] runs@[k]).1 > 0 && forall|b: int| 0 <= b < runs@[k].1 ==> #[trigger] run_byte(pt@, vaddr as int, total_len(runs@.take(k)), runs@[k].0 as int, b) by {
            if k < before.len() {
                assert(runs@[k] == before[k]);
                assert(runs@.take(k) == before.take(k));
            } else {
                assert(runs@.take(k) == before);
            }
        }
    }
    Ok(runs)
}

} // verus!
