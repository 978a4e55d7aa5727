use crate::addr::HostPhysAddr;
use crate::bits::{bit_of, field_of, lemma_with_bit, with_bit, with_field};
use crate::config::{PAGE_SIZE_4K, PCPU_STACK_SIZE};
use crate::csr::{Hcounteren, Hedeleg, Hideleg, Hstatus, Hvip, Sstatus};
use crate::error::{HypervisorError, HypervisorResult};
use crate::frame::PhysFrameAllocator;
use crate::hgatp::{mode_code, Hgatp, Mode};
use crate::vcpu::VCpu;
use vstd::prelude::*;
use vstd::set_lib::set_int_range;

verus! {

/// One physical hart: its id, the top of its stack, and the
/// `(vm_id, vcpu_id)` pairs bound to it.
#[derive(Debug, Clone)]
pub struct PCpu {
    pub hart_id: usize,
    pub stack_top: HostPhysAddr,
    pub vcpus: Vec<(usize, usize)>,
}

/// Frames of one pCPU stack.
pub const PCPU_STACK_FRAMES: usize = 4;

/// Whether `p`'s stack is four frames of `v`'s pool, all in use.
pub open spec fn stack_taken(p: PCpu, v: crate::frame::FrameAllocView) -> bool {
    let s = p.stack_top.0 - PCPU_STACK_SIZE;
    &&& s >= v.base
    &&& (s - v.base) % 4096 == 0
    &&& s % 4096 == 0
    &&& forall|k: int| v.index_of(s) <= k < v.index_of(s) + 4 ==> !#[trigger] v.free.contains(k)
}

/// Allocate a stack for each of `cpu_nums` harts and describe them. The
/// boot hart must be hart 0 (`InvalidParam` otherwise); `NoMemory` when a
/// stack cannot be had.
pub fn init_pcpus(alloc: &mut PhysFrameAllocator, boot_hart_id: usize, cpu_nums: usize) -> (r:
    HypervisorResult<Vec<PCpu>>)
    requires
        old(alloc).wf(),
    ensures
        final(alloc).wf(),
        boot_hart_id != 0 ==> r == Err::<Vec<PCpu>, HypervisorError>(HypervisorError::InvalidParam),
        r is Ok ==> r->Ok_0@.len() == cpu_nums && forall|i: int|
            0 <= i < cpu_nums ==> (#[trigger] r->Ok_0@[i]).hart_id == i && r->Ok_0@[i].vcpus@.len() == 0
                && stack_taken(r->Ok_0@[i], final(alloc)@),
        r is Ok ==> forall|i: int, j: int|
            0 <= i < j < cpu_nums ==> (#[trigger] r->Ok_0@[i]).stack_top.0 <= (#[trigger] r->Ok_0@[j]).stack_top.0 - PCPU_STACK_SIZE
                || r->Ok_0@[j].stack_top.0 <= r->Ok_0@[i].stack_top.0 - PCPU_STACK_SIZE,
        r is Err && boot_hart_id == 0 ==> r->Err_0 == HypervisorError::NoMemory && !final(alloc)@.has_run(4, 4096),
        r is Err ==> r->Err_0 == HypervisorError::InvalidParam || r->Err_0 == HypervisorError::NoMemory,
{
    if boot_hart_id != 0 {
        return Err(HypervisorError::InvalidParam);
    }
    let mut pcpus: Vec<PCpu> = Vec::new();
    let mut cpu_id: usize = 0;
    while cpu_id < cpu_nums
        invariant
            cpu_id <= cpu_nums,
            boot_hart_id == 0,
            alloc.wf(),
            pcpus@.len() == cpu_id,
            forall|i: int| 0 <= i < cpu_id ==> (#[trigger] pcpus@[i]).hart_id == i && pcpus@[i].vcpus@.len() == 0
                && stack_taken(pcpus@[i], alloc@),
            forall|i: int, j: int|
                0 <= i < j < cpu_id ==> (#[trigger] pcpus@[i]).stack_top.0 <= (#[trigger] pcpus@[j]).stack_top.0 - PCPU_STACK_SIZE
                    || pcpus@[j].stack_top.0 <= pcpus@[i].stack_top.0 - PCPU_STACK_SIZE,
        decreases cpu_nums - cpu_id,
    {
        let ghost v0 = alloc@;
        let start = match alloc.alloc_frames(PCPU_STACK_FRAMES, PAGE_SIZE_4K) {
            Ok(a) => a,
            Err(_) => return Err(HypervisorError::NoMemory),
        };
        let ghost v1 = alloc@;
        proof {
            crate::frame::lemma_alloc_addr(v0, v1, 4, 4096, start);
            let i = v0.index_of(start.0 as int);
            assert(start.0 + 4 * 4096 <= v0.base + v0.total * 4096) by (nonlinear_arith)
                requires start.0 == v0.base + i * 4096, i + 4 <= v0.total;
            assert forall|q: int| 0 <= q < cpu_id implies stack_taken(#[trigger] pcpus@[q], v1) && (
                pcpus@[q].stack_top.0 <= start.0 || start.0 + PCPU_STACK_SIZE <= pcpus@[q].stack_top.0 - PCPU_STACK_SIZE) by {
                let sq = pcpus@[q].stack_top.0 - PCPU_STACK_SIZE;
                crate::frame::lemma_allocation_avoids_live(v0, v1, 4, 4096, start, HostPhysAddr(sq as usize), 4);
                assert forall|k: int| v1.index_of(sq) <= k < v1.index_of(sq) + 4 implies !#[trigger] v1.free.contains(k) by {
                    assert(!v0.free.contains(k));
                }
            }
            assert forall|k: int| v1.index_of(start.0 as int) <= k < v1.index_of(start.0 as int) + 4 implies !#[trigger] v1.free.contains(k) by {
                assert(set_int_range(i, i + 4).contains(k));
            }
        }
        pcpus.push(PCpu { hart_id: cpu_id, stack_top: HostPhysAddr(start.0 + PCPU_STACK_SIZE), vcpus: Vec::new() });
        cpu_id = cpu_id + 1;
    }
    Ok(pcpus)
}

/// Bind `(vm_id, vcpu_id)` to pCPU `pcpu_id`. Binding a pair a second time,
/// or to a pCPU that does not exist, is refused with `InvalidParam`.
pub fn bind_vcpu_to_pcpu(pcpus: &mut Vec<PCpu>, vm_id: usize, vcpu_id: usize, pcpu_id: usize) -> (r:
    HypervisorResult<()>)
    ensures
        final(pcpus)@.len() == old(pcpus)@.len(),
        r is Ok <==> (pcpu_id < old(pcpus)@.len() && !old(pcpus)@[pcpu_id as int].vcpus@.contains((vm_id, vcpu_id))),
        r is Ok ==> final(pcpus)@ == old(pcpus)@.update(pcpu_id as int, PCpu {
            vcpus: final(pcpus)@[pcpu_id as int].vcpus, ..old(pcpus)@[pcpu_id as int]
        }) && final(pcpus)@[pcpu_id as int].vcpus@ == old(pcpus)@[pcpu_id as int].vcpus@.push((vm_id, vcpu_id)),
        r is Err ==> r->Err_0 == HypervisorError::InvalidParam && final(pcpus)@ == old(pcpus)@,
{
    if pcpu_id >= pcpus.len() {
        return Err(HypervisorError::InvalidParam);
    }
    let n = pcpus[pcpu_id].vcpus.len();
    let mut i: usize = 0;
    while i < n
        invariant
            i <= n,
            pcpu_id < pcpus@.len(),
            pcpus@ == old(pcpus)@,
            n == pcpus@[pcpu_id as int].vcpus@.len(),
            forall|k: int| 0 <= k < i ==> pcpus@[pcpu_id as int].vcpus@[k] != (vm_id, vcpu_id),
        decreases n - i,
    {
        let (a, b) = pcpus[pcpu_id].vcpus[i];
        if a == vm_id && b == vcpu_id {
            assert(pcpus@[pcpu_id as int].vcpus@[i as int] == (vm_id, vcpu_id));
            return Err(HypervisorError::InvalidParam);
        }
        i = i + 1;
    }
    pcpus[pcpu_id].vcpus.push((vm_id, vcpu_id));
    Ok(())
}

/// Bind the pairs in order, round robin: pair `k` goes to pCPU
/// `k % pcpus.len()`. Stops at the first pair that cannot be bound (no
/// pCPU, or a pair bound twice) with `InvalidParam`.
pub fn bind_vcpus(pairs: &[(usize, usize)], pcpus: &mut Vec<PCpu>) -> (r: HypervisorResult<()>)
    ensures
        final(pcpus)@.len() == old(pcpus)@.len(),
        old(pcpus)@.len() == 0 && pairs@.len() > 0 ==> r is Err,
        r is Ok ==> forall|k: int|
            0 <= k < pairs@.len() ==> final(pcpus)@[k % old(pcpus)@.len() as int].vcpus@.contains(
                #[trigger] pairs@[k],
            ),
        r is Err ==> r->Err_0 == HypervisorError::InvalidParam,
        (old(pcpus)@.len() > 0 && (forall|k1: int, k2: int|
            0 <= k1 < k2 < pairs@.len() ==> #[trigger] pairs@[k1] != #[trigger] pairs@[k2]) && (forall|k: int, q: int|
            0 <= k < pairs@.len() && 0 <= q < old(pcpus)@.len() ==> !#[trigger] old(pcpus)@[q].vcpus@.contains(
                pairs@[k],
            ))) ==> r is Ok,
{
    let num_pcpu = pcpus.len();
    if num_pcpu == 0 {
        if pairs.len() > 0 {
            return Err(HypervisorError::InvalidParam);
        }
        return Ok(());
    }
    let mut idx: usize = 0;
    while idx < pairs.len()
        invariant
            idx <= pairs@.len(),
            pcpus@.len() == num_pcpu,
            num_pcpu > 0,
            num_pcpu == old(pcpus)@.len(),
            forall|k: int| 0 <= k < idx ==> pcpus@[k % num_pcpu as int].vcpus@.contains(#[trigger] pairs@[k]),
            forall|q: int, w: int|
                0 <= q < num_pcpu && 0 <= w < pcpus@[q].vcpus@.len() ==> old(pcpus)@[q].vcpus@.contains(
                    #[trigger] pcpus@[q].vcpus@[w],
                ) || exists|k: int| 0 <= k < idx && pcpus@[q].vcpus@[w] == #[trigger] pairs@[k],
        decreases pairs@.len() - idx,
    {
        let (vm_id, vcpu_id) = pairs[idx];
        let p = idx % num_pcpu;
        let ghost before = pcpus@;
        match bind_vcpu_to_pcpu(pcpus, vm_id, vcpu_id, p) {
            Ok(()) => {},
            Err(e) => {
                proof {
                    if old(pcpus)@.len() > 0 && (forall|k1: int, k2: int|
                        0 <= k1 < k2 < pairs@.len() ==> #[trigger] pairs@[k1] != #[trigger] pairs@[k2]) && (forall|k: int, q: int|
                        0 <= k < pairs@.len() && 0 <= q < old(pcpus)@.len() ==> !#[trigger] old(pcpus)@[q].vcpus@.contains(
                            pairs@[k],
                        )) {
                        let w = choose|w: int| 0 <= w < before[p as int].vcpus@.len() && before[p as int].vcpus@[w] == (vm_id, vcpu_id);
                        assert(pairs@[idx as int] == (vm_id, vcpu_id));
                        if old(pcpus)@[p as int].vcpus@.contains(before[p as int].vcpus@[w]) {
                            assert(!old(pcpus)@[p as int].vcpus@.contains(pairs@[idx as int]));
                        } else {
                            let k = choose|k: int| 0 <= k < idx && before[p as int].vcpus@[w] == #[trigger] pairs@[k];
                            assert(pairs@[k] != pairs@[idx as int]);
                        }
                    }
                }
                return Err(e);
            },
        }
        proof {
            assert forall|k: int| 0 <= k < idx + 1 implies pcpus@[k % num_pcpu as int].vcpus@.contains(#[trigger] pairs@[k]) by {
                let q = k % num_pcpu as int;
                if k < idx {
                    let w = choose|w: int| 0 <= w < before[q].vcpus@.len() && before[q].vcpus@[w] == pairs@[k];
                    if q == p {
                        assert(pcpus@[q].vcpus@[w] == pairs@[k]);
                    } else {
                        assert(pcpus@[q] == before[q]);
                    }
                } else {
                    assert(pcpus@[q].vcpus@[before[q].vcpus@.len() as int] == pairs@[k]);
                }
            }
            assert forall|q: int, w: int|
                0 <= q < num_pcpu && 0 <= w < pcpus@[q].vcpus@.len() implies old(pcpus)@[q].vcpus@.contains(
                    #[trigger] pcpus@[q].vcpus@[w],
                ) || exists|k: int| 0 <= k < idx + 1 && pcpus@[q].vcpus@[w] == #[trigger] pairs@[k] by {
                if q == p && w == before[q].vcpus@.len() {
                    assert(pcpus@[q].vcpus@[w] == pairs@[idx as int]);
                } else {
                    assert(pcpus@[q].vcpus@[w] == before[q].vcpus@[w]);
                    if !old(pcpus)@[q].vcpus@.contains(before[q].vcpus@[w]) {
                        let k = choose|k: int| 0 <= k < idx && before[q].vcpus@[w] == #[trigger] pairs@[k];
                        assert(0 <= k < idx + 1);
                    }
                }
            }
        }
        idx = idx + 1;
    }
    Ok(())
}

/// The guest's status and exception-PC values and the G-stage control
/// value to install before the first entry into a vCPU: guest `hstatus` as
/// read, guest `sstatus` with SPP set, guest PC at the entry, and `hgatp`
/// in Sv39x4 mode pointing at the G-stage root.
pub fn prepare_vcpu(vcpu: &mut VCpu, entry: usize, hstatus: Hstatus, sstatus: Sstatus, hgatp: Hgatp, gpt_root: usize) -> (r: Hgatp)
    requires
        gpt_root / 4096 < 0x1000_0000_0000,
    ensures
        final(vcpu).guest_cpu_state.hstatus == hstatus.bits,
        final(vcpu).guest_cpu_state.sstatus == with_bit(sstatus.bits, 8, true),
        bit_of(final(vcpu).guest_cpu_state.sstatus, 8),
        final(vcpu).guest_cpu_state.sepc == entry,
        final(vcpu).guest_cpu_state.gprs == old(vcpu).guest_cpu_state.gprs,
        final(vcpu).hyp_cpu_state == old(vcpu).hyp_cpu_state,
        r.bits == with_field(with_field(hgatp.bits, 60, 64, mode_code(Mode::Sv39x4)), 0, 44, (gpt_root / 4096) as u64),
        field_of(r.bits, 60, 64) == mode_code(Mode::Sv39x4),
        field_of(r.bits, 0, 44) == gpt_root / 4096,
        field_of(r.bits, 44, 58) == field_of(hgatp.bits, 44, 58),
{
    vcpu.guest_cpu_state.hstatus = hstatus.bits();
    let mut s = sstatus;
    s.set_spp(true);
    vcpu.guest_cpu_state.sstatus = s.bits();
    vcpu.guest_cpu_state.sepc = entry;
    proof {
        lemma_with_bit(sstatus.bits, 8, true, 8);
    }
    let mut h = hgatp;
    h.set_mode(Mode::Sv39x4);
    h.set_ppn((gpt_root / PAGE_SIZE_4K) as u64);
    h
}

/// The hypervisor control registers as set up at boot, computed from their
/// current values: VS-mode guests with SPV/SPVP set; environment calls,
/// load/store page faults, illegal instructions and instruction access
/// faults delegated to VS-mode; VS timer and external interrupts
/// delegated; every counter visible; no virtual interrupt pending.
pub fn hypervisor_csr_values(hstatus: Hstatus, hedeleg: Hedeleg, hideleg: Hideleg, hvip: Hvip) -> (r: (
    Hstatus,
    Hedeleg,
    Hideleg,
    Hcounteren,
    Hvip,
))
    ensures
        r.0.bits == with_bit(with_bit(hstatus.bits, 7, true), 8, true),
        bit_of(r.0.bits, 7) && bit_of(r.0.bits, 8),
        r.1.bits == with_bit(with_bit(with_bit(with_bit(with_bit(hedeleg.bits, 8, true), 13, true), 15, true), 2, true), 1, true),
        r.2.bits == with_bit(with_bit(hideleg.bits, 6, true), 10, true),
        r.3.bits == 0xffff_ffff,
        r.4.bits == with_bit(with_bit(with_bit(hvip.bits, 10, false), 2, false), 6, false),
{
    let mut hs = hstatus;
    hs.set_spv(true);
    hs.set_spvp(true);
    proof {
        lemma_with_bit(hstatus.bits, 7, true, 7);
        lemma_with_bit(with_bit(hstatus.bits, 7, true), 8, true, 7);
        lemma_with_bit(with_bit(hstatus.bits, 7, true), 8, true, 8);
    }
    let mut he = hedeleg;
    he.set_env_call_from_u_or_vu(true);
    he.set_load_page_fault(true);
    he.set_store_page_fault(true);
    he.set_illegal_inst(true);
    he.set_inst_access_fault(true);
    let mut hi = hideleg;
    hi.set_vs_timer_interrupt(true);
    hi.set_vs_external_interrupt(true);
    let hc = Hcounteren::from_bits(0xffff_ffff);
    let mut hv = hvip;
    hv.set_vs_external_interrupt(false);
    hv.set_vs_software_interrupt(false);
    hv.set_vs_timer_interrupt(false);
    (hs, he, hi, hc, hv)
}

/// The `(vm_id, vcpu_id)` pairs of the given VMs, VM by VM and vCPU by vCPU
/// in order: the list that `bind_vcpus` deals out. Every pair is listed.
pub fn vcpu_pairs(vms: &[crate::vm::VM]) -> (r: Vec<(usize, usize)>)
    ensures
        forall|i: int, j: int|
            0 <= i < vms@.len() && 0 <= j < vms@[i].vcpus@.len() ==> r@.contains(
                (vms@[i].vm_id, #[trigger] vms@[i].vcpus@[j].vcpu_id),
            ),
{
    let mut out: Vec<(usize, usize)> = Vec::new();
    let mut i: usize = 0;
    while i < vms.len()
        invariant
            i <= vms@.len(),
            forall|a: int, b: int|
                0 <= a < i && 0 <= b < vms@[a].vcpus@.len() ==> out@.contains(
                    (vms@[a].vm_id, #[trigger] vms@[a].vcpus@[b].vcpu_id),
                ),
        decreases vms@.len() - i,
    {
        let vm = &vms[i];
        let mut j: usize = 0;
        while j < vm.vcpus.len()
            invariant
                i < vms@.len(),
                *vm == vms@[i as int],
                j <= vm.vcpus@.len(),
                forall|a: int, b: int|
                    0 <= a < i && 0 <= b < vms@[a].vcpus@.len() ==> out@.contains(
                        (vms@[a].vm_id, #[trigger] vms@[a].vcpus@[b].vcpu_id),
                    ),
                forall|b: int| 0 <= b < j ==> out@.contains((vm.vm_id, #[trigger] vm.vcpus@[b].vcpu_id)),
            decreases vm.vcpus@.len() - j,
        {
            let ghost before = out@;
            out.push((vm.vm_id, vm.vcpus[j].vcpu_id));
            proof {
                assert(out@[before.len() as int] == (vm.vm_id, vm.vcpus@[j as int].vcpu_id));
                assert forall|a: int, b: int|
                    0 <= a < i && 0 <= b < vms@[a].vcpus@.len() implies out@.contains(
                        (vms@[a].vm_id, #[trigger] vms@[a].vcpus@[b].vcpu_id),
                    ) by {
                    let w = choose|w: int| 0 <= w < before.len() && before[w] == (vms@[a].vm_id, vms@[a].vcpus@[b].vcpu_id);
                    assert(out@[w] == before[w]);
                }
                assert forall|b: int| 0 <= b < j + 1 implies out@.contains((vm.vm_id, #[trigger] vm.vcpus@[b].vcpu_id)) by {
                    if b < j {
                        let w = choose|w: int| 0 <= w < before.len() && before[w] == (vm.vm_id, vm.vcpus@[b].vcpu_id);
                        assert(out@[w] == before[w]);
                    }
                }
            }
            j = j + 1;
        }
        i = i + 1;
    }
    out
}

} // verus!
