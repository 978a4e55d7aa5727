use crate::vcpu::{GeneralPurposeRegs, VCpu, NUM_GPRS};
use vstd::prelude::*;

verus! {

/// The registers of a hart that a world switch exchanges.
#[derive(Debug, Clone, Copy)]
pub struct HartRegs {
    pub gprs: GeneralPurposeRegs,
    pub sstatus: usize,
    pub hstatus: usize,
    pub scounteren: usize,
    pub sepc: usize,
    pub stvec: usize,
    pub sscratch: usize,
}

/// Registers the hypervisor keeps across a guest run: ra, sp, gp, tp, s0, s1,
/// a0 to a7 and s2 to s11. The temporaries t0 to t6 are not kept.
pub open spec fn kept_across_switch(k: int) -> bool {
    (1 <= k <= 4) || (8 <= k <= 27)
}

fn is_kept(k: usize) -> (r: bool)
    ensures
        r == kept_across_switch(k as int),
{
    (1 <= k && k <= 4) || (8 <= k && k <= 27)
}

/// What entering the guest does: the hypervisor's kept registers, status,
/// hstatus, counter-enable, trap vector and scratch go to the vCPU's
/// hypervisor half;
/// the guest's registers, status, counter-enable, hstatus and PC come in;
/// the trap vector points at the exit path and scratch holds the vCPU.
pub open spec fn enter_post(h0: HartRegs, v0: VCpu, h1: HartRegs, v1: VCpu, exit_entry: usize, vcpu_addr: usize) -> bool {
    &&& forall|k: int| 0 <= k < 32 && kept_across_switch(k) ==> #[trigger] v1.hyp_cpu_state.gprs.0[k] == h0.gprs.0[k]
    &&& forall|k: int| 0 <= k < 32 && !kept_across_switch(k) ==> #[trigger] v1.hyp_cpu_state.gprs.0[k] == v0.hyp_cpu_state.gprs.0[k]
    &&& v1.hyp_cpu_state.sstatus == h0.sstatus
    &&& v1.hyp_cpu_state.scounteren == h0.scounteren
    &&& v1.hyp_cpu_state.stvec == h0.stvec
    &&& v1.hyp_cpu_state.sscratch == h0.sscratch
    &&& v1.hyp_cpu_state.hstatus == h0.hstatus
    &&& v1.guest_cpu_state == v0.guest_cpu_state
    &&& v1.vcpu_id == v0.vcpu_id
    &&& forall|k: int| 1 <= k < 32 ==> #[trigger] h1.gprs.0[k] == v0.guest_cpu_state.gprs.0[k]
    &&& h1.gprs.0[0] == h0.gprs.0[0]
    &&& h1.sstatus == v0.guest_cpu_state.sstatus
    &&& h1.hstatus == v0.guest_cpu_state.hstatus
    &&& h1.scounteren == v0.guest_cpu_state.scounteren
    &&& h1.sepc == v0.guest_cpu_state.sepc
    &&& h1.stvec == exit_entry
    &&& h1.sscratch == vcpu_addr
}

/// What a guest exit does: every guest register but x0, the guest's status,
/// counter-enable, hstatus and PC go to the vCPU's guest half; the
/// hypervisor's kept registers, status, hstatus, counter-enable, trap vector
/// and scratch come back from its hypervisor half. Status, hstatus and
/// counter-enable are swapped, not overwritten, so the values the hypervisor had are the
/// ones it gets back.
pub open spec fn exit_post(h0: HartRegs, v0: VCpu, h1: HartRegs, v1: VCpu) -> bool {
    &&& forall|k: int| 1 <= k < 32 ==> #[trigger] v1.guest_cpu_state.gprs.0[k] == h0.gprs.0[k]
    &&& v1.guest_cpu_state.gprs.0[0] == v0.guest_cpu_state.gprs.0[0]
    &&& v1.guest_cpu_state.sstatus == h0.sstatus
    &&& v1.guest_cpu_state.hstatus == h0.hstatus
    &&& v1.guest_cpu_state.scounteren == h0.scounteren
    &&& v1.guest_cpu_state.sepc == h0.sepc
    &&& v1.hyp_cpu_state == v0.hyp_cpu_state
    &&& v1.vcpu_id == v0.vcpu_id
    &&& forall|k: int| 0 <= k < 32 && kept_across_switch(k) ==> #[trigger] h1.gprs.0[k] == v0.hyp_cpu_state.gprs.0[k]
    &&& forall|k: int| 0 <= k < 32 && !kept_across_switch(k) ==> #[trigger] h1.gprs.0[k] == h0.gprs.0[k]
    &&& h1.sstatus == v0.hyp_cpu_state.sstatus
    &&& h1.hstatus == v0.hyp_cpu_state.hstatus
    &&& h1.scounteren == v0.hyp_cpu_state.scounteren
    &&& h1.sepc == h0.sepc
    &&& h1.stvec == v0.hyp_cpu_state.stvec
    &&& h1.sscratch == v0.hyp_cpu_state.sscratch
}

/// Switch from the hypervisor to the guest held in `vcpu`.
pub fn vm_enter(hart: &mut HartRegs, vcpu: &mut VCpu, exit_entry: usize, vcpu_addr: usize)
    ensures
        enter_post(*old(hart), *old(vcpu), *final(hart), *final(vcpu), exit_entry, vcpu_addr),
{
    let ghost h0 = *hart;
    let ghost v0 = *vcpu;
    let mut k: usize = 0;
    while k < NUM_GPRS
        invariant
            k <= 32,
            h0 == *old(hart),
            v0 == *old(vcpu),
            vcpu.guest_cpu_state == v0.guest_cpu_state,
            vcpu.vcpu_id == v0.vcpu_id,
            vcpu.hyp_cpu_state.sstatus == v0.hyp_cpu_state.sstatus,
            vcpu.hyp_cpu_state.scounteren == v0.hyp_cpu_state.scounteren,
            vcpu.hyp_cpu_state.stvec == v0.hyp_cpu_state.stvec,
            vcpu.hyp_cpu_state.sscratch == v0.hyp_cpu_state.sscratch,
            vcpu.hyp_cpu_state.hstatus == v0.hyp_cpu_state.hstatus,
            forall|j: int| 0 <= j < k && kept_across_switch(j) ==> #[trigger] vcpu.hyp_cpu_state.gprs.0[j] == h0.gprs.0[j],
            forall|j: int| 0 <= j < 32 && (j >= k || !kept_across_switch(j)) ==> #[trigger] vcpu.hyp_cpu_state.gprs.0[j] == v0.hyp_cpu_state.gprs.0[j],
            forall|j: int| 1 <= j < k ==> #[trigger] hart.gprs.0[j] == v0.guest_cpu_state.gprs.0[j],
            forall|j: int| 0 <= j < 32 && (j >= k || j == 0) ==> #[trigger] hart.gprs.0[j] == h0.gprs.0[j],
            hart.sstatus == h0.sstatus && hart.hstatus == h0.hstatus && hart.scounteren == h0.scounteren,
            hart.sepc == h0.sepc && hart.stvec == h0.stvec && hart.sscratch == h0.sscratch,
        decreases 32 - k,
    {
        if is_kept(k) {
            vcpu.hyp_cpu_state.gprs.set(k, hart.gprs.get(k));
        }
        if k != 0 {
            hart.gprs.set(k, vcpu.guest_cpu_state.gprs.get(k));
        }
        k = k + 1;
    }
    vcpu.hyp_cpu_state.sstatus = hart.sstatus;
    hart.sstatus = vcpu.guest_cpu_state.sstatus;
    vcpu.hyp_cpu_state.hstatus = hart.hstatus;
    hart.hstatus = vcpu.guest_cpu_state.hstatus;
    vcpu.hyp_cpu_state.scounteren = hart.scounteren;
    hart.scounteren = vcpu.guest_cpu_state.scounteren;
    vcpu.hyp_cpu_state.stvec = hart.stvec;
    vcpu.hyp_cpu_state.sscratch = hart.sscratch;
    hart.stvec = exit_entry;
    hart.sscratch = vcpu_addr;
    hart.sepc = vcpu.guest_cpu_state.sepc;
}

/// Switch back from the guest to the hypervisor when the guest traps.
pub fn vm_exit(hart: &mut HartRegs, vcpu: &mut VCpu)
    ensures
        exit_post(*old(hart), *old(vcpu), *final(hart), *final(vcpu)),
{
    let ghost h0 = *hart;
    let ghost v0 = *vcpu;
    let mut k: usize = 0;
    while k < NUM_GPRS
        invariant
            k <= 32,
            h0 == *old(hart),
            v0 == *old(vcpu),
            vcpu.hyp_cpu_state == v0.hyp_cpu_state,
            vcpu.vcpu_id == v0.vcpu_id,
            vcpu.guest_cpu_state.sstatus == v0.guest_cpu_state.sstatus,
            vcpu.guest_cpu_state.hstatus == v0.guest_cpu_state.hstatus,
            vcpu.guest_cpu_state.scounteren == v0.guest_cpu_state.scounteren,
            vcpu.guest_cpu_state.sepc == v0.guest_cpu_state.sepc,
            forall|j: int| 1 <= j < k ==> #[trigger] vcpu.guest_cpu_state.gprs.0[j] == h0.gprs.0[j],
            forall|j: int| 0 <= j < 32 && (j >= k || j == 0) ==> #[trigger] vcpu.guest_cpu_state.gprs.0[j] == v0.guest_cpu_state.gprs.0[j],
            forall|j: int| 0 <= j < k && kept_across_switch(j) ==> #[trigger] hart.gprs.0[j] == v0.hyp_cpu_state.gprs.0[j],
            forall|j: int| 0 <= j < 32 && (j >= k || !kept_across_switch(j)) ==> #[trigger] hart.gprs.0[j] == h0.gprs.0[j],
            hart.sstatus == h0.sstatus && hart.hstatus == h0.hstatus && hart.scounteren == h0.scounteren,
            hart.sepc == h0.sepc && hart.stvec == h0.stvec && hart.sscratch == h0.sscratch,
        decreases 32 - k,
    {
        if k != 0 {
            vcpu.guest_cpu_state.gprs.set(k, hart.gprs.get(k));
        }
        if is_kept(k) {
            hart.gprs.set(k, vcpu.hyp_cpu_state.gprs.get(k));
        }
        k = k + 1;
    }
    vcpu.guest_cpu_state.sstatus = hart.sstatus;
    hart.sstatus = vcpu.hyp_cpu_state.sstatus;
    vcpu.guest_cpu_state.hstatus = hart.hstatus;
    hart.hstatus = vcpu.hyp_cpu_state.hstatus;
    vcpu.guest_cpu_state.scounteren = hart.scounteren;
    hart.scounteren = vcpu.hyp_cpu_state.scounteren;
    hart.stvec = vcpu.hyp_cpu_state.stvec;
    hart.sscratch = vcpu.hyp_cpu_state.sscratch;
    vcpu.guest_cpu_state.sepc = hart.sepc;
}

/// World-switch round trip: whatever the guest does to the hart's
/// registers between entry and exit, the exit gives the hypervisor back its
/// kept registers, status, hstatus, counter-enable, trap vector and scratch
/// exactly as they were before entry, and saves what the guest left in the vCPU.
pub proof fn lemma_world_switch_round_trip(
    h0: HartRegs,
    v0: VCpu,
    h1: HartRegs,
    v1: VCpu,
    h2: HartRegs,
    h3: HartRegs,
    v3: VCpu,
    exit_entry: usize,
    vcpu_addr: usize,
)
    requires
        enter_post(h0, v0, h1, v1, exit_entry, vcpu_addr),
        exit_post(h2, v1, h3, v3),
    ensures
        forall|k: int| 0 <= k < 32 && kept_across_switch(k) ==> #[trigger] h3.gprs.0[k] == h0.gprs.0[k],
        h3.sstatus == h0.sstatus,
        h3.hstatus == h0.hstatus,
        h3.scounteren == h0.scounteren,
        h3.stvec == h0.stvec,
        h3.sscratch == h0.sscratch,
        forall|k: int| 1 <= k < 32 ==> #[trigger] v3.guest_cpu_state.gprs.0[k] == h2.gprs.0[k],
        v3.guest_cpu_state.sepc == h2.sepc,
        v3.guest_cpu_state.sstatus == h2.sstatus,
{
    assert forall|k: int| 0 <= k < 32 && kept_across_switch(k) implies #[trigger] h3.gprs.0[k] == h0.gprs.0[k] by {
        assert(h3.gprs.0[k] == v1.hyp_cpu_state.gprs.0[k]);
        assert(v1.hyp_cpu_state.gprs.0[k] == h0.gprs.0[k]);
    }
}

} // verus!
