use crate::config::PAGE_SIZE_4K;
use crate::error::{HypervisorError, HypervisorResult};
use crate::frame::PhysFrameAllocator;
use crate::pte::{lemma_pte_round_trip, pte_bits, pte_paddr, pte_valid, PTE_ADDR_LIMIT, PTE_V};
use crate::addr::HostPhysAddr;
use vstd::prelude::*;

verus! {

/// Entries in one non-root table.
pub const TABLE_ENTRIES: usize = 512;

/// Bytes covered by one leaf entry, one second-level entry, one root entry.
pub const LEAF_SPAN: usize = 0x1000;
pub const L2_SPAN: usize = 0x20_0000;
pub const ROOT_SPAN: usize = 0x4000_0000;

/// Page number of `va` within a three-level table whose root has `root_len`
/// entries: addresses that differ only above the translated bits share it.
pub open spec fn vpn_of(va: int, root_len: int) -> int {
    (va / 4096) % (root_len * 512 * 512)
}

/// One table frame below the root: its host-physical address, its position
/// in the tree (the page-number prefix it covers) and its 512 entries.
pub struct TableFrame {
    paddr: usize,
    key: usize,
    parent: usize,
    entries: Vec<u64>,
}

/// A three-level radix table. The root has 512 entries (host, Sv39) or 2048
/// (guest, Sv39x4); second- and third-level tables have 512. Tables below the
/// root are kept in one list per level, keyed by the page-number prefix they
/// cover, and the entries that point at them hold their physical addresses.
/// `table_frames` lists every frame with its words, so that the caller can
/// write them to those addresses, where the hardware walker then reaches the
/// same tables.
pub struct RadixTable {
    root_paddr: usize,
    root_frames: usize,
    root: Vec<u64>,
    l2: Vec<TableFrame>,
    l3: Vec<TableFrame>,
}

impl RadixTable {
    pub closed spec fn root_len(&self) -> int {
        self.root@.len() as int
    }

    pub closed spec fn root_addr(&self) -> int {
        self.root_paddr as int
    }

    closed spec fn has_l2(&self, k: int) -> bool {
        exists|j: int| 0 <= j < self.l2@.len() && #[trigger] self.l2@[j].key == k
    }

    closed spec fn has_l3(&self, k: int) -> bool {
        exists|m: int| 0 <= m < self.l3@.len() && #[trigger] self.l3@[m].key == k
    }

    closed spec fn l3_at(&self, k: int) -> int {
        choose|m: int| 0 <= m < self.l3@.len() && #[trigger] self.l3@[m].key == k
    }

    /// The leaf entry word of page `vpn`; zero where no table holds it.
    pub closed spec fn leaf(&self, vpn: int) -> u64 {
        if self.has_l3(vpn / 512) {
            self.l3@[self.l3_at(vpn / 512)].entries@[vpn % 512]
        } else {
            0
        }
    }

    /// Number of tables a walk to page `vpn` would still have to create.
    pub closed spec fn missing_tables(&self, vpn: int) -> int {
        (if self.has_l2(vpn / 262144) { 0int } else { 1int }) + (if self.has_l3(vpn / 512) {
            0int
        } else {
            1int
        })
    }

    /// What `translate(va)` returns.
    pub open spec fn translate_spec(&self, va: int) -> HypervisorResult<usize> {
        let e = self.leaf(vpn_of(va, self.root_len()));
        if pte_valid(e) {
            Ok((pte_paddr(e) as int + va % 4096) as usize)
        } else {
            Err(HypervisorError::NotMapped)
        }
    }

    pub closed spec fn wf(&self) -> bool {
        &&& self.root@.len() == 512 * self.root_frames
        &&& (self.root_frames == 1 || self.root_frames == 4)
        &&& self.root_paddr % 4096 == 0
        &&& (self.root_paddr as int) < PTE_ADDR_LIMIT as int
        &&& forall|j: int|
            0 <= j < self.l2@.len() ==> {
                &&& (#[trigger] self.l2@[j]).entries@.len() == 512
                &&& self.l2@[j].key < self.root@.len()
                &&& self.l2@[j].paddr % 4096 == 0
                &&& (self.l2@[j].paddr as int) < PTE_ADDR_LIMIT as int
                &&& self.root@[self.l2@[j].key as int] == pte_bits(self.l2@[j].paddr as u64, PTE_V as u64)
            }
        &&& forall|m: int|
            0 <= m < self.l3@.len() ==> {
                &&& (#[trigger] self.l3@[m]).entries@.len() == 512
                &&& self.l3@[m].key < self.root@.len() * 512
                &&& self.l3@[m].paddr % 4096 == 0
                &&& (self.l3@[m].paddr as int) < PTE_ADDR_LIMIT as int
                &&& self.l3@[m].parent < self.l2@.len()
                &&& self.l2@[self.l3@[m].parent as int].key == self.l3@[m].key / 512
                &&& self.l2@[self.l3@[m].parent as int].entries@[self.l3@[m].key as int % 512]
                    == pte_bits(self.l3@[m].paddr as u64, PTE_V as u64)
            }
        &&& forall|j: int, k: int|
            0 <= j < self.l2@.len() && 0 <= k < self.l2@.len() && j != k ==> #[trigger] self.l2@[j].key
                != #[trigger] self.l2@[k].key
        &&& forall|j: int, k: int|
            0 <= j < self.l3@.len() && 0 <= k < self.l3@.len() && j != k ==> #[trigger] self.l3@[j].key
                != #[trigger] self.l3@[k].key
        &&& forall|i: int| 0 <= i < self.root@.len() && !self.has_l2(i) ==> #[trigger] self.root@[i] == 0
        &&& forall|j: int, s: int|
            0 <= j < self.l2@.len() && 0 <= s < 512 && !self.has_l3(self.l2@[j].key * 512 + s)
                ==> #[trigger] self.l2@[j].entries@[s] == 0
        &&& forall|m: int, s: int|
            0 <= m < self.l3@.len() && 0 <= s < 512 && pte_valid(#[trigger] self.l3@[m].entries@[s])
                ==> pte_paddr(self.l3@[m].entries@[s]) as int + 4096 <= usize::MAX as int + 1
    }

    proof fn lemma_l3_at(&self, m: int)
        requires
            self.wf(),
            0 <= m < self.l3@.len(),
        ensures
            self.has_l3(self.l3@[m].key as int),
            self.l3_at(self.l3@[m].key as int) == m,
    {
        let k = self.l3@[m].key as int;
        assert(self.has_l3(k));
        let c = self.l3_at(k);
        if c != m {
            assert(self.l3@[c].key != self.l3@[m].key);
        }
    }
}

/// A table of `n` zero entries.
fn zero_entries(n: usize) -> (r: Vec<u64>)
    ensures
        r@.len() == n,
        forall|i: int| 0 <= i < n ==> r@[i] == 0,
{
    let mut v: Vec<u64> = Vec::new();
    let mut i: usize = 0;
    while i < n
        invariant
            i <= n,
            v@.len() == i,
            forall|k: int| 0 <= k < i ==> v@[k] == 0,
        decreases n - i,
    {
        v.push(0);
        i = i + 1;
    }
    v
}

/// Position of the table with prefix `key` in `frames`.
fn find_key(frames: &Vec<TableFrame>, key: usize) -> (r: Option<usize>)
    ensures
        match r {
            Some(j) => j < frames@.len() && frames@[j as int].key == key,
            None => forall|j: int| 0 <= j < frames@.len() ==> #[trigger] frames@[j].key != key,
        },
{
    let mut j: usize = 0;
    while j < frames.len()
        invariant
            j <= frames@.len(),
            forall|k: int| 0 <= k < j ==> #[trigger] frames@[k].key != key,
        decreases frames@.len() - j,
    {
        if frames[j].key == key {
            return Some(j);
        }
        j = j + 1;
    }
    None
}

impl RadixTable {
    /// Take one zeroed 4 KiB frame for a new table.
    fn new_table_frame(alloc: &mut PhysFrameAllocator) -> (r: HypervisorResult<usize>)
        requires
            old(alloc).wf(),
            old(alloc)@.base + old(alloc)@.total * 4096 <= PTE_ADDR_LIMIT as int,
        ensures
            final(alloc).wf(),
            final(alloc)@.base == old(alloc)@.base,
            final(alloc)@.total == old(alloc)@.total,
            final(alloc)@.free.subset_of(old(alloc)@.free),
            r is Ok ==> r->Ok_0 % 4096 == 0,
            r is Ok ==> (r->Ok_0 as int) < PTE_ADDR_LIMIT as int,
            r is Ok ==> old(alloc)@.free.len() > 0,
            r is Ok ==> final(alloc)@.free.len() == old(alloc)@.free.len() - 1,
            r is Ok ==> old(alloc)@.alloc_post(final(alloc)@, 1, 4096, Ok(HostPhysAddr(r->Ok_0))),
            r is Err ==> r->Err_0 == HypervisorError::NoMemory,
            r is Err ==> old(alloc)@.free.len() == 0,
            r is Err ==> final(alloc)@ == old(alloc)@,
    {
        let ghost v0 = alloc@;
        let got = alloc.alloc_frames(1, PAGE_SIZE_4K);
        proof {
            crate::frame::lemma_single_frame_run(v0);
        }
        match got {
            Ok(a) => {
                proof {
                    crate::frame::lemma_alloc_addr(v0, alloc@, 1, 4096, a);
                    let i = v0.index_of(a.0 as int);
                    assert(a.0 + 4096 <= v0.base + v0.total * 4096) by (nonlinear_arith)
                        requires a.0 == v0.base + i * 4096, i + 1 <= v0.total;
                    assert(a.0 % 4096 == 0) by (nonlinear_arith)
                        requires a.0 == v0.base + i * 4096, v0.base % 4096 == 0;
                    assert(v0.run_fits(i, 1, 4096));
                    assert(v0.has_run(1, 4096));
                    assert(alloc@.free.len() == v0.free.len() - 1);
                    assert((a.0 as int) < PTE_ADDR_LIMIT as int);
                    assert(v0.free.len() > 0);
                    assert(v0.alloc_post(alloc@, 1, 4096, Ok(HostPhysAddr(a.0))));
                }
                Ok(a.0)
            },
            Err(e) => {
                proof {
                    assert(alloc@.free == v0.free);
                    assert(alloc@.used == v0.used);
                }
                Err(e)
            },
        }
    }

    /// Find the second-level table for root index `i1`, creating it if absent.
    #[verifier::spinoff_prover]
    fn ensure_l2(&mut self, alloc: &mut PhysFrameAllocator, i1: usize) -> (r: HypervisorResult<
        usize,
    >)
        requires
            old(self).wf(),
            old(alloc).wf(),
            old(alloc)@.base + old(alloc)@.total * 4096 <= PTE_ADDR_LIMIT as int,
            i1 < old(self).root@.len(),
        ensures
            final(self).wf(),
            final(alloc).wf(),
            final(alloc)@.base == old(alloc)@.base,
            final(alloc)@.total == old(alloc)@.total,
            final(alloc)@.free.subset_of(old(alloc)@.free),
            final(self).root@.len() == old(self).root@.len(),
            final(self).root_paddr == old(self).root_paddr,
            final(self).l3@ == old(self).l3@,
            forall|k: int| #[trigger] final(self).has_l3(k) == old(self).has_l3(k),
            forall|vpn: int| #[trigger] final(self).leaf(vpn) == old(self).leaf(vpn),
            match r {
                Ok(j) => {
                    &&& j < final(self).l2@.len()
                    &&& final(self).l2@[j as int].key == i1
                    &&& old(self).has_l2(i1 as int) ==> final(alloc)@ == old(alloc)@
                    &&& !old(self).has_l2(i1 as int) ==> old(alloc)@.free.len() > 0
                        && final(alloc)@.free.len() == old(alloc)@.free.len() - 1
                },
                Err(e) => {
                    &&& e == HypervisorError::NoMemory
                    &&& !old(self).has_l2(i1 as int)
                    &&& old(alloc)@.free.len() == 0
                    &&& final(alloc)@ == old(alloc)@
                },
            },
    {
        match find_key(&self.l2, i1) {
            Some(j) => {
                proof {
                    assert(self.has_l2(i1 as int));
                }
                Ok(j)
            },
            None => {
                proof {
                    assert(!self.has_l2(i1 as int));
                }
                let ghost t0 = *self;
                let p = match Self::new_table_frame(alloc) {
                    Ok(p) => p,
                    Err(e) => {
                        return Err(e);
                    },
                };
                let entries = zero_entries(TABLE_ENTRIES);
                self.l2.push(TableFrame { paddr: p, key: i1, parent: 0, entries });
                proof {
                    lemma_pte_round_trip(p as u64, PTE_V as u64);
                }
                self.root.set(i1, pte_bits_exec(p, PTE_V));
                let j = self.l2.len() - 1;
                proof {
                    let t = *self;
                    assert(t.l2@[j as int].key == i1);
                    assert forall|k: int| 0 <= k < t.l2@.len() && k != j implies t.l2@[k] == t0.l2@[k]
                        && t.l2@[k].key != i1 by {}
                    assert forall|i: int| 0 <= i < t.root@.len() && !t.has_l2(i) implies #[trigger] t.root@[i] == 0 by {
                        if i != i1 {
                            if t0.has_l2(i) {
                                let w = choose|w: int| 0 <= w < t0.l2@.len() && #[trigger] t0.l2@[w].key == i;
                                assert(t.l2@[w].key == i);
                            }
                        } else {
                            assert(t.l2@[j as int].key == i);
                        }
                    }
                    assert forall|k: int| #[trigger] t.has_l3(k) == t0.has_l3(k) by {}
                    assert forall|w: int, s: int|
                        0 <= w < t.l2@.len() && 0 <= s < 512 && !t.has_l3(t.l2@[w].key * 512 + s)
                        implies #[trigger] t.l2@[w].entries@[s] == 0 by {
                    }
                    assert forall|m: int| 0 <= m < t.l3@.len() implies #[trigger] t.l2@[t.l3@[m].parent as int]
                        == t0.l2@[t0.l3@[m].parent as int] by {}
                    assert forall|vpn: int| #[trigger] t.leaf(vpn) == t0.leaf(vpn) by {}
                    assert(t.wf());
                }
                Ok(j)
            },
        }
    }
}

impl RadixTable {
    /// Find the third-level table for prefix `k3` below second-level table
    /// `j2`, creating it if absent.
    #[verifier::spinoff_prover]
    fn ensure_l3(&mut self, alloc: &mut PhysFrameAllocator, j2: usize, k3: usize) -> (r:
        HypervisorResult<usize>)
        requires
            old(self).wf(),
            old(alloc).wf(),
            old(alloc)@.base + old(alloc)@.total * 4096 <= PTE_ADDR_LIMIT as int,
            j2 < old(self).l2@.len(),
            old(self).l2@[j2 as int].key == k3 / 512,
            k3 < old(self).root@.len() * 512,
        ensures
            final(self).wf(),
            final(alloc).wf(),
            final(alloc)@.base == old(alloc)@.base,
            final(alloc)@.total == old(alloc)@.total,
            final(alloc)@.free.subset_of(old(alloc)@.free),
            final(self).root@.len() == old(self).root@.len(),
            final(self).root_paddr == old(self).root_paddr,
            forall|k: int| #[trigger] final(self).has_l2(k) == old(self).has_l2(k),
            forall|vpn: int| #[trigger] final(self).leaf(vpn) == old(self).leaf(vpn),
            match r {
                Ok(m) => {
                    &&& m < final(self).l3@.len()
                    &&& final(self).l3@[m as int].key == k3
                    &&& old(self).has_l3(k3 as int) ==> final(alloc)@ == old(alloc)@
                    &&& !old(self).has_l3(k3 as int) ==> old(alloc)@.free.len() > 0
                        && final(alloc)@.free.len() == old(alloc)@.free.len() - 1
                },
                Err(e) => {
                    &&& e == HypervisorError::NoMemory
                    &&& !old(self).has_l3(k3 as int)
                    &&& old(alloc)@.free.len() == 0
                    &&& final(alloc)@ == old(alloc)@
                },
            },
    {
        match find_key(&self.l3, k3) {
            Some(m) => {
                proof {
                    assert(self.has_l3(k3 as int));
                }
                Ok(m)
            },
            None => {
                proof {
                    assert(!self.has_l3(k3 as int));
                }
                let ghost t0 = *self;
                let p = match Self::new_table_frame(alloc) {
                    Ok(p) => p,
                    Err(e) => {
                        return Err(e);
                    },
                };
                let i2 = k3 % TABLE_ENTRIES;
                let entries = zero_entries(TABLE_ENTRIES);
                self.l3.push(TableFrame { paddr: p, key: k3, parent: j2, entries });
                proof {
                    lemma_pte_round_trip(p as u64, PTE_V as u64);
                }
                let e = pte_bits_exec(p, PTE_V);
                self.l2[j2].entries.set(i2, e);
                let m = self.l3.len() - 1;
                proof {
                    let t = *self;
                    assert(!pte_valid(0u64)) by (bit_vector);
                    assert forall|w: int, s: int|
                        0 <= w < t.l3@.len() && 0 <= s < 512 && pte_valid(#[trigger] t.l3@[w].entries@[s])
                        implies pte_paddr(t.l3@[w].entries@[s]) as int + 4096 <= usize::MAX as int + 1 by {
                        if w != m {
                            assert(t.l3@[w] == t0.l3@[w]);
                        }
                    }
                    assert(t.l3@[m as int].key == k3);
                    assert forall|k: int| 0 <= k < t.l2@.len() implies (#[trigger] t.l2@[k]).key
                        == t0.l2@[k].key && t.l2@[k].paddr == t0.l2@[k].paddr by {}
                    assert forall|k: int| #[trigger] t.has_l2(k) == t0.has_l2(k) by {
                        if t0.has_l2(k) {
                            let w = choose|w: int| 0 <= w < t0.l2@.len() && #[trigger] t0.l2@[w].key == k;
                            assert(t.l2@[w].key == k);
                        }
                        if t.has_l2(k) {
                            let w = choose|w: int| 0 <= w < t.l2@.len() && #[trigger] t.l2@[w].key == k;
                            assert(t0.l2@[w].key == k);
                        }
                    }
                    assert forall|k: int| k != k3 implies #[trigger] t.has_l3(k) == t0.has_l3(k) by {
                        if t0.has_l3(k) {
                            let w = choose|w: int| 0 <= w < t0.l3@.len() && #[trigger] t0.l3@[w].key == k;
                            assert(t.l3@[w].key == k);
                        }
                    }
                    assert(t.has_l3(k3 as int));
                    assert forall|w: int| 0 <= w < t.l3@.len() && w != m implies #[trigger] t.l3@[w] == t0.l3@[w]
                        && t.l3@[w].key != k3 by {}
                    assert forall|w: int| 0 <= w < t.l3@.len() implies {
                        &&& t.l3@[w].parent < t.l2@.len()
                        &&& t.l2@[(#[trigger] t.l3@[w]).parent as int].key == t.l3@[w].key / 512
                        &&& t.l2@[t.l3@[w].parent as int].entries@[t.l3@[w].key as int % 512]
                            == pte_bits(t.l3@[w].paddr as u64, PTE_V as u64)
                    } by {
                        if w != m {
                            let q = t.l3@[w].parent as int;
                            let kw = t.l3@[w].key as int;
                            if q == j2 && kw % 512 == i2 {
                                assert(kw / 512 == k3 / 512);
                                assert(kw == k3) by (nonlinear_arith)
                                    requires kw / 512 == k3 / 512, kw % 512 == k3 % 512, kw >= 0, k3 >= 0;
                            }
                        }
                    }
                    assert forall|w: int, s: int|
                        0 <= w < t.l2@.len() && 0 <= s < 512 && !t.has_l3(t.l2@[w].key * 512 + s)
                        implies #[trigger] t.l2@[w].entries@[s] == 0 by {
                        if w == j2 && s == i2 {
                            assert(t.l2@[w].key * 512 + s == k3);
                        }
                    }
                    assert forall|vpn: int| #[trigger] t.leaf(vpn) == t0.leaf(vpn) by {
                        let k = vpn / 512;
                        if k != k3 {
                            if t0.has_l3(k) {
                                let w = t0.l3_at(k);
                                t0.lemma_l3_at(w);
                                assert(t.l3@[w].key == k);
                                t.lemma_l3_at(w);
                            }
                        } else {
                            t.lemma_l3_at(m as int);
                        }
                    }
                    assert(t.wf());
                }
                Ok(m)
            },
        }
    }

    /// Map the page at `va` to the frame at `pa` with `flags`, creating the
    /// tables on the way from frames of `alloc`.
    #[verifier::spinoff_prover]
    pub fn map(
        &mut self,
        alloc: &mut PhysFrameAllocator,
        va: usize,
        pa: usize,
        flags: usize,
    ) -> (r: HypervisorResult<()>)
        requires
            flags <= 0xff,
            old(self).wf(),
            old(alloc).wf(),
            old(alloc)@.base + old(alloc)@.total * 4096 <= PTE_ADDR_LIMIT as int,
        ensures
            final(self).wf(),
            final(alloc).wf(),
            final(alloc)@.base == old(alloc)@.base,
            final(alloc)@.total == old(alloc)@.total,
            final(alloc)@.free.subset_of(old(alloc)@.free),
            final(self).root_len() == old(self).root_len(),
            final(self).root_addr() == old(self).root_addr(),
            final(alloc)@.free.len() + old(self).missing_tables(vpn_of(va as int, old(self).root_len()))
                >= old(alloc)@.free.len(),
            0 <= old(self).missing_tables(vpn_of(va as int, old(self).root_len())) <= 2,
            (r == Err::<(), HypervisorError>(HypervisorError::AlreadyMapped) || r == Err::<(), HypervisorError>(
                HypervisorError::InvalidParam)) ==> final(alloc)@ == old(alloc)@,
            Self::map_post(*old(self), *final(self), old(alloc)@.free.len() as int, va as int, pa as int, flags as int, r),
    {
        if va % PAGE_SIZE_4K != 0 || pa % PAGE_SIZE_4K != 0 || pa as u64 >= PTE_ADDR_LIMIT || pa
            > usize::MAX - (PAGE_SIZE_4K - 1) {
            return Err(HypervisorError::InvalidParam);
        }
        let ghost t0 = *self;
        let ghost a0 = alloc@;
        let span = self.root.len() * TABLE_ENTRIES * TABLE_ENTRIES;
        let vpn = (va / PAGE_SIZE_4K) % span;
        let i1 = vpn / (TABLE_ENTRIES * TABLE_ENTRIES);
        let k3 = vpn / TABLE_ENTRIES;
        let i3 = vpn % TABLE_ENTRIES;
        proof {
            assert(vpn == vpn_of(va as int, t0.root_len()));
            assert(i1 < self.root@.len()) by (nonlinear_arith)
                requires i1 == vpn / 262144, vpn < span, span == self.root@.len() * 262144;
            assert(k3 < self.root@.len() * 512) by (nonlinear_arith)
                requires k3 == vpn / 512, vpn < span, span == self.root@.len() * 262144;
            assert(k3 / 512 == i1) by (nonlinear_arith)
                requires k3 == vpn / 512, i1 == vpn / 262144, vpn >= 0;
        }
        let j2 = match self.ensure_l2(alloc, i1) {
            Ok(j) => j,
            Err(e) => {
                proof {
                    assert(!t0.has_l3(k3 as int)) by {
                        if t0.has_l3(k3 as int) {
                            let w = t0.l3_at(k3 as int);
                            assert(t0.l2@[t0.l3@[w].parent as int].key == i1);
                        }
                    }
                }
                return Err(e);
            },
        };
        let ghost t1 = *self;
        let ghost a1 = alloc@;
        let m = match self.ensure_l3(alloc, j2, k3) {
            Ok(m) => m,
            Err(e) => {
                return Err(e);
            },
        };
        proof {
            self.lemma_l3_at(m as int);
            assert(self.leaf(vpn as int) == self.l3@[m as int].entries@[i3 as int]);
        }
        if self.l3[m].entries[i3] != 0 {
            proof {
                assert(t0.has_l3(k3 as int)) by {
                    if !t0.has_l3(k3 as int) {
                        assert(!t1.has_l3(k3 as int));
                    }
                }
                if !t0.has_l2(i1 as int) {
                    let w = t0.l3_at(k3 as int);
                    t0.lemma_l3_at(w);
                    assert(t0.l2@[t0.l3@[w].parent as int].key == i1);
                }
            }
            return Err(HypervisorError::AlreadyMapped);
        }
        let ghost t2 = *self;
        proof {
            lemma_pte_round_trip(pa as u64, flags as u64);
        }
        let e = pte_bits_exec(pa, flags);
        self.l3[m].entries.set(i3, e);
        proof {
            let t = *self;
            assert forall|w: int| 0 <= w < t.l3@.len() implies (#[trigger] t.l3@[w]).key == t2.l3@[w].key
                && t.l3@[w].paddr == t2.l3@[w].paddr && t.l3@[w].parent == t2.l3@[w].parent by {}
            assert forall|w: int, s: int|
                0 <= w < t.l3@.len() && 0 <= s < 512 && pte_valid(#[trigger] t.l3@[w].entries@[s])
                implies pte_paddr(t.l3@[w].entries@[s]) as int + 4096 <= usize::MAX as int + 1 by {
                if w == m && s == i3 {
                    assert(t.l3@[w].entries@[s] == e);
                } else {
                    assert(t.l3@[w].entries@[s] == t2.l3@[w].entries@[s]);
                }
            }
            assert forall|k: int| #[trigger] t.has_l3(k) == t2.has_l3(k) by {
                if t2.has_l3(k) {
                    let w = choose|w: int| 0 <= w < t2.l3@.len() && #[trigger] t2.l3@[w].key == k;
                    assert(t.l3@[w].key == k);
                }
                if t.has_l3(k) {
                    let w = choose|w: int| 0 <= w < t.l3@.len() && #[trigger] t.l3@[w].key == k;
                    assert(t2.l3@[w].key == k);
                }
            }
            assert(t.l2@ == t2.l2@);
            assert forall|k: int| #[trigger] t.has_l2(k) == t2.has_l2(k) by {}
            assert(t.wf());
            t.lemma_l3_at(m as int);
            assert forall|v: int| v != vpn implies #[trigger] t.leaf(v) == t2.leaf(v) by {
                let k = v / 512;
                if t2.has_l3(k) {
                    let w = t2.l3_at(k);
                    t2.lemma_l3_at(w);
                    t.lemma_l3_at(w);
                    if w == m {
                        assert(v % 512 != i3) by (nonlinear_arith)
                            requires v / 512 == vpn / 512, v != vpn, i3 == vpn % 512;
                    }
                }
            }
            if !t0.has_l2(i1 as int) || !t0.has_l3(k3 as int) {
                assert(t0.missing_tables(vpn as int) >= 1);
            }
            if !t0.has_l3(k3 as int) {
                assert(t0.leaf(vpn as int) == 0);
            }
            if t0.has_l3(k3 as int) && !t0.has_l2(i1 as int) {
                let w = t0.l3_at(k3 as int);
                t0.lemma_l3_at(w);
                assert(t0.l2@[t0.l3@[w].parent as int].key == i1);
            }
        }
        Ok(())
    }

    /// What `map(va, pa, flags)` does to the leaves, given the number of
    /// frames the allocator had free.
    pub open spec fn map_post(
        old_t: RadixTable,
        new_t: RadixTable,
        free_frames: int,
        va: int,
        pa: int,
        flags: int,
        r: HypervisorResult<()>,
    ) -> bool {
        let vpn = vpn_of(va, old_t.root_len());
        let valid = va % 4096 == 0 && pa % 4096 == 0 && pa < PTE_ADDR_LIMIT as int && pa + 4096
            <= usize::MAX as int + 1;
        &&& forall|v: int| v != vpn ==> #[trigger] new_t.leaf(v) == old_t.leaf(v)
        &&& match r {
            Ok(()) => {
                &&& valid
                &&& old_t.leaf(vpn) == 0
                &&& new_t.leaf(vpn) == pte_bits(pa as u64, flags as u64)
            },
            Err(e) => {
                &&& new_t.leaf(vpn) == old_t.leaf(vpn)
                &&& (e == HypervisorError::InvalidParam <==> !valid)
                &&& (e == HypervisorError::AlreadyMapped <==> (valid && old_t.leaf(vpn) != 0))
                &&& (e == HypervisorError::NoMemory <==> (valid && old_t.leaf(vpn) == 0
                    && free_frames < old_t.missing_tables(vpn)))
                &&& e != HypervisorError::NotMapped
            },
        }
    }
}

/// The page one span past the start of a region lands where the region's
/// first page does.
proof fn lemma_region_wraps(va: int, rl: int)
    requires
        va >= 0,
        va % 4096 == 0,
        rl > 0,
    ensures
        region_vpn(va, rl * 262144, rl) == region_vpn(va, 0, rl),
{
    let span = rl * 262144;
    assert(rl * 512 * 512 == span) by (nonlinear_arith) requires span == rl * 262144;
    assert((va + span * 4096) / 4096 == va / 4096 + span) by (nonlinear_arith)
        requires va % 4096 == 0, va >= 0, span >= 0;
    assert((va + 0 * 4096) / 4096 == va / 4096) by (nonlinear_arith) requires va >= 0;
    assert((va / 4096 + span) % span == (va / 4096) % span) by (nonlinear_arith)
        requires span > 0, va >= 0;
}

/// Page `i` of a region starting at `va` lands on page number
/// `(va / 4096 + i) % span`, so the pages of a region no longer than the
/// span are distinct.
proof fn lemma_region_vpns(va: int, i: int, j: int, root_len: int)
    requires
        va >= 0,
        va % 4096 == 0,
        0 <= j < i,
        i < root_len * 262144,
        root_len > 0,
    ensures
        vpn_of(va + i * 4096, root_len) != vpn_of(va + j * 4096, root_len),
{
    let span = root_len * 262144;
    assert((va + i * 4096) / 4096 == va / 4096 + i) by (nonlinear_arith)
        requires va % 4096 == 0, va >= 0, i >= 0;
    assert((va + j * 4096) / 4096 == va / 4096 + j) by (nonlinear_arith)
        requires va % 4096 == 0, va >= 0, j >= 0;
    let b = va / 4096;
    assert(root_len * 512 * 512 == span) by (nonlinear_arith)
        requires span == root_len * 262144;
    assert((b + i) % span != (b + j) % span) by (nonlinear_arith)
        requires 0 <= j < i < span, b >= 0;
}

impl RadixTable {
    /// A table with an empty root of `root_frames` frames (1 for a host
    /// table, 4 for a guest table), aligned to its own size.
    pub fn try_new(alloc: &mut PhysFrameAllocator, root_frames: usize) -> (r: HypervisorResult<Self>)
        requires
            old(alloc).wf(),
            old(alloc)@.base + old(alloc)@.total * 4096 <= PTE_ADDR_LIMIT as int,
            root_frames == 1 || root_frames == 4,
        ensures
            final(alloc).wf(),
            r is Ok ==> r->Ok_0.wf(),
            r is Ok ==> r->Ok_0.root_len() == 512 * root_frames,
            r is Ok ==> forall|vpn: int| #[trigger] r->Ok_0.leaf(vpn) == 0,
            r is Ok ==> old(alloc)@.alloc_post(final(alloc)@, root_frames as int, root_frames * 4096,
                Ok(HostPhysAddr(r->Ok_0.root_addr() as usize))),
            r is Err ==> old(alloc)@.alloc_post(final(alloc)@, root_frames as int, root_frames * 4096,
                Err(r->Err_0)),
    {
        let ghost v0 = alloc@;
        let got = alloc.alloc_frames(root_frames, root_frames * PAGE_SIZE_4K);
        match got {
            Ok(a) => {
                proof {
                    crate::frame::lemma_alloc_addr(v0, alloc@, root_frames as int, root_frames * 4096, a);
                    let i = v0.index_of(a.0 as int);
                    assert(a.0 + root_frames * 4096 <= v0.base + v0.total * 4096) by (nonlinear_arith)
                        requires a.0 == v0.base + i * 4096, i + root_frames <= v0.total;
                    assert(a.0 % 4096 == 0) by (nonlinear_arith)
                        requires a.0 == v0.base + i * 4096, v0.base % 4096 == 0;
                }
                let root = zero_entries(TABLE_ENTRIES * root_frames);
                let t = RadixTable {
                    root_paddr: a.0,
                    root_frames,
                    root,
                    l2: Vec::new(),
                    l3: Vec::new(),
                };
                proof {
                    assert forall|vpn: int| #[trigger] t.leaf(vpn) == 0 by {}
                    assert forall|i: int| 0 <= i < t.root@.len() && !t.has_l2(i) implies #[trigger] t.root@[i] == 0 by {}
                }
                Ok(t)
            },
            Err(e) => Err(e),
        }
    }

    /// Host-physical address of the root table.
    pub fn root_paddr(&self) -> (r: usize)
        ensures
            r == self.root_addr(),
    {
        self.root_paddr
    }

    /// Locate the leaf entry of page `vpn`.
    fn leaf_entry(&self, vpn: usize) -> (r: u64)
        requires
            self.wf(),
        ensures
            r == self.leaf(vpn as int),
    {
        match find_key(&self.l3, vpn / TABLE_ENTRIES) {
            Some(m) => {
                proof {
                    self.lemma_l3_at(m as int);
                }
                self.l3[m].entries[vpn % TABLE_ENTRIES]
            },
            None => 0,
        }
    }

    /// Page number of `va` in this table.
    fn vpn(&self, va: usize) -> (r: usize)
        requires
            self.wf(),
        ensures
            r == vpn_of(va as int, self.root_len()),
            r < self.root_len() * 262144,
    {
        let span = self.root.len() * TABLE_ENTRIES * TABLE_ENTRIES;
        (va / PAGE_SIZE_4K) % span
    }

    /// The host-physical address `va` translates to, page offset included.
    pub fn translate(&self, va: usize) -> (r: HypervisorResult<usize>)
        requires
            self.wf(),
        ensures
            r == self.translate_spec(va as int),
    {
        let e = self.leaf_entry(self.vpn(va));
        if e & 1 != 0 {
            proof {
                assert(!pte_valid(0u64)) by (bit_vector);
                crate::pte::lemma_pte_paddr_bound(e);
                let vpn = vpn_of(va as int, self.root_len());
                if self.has_l3(vpn / 512) {
                    let m = self.l3_at(vpn / 512);
                    assert(0 <= vpn % 512 < 512);
                    assert(pte_valid(self.l3@[m].entries@[vpn % 512]));
                }
            }
            let page = crate::pte::PageTableEntry(e).ppn().0;
            Ok(page + va % PAGE_SIZE_4K)
        } else {
            Err(HypervisorError::NotMapped)
        }
    }

    /// The frame and flags the page holding `va` maps to.
    pub fn query(&self, va: usize) -> (r: HypervisorResult<(usize, usize)>)
        requires
            self.wf(),
        ensures
            r == self.query_spec(va as int),
    {
        let e = self.leaf_entry(self.vpn(va));
        if e & 1 != 0 {
            let entry = crate::pte::PageTableEntry(e);
            Ok((entry.ppn().0, entry.flags().0))
        } else {
            Err(HypervisorError::NotMapped)
        }
    }

    /// What `query(va)` returns.
    pub open spec fn query_spec(&self, va: int) -> HypervisorResult<(usize, usize)> {
        let e = self.leaf(vpn_of(va, self.root_len()));
        if pte_valid(e) {
            Ok((crate::pte::pte_paddr(e) as usize, crate::pte::pte_flags(e) as usize))
        } else {
            Err(HypervisorError::NotMapped)
        }
    }

}

/// Page number of page `i` of the region that starts at `va`.
pub open spec fn region_vpn(va: int, i: int, root_len: int) -> int {
    vpn_of(va + i * 4096, root_len)
}

/// Whether page number `v` is one of the `n` pages of the region at `va`.
pub open spec fn in_region(v: int, va: int, n: int, root_len: int) -> bool {
    exists|i: int| 0 <= i < n && v == #[trigger] region_vpn(va, i, root_len)
}

/// Whether a region of `n` pages from `va` to frames from `pa` is well formed.
pub open spec fn region_valid(va: int, pa: int, n: int) -> bool {
    &&& va % 4096 == 0
    &&& pa % 4096 == 0
    &&& va + n * 4096 <= usize::MAX
    &&& pa + n * 4096 <= usize::MAX
    &&& pa + n * 4096 <= PTE_ADDR_LIMIT as int
}

impl RadixTable {
    /// What `map_region(va, pa, n, flags)` does, given the number of frames
    /// the allocator had free.
    pub open spec fn map_region_post(
        old_t: RadixTable,
        new_t: RadixTable,
        free_frames: int,
        va: int,
        pa: int,
        n: int,
        flags: int,
        r: HypervisorResult<()>,
    ) -> bool {
        let rl = old_t.root_len();
        &&& forall|v: int| !in_region(v, va, n, rl) ==> #[trigger] new_t.leaf(v) == old_t.leaf(v)
        &&& (r == Err::<(), HypervisorError>(HypervisorError::InvalidParam) <==> !region_valid(va, pa, n))
        &&& r != Err::<(), HypervisorError>(HypervisorError::NotMapped)
        &&& (r is Ok && n <= rl * 262144) ==> forall|i: int|
            0 <= i < n ==> #[trigger] new_t.leaf(region_vpn(va, i, rl)) == pte_bits(
                (pa + i * 4096) as u64,
                flags as u64,
            ) && old_t.leaf(region_vpn(va, i, rl)) == 0
        &&& (region_valid(va, pa, n) && n <= rl * 262144 && free_frames >= 2 * n && forall|i: int|
            0 <= i < n ==> #[trigger] old_t.leaf(region_vpn(va, i, rl)) == 0) ==> r is Ok
        &&& (r is Ok && (flags as u64) & 1 != 0) ==> n <= rl * 262144
        &&& (r is Err && r != Err::<(), HypervisorError>(HypervisorError::InvalidParam) && n <= rl * 262144)
            ==> exists|k: int| 0 <= k < n && #[trigger] Self::region_stopped_at(old_t, new_t, free_frames, va, pa, n, flags, k, r->Err_0)
    }

    /// How a region mapping that failed at page `k` left the leaves: pages
    /// before `k` were unmapped and are now mapped (nothing is rolled back),
    /// page `k` keeps what it had and is the first mapped page of the region
    /// for `AlreadyMapped`, or was unmapped with too few frames left for
    /// `NoMemory`, and later pages are untouched.
    pub open spec fn region_stopped_at(
        old_t: RadixTable,
        new_t: RadixTable,
        free_frames: int,
        va: int,
        pa: int,
        n: int,
        flags: int,
        k: int,
        e: HypervisorError,
    ) -> bool {
        let rl = old_t.root_len();
        &&& (e == HypervisorError::AlreadyMapped || e == HypervisorError::NoMemory)
        &&& forall|i: int| 0 <= i < k ==> #[trigger] new_t.leaf(region_vpn(va, i, rl)) == pte_bits(
            (pa + i * 4096) as u64,
            flags as u64,
        )
        &&& new_t.leaf(region_vpn(va, k, rl)) == old_t.leaf(region_vpn(va, k, rl))
        &&& forall|i: int| 0 <= i < k ==> #[trigger] old_t.leaf(region_vpn(va, i, rl)) == 0
        &&& (e == HypervisorError::AlreadyMapped ==> old_t.leaf(region_vpn(va, k, rl)) != 0)
        &&& (e == HypervisorError::NoMemory ==> old_t.leaf(region_vpn(va, k, rl)) == 0 && free_frames < 2 * (k + 1))
        &&& forall|i: int| k < i < n ==> #[trigger] new_t.leaf(region_vpn(va, i, rl)) == old_t.leaf(region_vpn(va, i, rl))
    }

    /// Map `num_pages` consecutive pages from `va` to consecutive frames from
    /// `pa`. Stops at the first page that fails; pages mapped before it stay
    /// mapped.
    #[verifier::spinoff_prover]
    #[verifier::rlimit(40)]
    pub fn map_region(
        &mut self,
        alloc: &mut PhysFrameAllocator,
        va: usize,
        pa: usize,
        num_pages: usize,
        flags: usize,
    ) -> (r: HypervisorResult<()>)
        requires
            flags <= 0xff,
            old(self).wf(),
            old(alloc).wf(),
            old(alloc)@.base + old(alloc)@.total * 4096 <= PTE_ADDR_LIMIT as int,
        ensures
            final(self).wf(),
            final(alloc).wf(),
            final(alloc)@.base == old(alloc)@.base,
            final(alloc)@.total == old(alloc)@.total,
            final(alloc)@.free.subset_of(old(alloc)@.free),
            final(self).root_len() == old(self).root_len(),
            final(self).root_addr() == old(self).root_addr(),
            final(alloc)@.free.len() + 2 * num_pages >= old(alloc)@.free.len(),
            Self::map_region_post(
                *old(self),
                *final(self),
                old(alloc)@.free.len() as int,
                va as int,
                pa as int,
                num_pages as int,
                flags as int,
                r,
            ),
    {
        if va % PAGE_SIZE_4K != 0 || pa % PAGE_SIZE_4K != 0 || num_pages > (usize::MAX - va)
            / PAGE_SIZE_4K || num_pages > (usize::MAX - pa) / PAGE_SIZE_4K || pa as u64
            > PTE_ADDR_LIMIT || num_pages as u64 > (PTE_ADDR_LIMIT - pa as u64) / 4096 {
            proof {
                if num_pages > (usize::MAX - va) / 4096 {
                    assert(num_pages * 4096 > usize::MAX - va) by (nonlinear_arith)
                        requires num_pages > (usize::MAX - va) / 4096, va <= usize::MAX;
                }
                if num_pages > (usize::MAX - pa) / 4096 {
                    assert(num_pages * 4096 > usize::MAX - pa) by (nonlinear_arith)
                        requires num_pages > (usize::MAX - pa) / 4096, pa <= usize::MAX;
                }
                if pa <= PTE_ADDR_LIMIT && num_pages > (PTE_ADDR_LIMIT - pa) / 4096 {
                    assert(num_pages * 4096 > PTE_ADDR_LIMIT - pa) by (nonlinear_arith)
                        requires num_pages > (PTE_ADDR_LIMIT - pa) / 4096, pa <= PTE_ADDR_LIMIT;
                }
            }
            return Err(HypervisorError::InvalidParam);
        }
        proof {
            assert(num_pages * 4096 <= usize::MAX - va) by (nonlinear_arith)
                requires num_pages <= (usize::MAX - va) / 4096, va <= usize::MAX;
            assert(num_pages * 4096 <= usize::MAX - pa) by (nonlinear_arith)
                requires num_pages <= (usize::MAX - pa) / 4096, pa <= usize::MAX;
            assert(num_pages * 4096 <= PTE_ADDR_LIMIT - pa) by (nonlinear_arith)
                requires num_pages <= (PTE_ADDR_LIMIT - pa) / 4096, pa <= PTE_ADDR_LIMIT;
        }
        let ghost t0 = *self;
        let ghost free0 = alloc@.free.len() as int;
        let ghost rl = t0.root_len();
        let mut i: usize = 0;
        while i < num_pages
            invariant
                flags <= 0xff,
                0 <= i <= num_pages,
                self.wf(),
                alloc.wf(),
                alloc@.base == old(alloc)@.base,
                alloc@.total == old(alloc)@.total,
                alloc@.base + alloc@.total * 4096 <= PTE_ADDR_LIMIT as int,
                alloc@.free.subset_of(old(alloc)@.free),
                flags <= 0xff,
                (flags as u64) & 1 != 0 ==> i <= rl * 262144,
                ((flags as u64) & 1 != 0 && 1 <= i) ==> self.leaf(region_vpn(va as int, 0, rl)) == pte_bits(
                    pa as u64,
                    flags as u64,
                ),
                free0 == old(alloc)@.free.len(),
                t0 == *old(self),
                rl == t0.root_len(),
                self.root_len() == rl,
                self.root_addr() == t0.root_addr(),
                region_valid(va as int, pa as int, num_pages as int),
                alloc@.free.len() + 2 * i >= free0,
                forall|v: int| !in_region(v, va as int, i as int, rl) ==> #[trigger] self.leaf(v) == t0.leaf(v),
                num_pages <= rl * 262144 ==> forall|j: int|
                    0 <= j < i ==> #[trigger] self.leaf(region_vpn(va as int, j, rl)) == pte_bits(
                        (pa + j * 4096) as u64,
                        flags as u64,
                    ) && t0.leaf(region_vpn(va as int, j, rl)) == 0,
            decreases num_pages - i,
        {
            let ghost t1 = *self;
            let ghost f1 = alloc@.free.len() as int;
            proof {
                assert(i * 4096 < num_pages * 4096) by (nonlinear_arith)
                    requires i < num_pages;
                assert((va + i * 4096) % 4096 == 0) by (nonlinear_arith)
                    requires va % 4096 == 0;
                assert((pa + i * 4096) % 4096 == 0) by (nonlinear_arith)
                    requires pa % 4096 == 0;
            }
            let v = va + i * PAGE_SIZE_4K;
            let p = pa + i * PAGE_SIZE_4K;
            let res = self.map(alloc, v, p, flags);
            let ghost vi = region_vpn(va as int, i as int, rl);
            proof {
                assert(vpn_of(v as int, rl) == vi);
                if num_pages <= rl * 262144 {
                    assert forall|j: int| 0 <= j < i implies #[trigger] region_vpn(va as int, j, rl) != vi by {
                        lemma_region_vpns(va as int, i as int, j, rl);
                    }
                }
                t1.lemma_missing_bound(vi);
            }
            match res {
                Ok(()) => {},
                Err(e) => {
                    proof {
                        assert forall|w: int| !in_region(w, va as int, num_pages as int, rl) implies #[trigger] self.leaf(w)
                            == t0.leaf(w) by {
                            if in_region(w, va as int, i as int, rl) {
                                let j = choose|j: int| 0 <= j < i && w == #[trigger] region_vpn(va as int, j, rl);
                                assert(in_region(w, va as int, num_pages as int, rl));
                            }
                        }
                        if num_pages <= rl * 262144 && free0 >= 2 * num_pages && forall|j: int|
                            0 <= j < num_pages ==> #[trigger] t0.leaf(region_vpn(va as int, j, rl)) == 0 {
                            assert(!in_region(vi, va as int, i as int, rl));
                            assert(t0.leaf(region_vpn(va as int, i as int, rl)) == 0);
                            assert(t1.leaf(vi) == 0);
                            assert(f1 >= 2);
                        }
                        assert(e != HypervisorError::InvalidParam);
                        if num_pages <= rl * 262144 {
                            assert(!in_region(vi, va as int, i as int, rl));
                            assert forall|j: int| 0 <= j < i implies #[trigger] self.leaf(region_vpn(va as int, j, rl))
                                == pte_bits((pa + j * 4096) as u64, flags as u64) by {
                                assert(region_vpn(va as int, j, rl) != vi);
                            }
                            assert forall|j: int| i < j < num_pages implies #[trigger] self.leaf(region_vpn(va as int, j, rl))
                                == t0.leaf(region_vpn(va as int, j, rl)) by {
                                lemma_region_vpns(va as int, j, i as int, rl);
                                assert(region_vpn(va as int, j, rl) != vi);
                                if in_region(region_vpn(va as int, j, rl), va as int, i as int, rl) {
                                    let q = choose|q: int| 0 <= q < i && region_vpn(va as int, j, rl) == #[trigger] region_vpn(va as int, q, rl);
                                    lemma_region_vpns(va as int, j, q, rl);
                                }
                            }
                            assert(t1.leaf(vi) == t0.leaf(vi));
                            assert forall|j: int| 0 <= j < i implies #[trigger] t0.leaf(region_vpn(va as int, j, rl)) == 0 by {
                                assert(t1.leaf(region_vpn(va as int, j, rl)) == pte_bits((pa + j * 4096) as u64, flags as u64));
                            }
                            if e == HypervisorError::NoMemory {
                                assert(f1 < 2);
                            }
                            assert(Self::region_stopped_at(t0, *self, free0, va as int, pa as int, num_pages as int, flags as int, i as int, e));
                        }
                    }
                    return Err(e);
                },
            }
            proof {
                assert((flags as u64) & 1 != 0 ==> self.leaf(region_vpn(va as int, 0, rl)) == pte_bits(pa as u64, flags as u64)
                    && i < rl * 262144) by {
                if (flags as u64) & 1 != 0 {
                    lemma_pte_round_trip(pa as u64, flags as u64);
                    if i == 0 {
                        assert(vi == region_vpn(va as int, 0, rl));
                        assert((pa + 0 * 4096) as u64 == pa as u64);
                    } else {
                        if i as int == rl * 262144 {
                            lemma_region_wraps(va as int, rl);
                            assert(t1.leaf(vi) != 0);
                        }
                        lemma_region_vpns(va as int, i as int, 0, rl);
                        assert(self.leaf(region_vpn(va as int, 0, rl)) == t1.leaf(region_vpn(va as int, 0, rl)));
                    }
                }
                }
                assert forall|w: int| !in_region(w, va as int, i + 1, rl) implies #[trigger] self.leaf(w) == t0.leaf(w) by {
                    if in_region(w, va as int, i as int, rl) {
                        let j = choose|j: int| 0 <= j < i && w == #[trigger] region_vpn(va as int, j, rl);
                        assert(in_region(w, va as int, i + 1, rl));
                    }
                    assert(w != vi);
                }
                if num_pages <= rl * 262144 {
                    assert(!in_region(vi, va as int, i as int, rl));
                    assert(t1.leaf(vi) == t0.leaf(vi));
                    assert(self.leaf(vi) == pte_bits(p as u64, flags as u64));
                    assert(t1.leaf(vi) == 0);
                    assert forall|j: int| 0 <= j < i + 1 implies #[trigger] self.leaf(region_vpn(va as int, j, rl))
                        == pte_bits((pa + j * 4096) as u64, flags as u64) && t0.leaf(region_vpn(va as int, j, rl)) == 0 by {
                        if j < i {
                            assert(region_vpn(va as int, j, rl) != vi);
                            assert(self.leaf(region_vpn(va as int, j, rl)) == t1.leaf(region_vpn(va as int, j, rl)));
                            assert(t1.leaf(region_vpn(va as int, j, rl)) == pte_bits((pa + j * 4096) as u64, flags as u64));
                        } else {
                            assert(j == i);
                            assert(region_vpn(va as int, j, rl) == vi);
                            assert((pa + j * 4096) as u64 == p as u64);
                        }
                    }
                }
            }
            i = i + 1;
        }
        Ok(())
    }

    /// At most two tables are missing on the way to any page.
    proof fn lemma_missing_bound(&self, vpn: int)
        ensures
            0 <= self.missing_tables(vpn) <= 2,
    {
    }

    /// The frames the table owns, as `(address, count)` runs: the root first
    /// (one frame, or four for a guest root), then each second-level and each
    /// third-level table.
    pub closed spec fn frame_runs(&self) -> Seq<(usize, usize)> {
        seq![(self.root_paddr, self.root_frames)] + self.l2@.map_values(|f: TableFrame| (f.paddr, 1usize))
            + self.l3@.map_values(|f: TableFrame| (f.paddr, 1usize))
    }

    /// Number of table frames below the root.
    pub closed spec fn num_tables(&self) -> int {
        (self.l2@.len() + self.l3@.len()) as int
    }

    /// Give every frame of the table back to `alloc`: exactly the frames of
    /// `frame_runs` become free.
    pub fn release(self, alloc: &mut PhysFrameAllocator)
        requires
            old(alloc).wf(),
        ensures
            final(alloc).wf(),
            final(alloc)@.base == old(alloc)@.base,
            final(alloc)@.total == old(alloc)@.total,
            final(alloc)@.free == old(alloc)@.free.union(old(alloc)@.runs_freed(self.frame_runs())),
            final(alloc)@.used == old(alloc)@.used - old(alloc)@.runs_freed(self.frame_runs()).difference(
                old(alloc)@.free,
            ).len(),
    {
        let mut runs: Vec<(usize, usize)> = Vec::new();
        runs.push((self.root_paddr, self.root_frames));
        let mut j: usize = 0;
        while j < self.l2.len()
            invariant
                j <= self.l2@.len(),
                runs@ == seq![(self.root_paddr, self.root_frames)] + self.l2@.subrange(0, j as int).map_values(
                    |f: TableFrame| (f.paddr, 1usize),
                ),
            decreases self.l2@.len() - j,
        {
            runs.push((self.l2[j].paddr, 1));
            proof {
                assert(self.l2@.subrange(0, j + 1).map_values(|f: TableFrame| (f.paddr, 1usize)) =~= self.l2@.subrange(
                    0,
                    j as int,
                ).map_values(|f: TableFrame| (f.paddr, 1usize)).push((self.l2@[j as int].paddr, 1usize)));
            }
            j = j + 1;
        }
        let mut m: usize = 0;
        proof {
            assert(self.l2@.subrange(0, self.l2@.len() as int) =~= self.l2@);
        }
        while m < self.l3.len()
            invariant
                m <= self.l3@.len(),
                runs@ == seq![(self.root_paddr, self.root_frames)] + self.l2@.map_values(|f: TableFrame| (f.paddr, 1usize))
                    + self.l3@.subrange(0, m as int).map_values(|f: TableFrame| (f.paddr, 1usize)),
            decreases self.l3@.len() - m,
        {
            runs.push((self.l3[m].paddr, 1));
            proof {
                assert(self.l3@.subrange(0, m + 1).map_values(|f: TableFrame| (f.paddr, 1usize)) =~= self.l3@.subrange(
                    0,
                    m as int,
                ).map_values(|f: TableFrame| (f.paddr, 1usize)).push((self.l3@[m as int].paddr, 1usize)));
            }
            m = m + 1;
        }
        proof {
            assert(self.l3@.subrange(0, self.l3@.len() as int) =~= self.l3@);
            assert(runs@ =~= self.frame_runs());
        }
        alloc.dealloc_runs(&runs);
    }

    /// The words of each table frame, for writing the table into physical
    /// memory: the root at `root_addr()` first (512 words, or 2048 for a guest
    /// root), then every lower table with its 512 words. Every pointer word
    /// names the address of an exported frame, and the leaf of every mapped
    /// page is the word at its index in one of the exported frames.
    pub fn table_frames(&self) -> (r: Vec<(usize, Vec<u64>)>)
        requires
            self.wf(),
        ensures
            r@.len() == 1 + self.num_tables(),
            r@[0].0 == self.root_addr(),
            r@[0].1@.len() == self.root_len(),
            forall|j: int| 1 <= j < r@.len() ==> (#[trigger] r@[j]).1@.len() == 512 && r@[j].0 % 4096 == 0,
            forall|i: int| 0 <= i < self.root_len() && r@[0].1@[i] != 0 ==> exists|j: int|
                1 <= j < r@.len() && #[trigger] r@[0].1@[i] == pte_bits((#[trigger] r@[j]).0 as u64, PTE_V as u64),
            forall|vpn: int| #[trigger] self.leaf(vpn) != 0 ==> exists|j: int|
                1 <= j < r@.len() && (#[trigger] r@[j]).1@[vpn % 512] == self.leaf(vpn),
    {
        let mut out: Vec<(usize, Vec<u64>)> = Vec::new();
        out.push((self.root_paddr, copy_words(&self.root)));
        let mut j: usize = 0;
        while j < self.l2.len()
            invariant
                self.wf(),
                j <= self.l2@.len(),
                out@.len() == 1 + j,
                out@[0].0 == self.root_paddr,
                out@[0].1@ == self.root@,
                forall|k: int| 0 <= k < j ==> (#[trigger] out@[1 + k]).0 == self.l2@[k].paddr && out@[1 + k].1@ == self.l2@[k].entries@,
            decreases self.l2@.len() - j,
        {
            out.push((self.l2[j].paddr, copy_words(&self.l2[j].entries)));
            j = j + 1;
        }
        let mut m: usize = 0;
        while m < self.l3.len()
            invariant
                self.wf(),
                m <= self.l3@.len(),
                out@.len() == 1 + self.l2@.len() + m,
                out@[0].0 == self.root_paddr,
                out@[0].1@ == self.root@,
                forall|k: int| 0 <= k < self.l2@.len() ==> (#[trigger] out@[1 + k]).0 == self.l2@[k].paddr && out@[1 + k].1@ == self.l2@[k].entries@,
                forall|k: int| 0 <= k < m ==> (#[trigger] out@[1 + self.l2@.len() + k]).0 == self.l3@[k].paddr
                    && out@[1 + self.l2@.len() + k].1@ == self.l3@[k].entries@,
            decreases self.l3@.len() - m,
        {
            out.push((self.l3[m].paddr, copy_words(&self.l3[m].entries)));
            m = m + 1;
        }
        proof {
            let n2 = self.l2@.len() as int;
            assert forall|j: int| 1 <= j < out@.len() implies (#[trigger] out@[j]).1@.len() == 512 && out@[j].0 % 4096 == 0 by {
                if j < 1 + n2 {
                    assert(out@[1 + (j - 1)] == out@[j]);
                } else {
                    assert(out@[1 + n2 + (j - 1 - n2)] == out@[j]);
                }
            }
            assert forall|i: int| 0 <= i < self.root_len() && out@[0].1@[i] != 0 implies exists|j: int|
                1 <= j < out@.len() && #[trigger] out@[0].1@[i] == pte_bits((#[trigger] out@[j]).0 as u64, PTE_V as u64) by {
                assert(self.has_l2(i));
                let w = choose|w: int| 0 <= w < self.l2@.len() && #[trigger] self.l2@[w].key == i;
                assert(out@[1 + w].0 == self.l2@[w].paddr);
            }
            assert forall|vpn: int| #[trigger] self.leaf(vpn) != 0 implies exists|j: int|
                1 <= j < out@.len() && (#[trigger] out@[j]).1@[vpn % 512] == self.leaf(vpn) by {
                let m3 = self.l3_at(vpn / 512);
                assert(out@[1 + n2 + m3].1@ == self.l3@[m3].entries@);
            }
        }
        out
    }
}

/// A copy of `w`.
fn copy_words(w: &Vec<u64>) -> (r: Vec<u64>)
    ensures
        r@ == w@,
{
    let mut r: Vec<u64> = Vec::new();
    let mut i: usize = 0;
    while i < w.len()
        invariant
            i <= w@.len(),
            r@ == w@.subrange(0, i as int),
        decreases w@.len() - i,
    {
        r.push(w[i]);
        proof {
            assert(w@.subrange(0, i + 1) =~= w@.subrange(0, i as int).push(w@[i as int]));
        }
        i = i + 1;
    }
    proof {
        assert(w@.subrange(0, w@.len() as int) =~= w@);
    }
    r
}

impl RadixTable {
    /// A placeholder with no root, before the real table is built.
    pub fn empty() -> (r: Self)
        ensures
            r.root_len() == 0,
            r.root_addr() == usize::MAX,
    {
        RadixTable { root_paddr: usize::MAX, root_frames: 0, root: Vec::new(), l2: Vec::new(), l3: Vec::new() }
    }
}

/// Query after map: once `map(va, pa, flags)` has succeeded with the V flag
/// set, `translate(va)` gives `pa` and `query(va)` gives `pa` with the flags.
/// Both take the table by shared reference, so repeating them changes
/// nothing and gives the same answer.
pub proof fn lemma_map_then_query(
    t0: RadixTable,
    t1: RadixTable,
    free_frames: int,
    va: int,
    pa: int,
    flags: int,
)
    requires
        RadixTable::map_post(t0, t1, free_frames, va, pa, flags, Ok(())),
        t1.root_len() == t0.root_len(),
        (flags as u64) & 1 != 0,
        0 <= flags <= 0xff,
        0 <= va,
        0 <= pa,
    ensures
        t1.translate_spec(va) == Ok::<usize, HypervisorError>(pa as usize),
        t1.query_spec(va) == Ok::<(usize, usize), HypervisorError>((pa as usize, flags as usize)),
{
    let f = flags as u64;
    assert(f & 1 != 0);
    lemma_pte_round_trip(pa as u64, f);
    assert(f & 0xff == f) by (bit_vector)
        requires f <= 0xff;
    assert(va % 4096 == 0);
}

/// Double-map rejection: a second `map` of a page whose leaf is valid fails
/// with `AlreadyMapped` (given well-formed addresses) and changes no leaf.
pub proof fn lemma_double_map_rejected(
    t0: RadixTable,
    t1: RadixTable,
    t2: RadixTable,
    free0: int,
    free1: int,
    va: int,
    pa: int,
    flags: int,
    pa2: int,
    flags2: int,
    r2: HypervisorResult<()>,
)
    requires
        RadixTable::map_post(t0, t1, free0, va, pa, flags, Ok(())),
        RadixTable::map_post(t1, t2, free1, va, pa2, flags2, r2),
        t1.root_len() == t0.root_len(),
        t2.root_len() == t1.root_len(),
        (flags as u64) & 1 != 0,
        0 <= pa,
        0 <= flags <= usize::MAX,
        pa2 % 4096 == 0,
        0 <= pa2,
        pa2 + 4096 <= usize::MAX + 1,
        pa2 < PTE_ADDR_LIMIT as int,
    ensures
        r2 == Err::<(), HypervisorError>(HypervisorError::AlreadyMapped),
        forall|v: int| #[trigger] t2.leaf(v) == t1.leaf(v),
        forall|v: int| #[trigger] t2.translate_spec(v) == t1.translate_spec(v),
{
    lemma_pte_round_trip(pa as u64, flags as u64);
    assert((flags as u64) & 1 != 0);
    let vpn = vpn_of(va, t0.root_len());
    assert(t1.leaf(vpn) != 0);
    assert forall|v: int| #[trigger] t2.leaf(v) == t1.leaf(v) by {}
}

/// Region mapping ends: after `map_region(va, pa, n, flags)` succeeds with
/// the V flag set and `n >= 1`, the first and the last byte of the region
/// translate to the first and the last byte of `[pa, pa + n * 4 KiB)`. (A
/// successful region with the V flag never wraps the table's span.)
pub proof fn lemma_region_ends(
    t0: RadixTable,
    t1: RadixTable,
    free_frames: int,
    va: int,
    pa: int,
    n: int,
    flags: int,
)
    requires
        RadixTable::map_region_post(t0, t1, free_frames, va, pa, n, flags, Ok(())),
        t1.root_len() == t0.root_len(),
        (flags as u64) & 1 != 0,
        0 <= flags <= usize::MAX,
        0 <= va,
        0 <= pa,
        1 <= n,
    ensures
        t1.translate_spec(va) == Ok::<usize, HypervisorError>(pa as usize),
        t1.translate_spec(va + n * 4096 - 1) == Ok::<usize, HypervisorError>((pa + n * 4096 - 1) as usize),
{
    let rl = t0.root_len();
    let last = n - 1;
    assert(n <= rl * 262144);
    assert(region_valid(va, pa, n));
    assert(t1.leaf(region_vpn(va, 0, rl)) == pte_bits(pa as u64, flags as u64));
    assert(t1.leaf(region_vpn(va, last, rl)) == pte_bits((pa + last * 4096) as u64, flags as u64));
    assert((pa + last * 4096) % 4096 == 0) by (nonlinear_arith)
        requires pa % 4096 == 0;
    lemma_pte_round_trip(pa as u64, flags as u64);
    lemma_pte_round_trip((pa + last * 4096) as u64, flags as u64);
    assert(va + 0 * 4096 == va);
    assert((va + last * 4096 + 4095) / 4096 == (va + last * 4096) / 4096) by (nonlinear_arith)
        requires va % 4096 == 0, va >= 0, last >= 0;
    assert((va + last * 4096 + 4095) % 4096 == 4095) by (nonlinear_arith)
        requires va % 4096 == 0, va >= 0, last >= 0;
    assert(va + n * 4096 - 1 == va + last * 4096 + 4095);
    assert(vpn_of(va + n * 4096 - 1, rl) == region_vpn(va, last, rl));
}

/// Region mapping boundary: after `map_region(va, pa, n, flags)` succeeds with
/// the V flag set, the first and the last byte of the region translate into
/// `[pa, pa + n * 4 KiB)`, and the first byte past the region does not
/// translate, provided its page was unmapped before and the region is
/// shorter than the table's span (a region of the whole span ends where it
/// starts).
pub proof fn lemma_region_boundary(
    t0: RadixTable,
    t1: RadixTable,
    free_frames: int,
    va: int,
    pa: int,
    n: int,
    flags: int,
)
    requires
        RadixTable::map_region_post(t0, t1, free_frames, va, pa, n, flags, Ok(())),
        t1.root_len() == t0.root_len(),
        t0.root_len() > 0,
        (flags as u64) & 1 != 0,
        0 <= flags <= usize::MAX,
        0 <= va,
        0 <= pa,
        1 <= n < t0.root_len() * 262144,
        t0.leaf(vpn_of(va + n * 4096, t0.root_len())) == 0,
    ensures
        t1.translate_spec(va) == Ok::<usize, HypervisorError>(pa as usize),
        t1.translate_spec(va + n * 4096 - 1) == Ok::<usize, HypervisorError>(
            (pa + n * 4096 - 1) as usize,
        ),
        t1.translate_spec(va + n * 4096) == Err::<usize, HypervisorError>(HypervisorError::NotMapped),
{
    let rl = t0.root_len();
    let last = n - 1;
    assert(region_valid(va, pa, n));
    assert(t1.leaf(region_vpn(va, 0, rl)) == pte_bits(pa as u64, flags as u64));
    assert(t1.leaf(region_vpn(va, last, rl)) == pte_bits((pa + last * 4096) as u64, flags as u64));
    assert((pa + last * 4096) % 4096 == 0) by (nonlinear_arith)
        requires pa % 4096 == 0;
    lemma_pte_round_trip(pa as u64, flags as u64);
    lemma_pte_round_trip((pa + last * 4096) as u64, flags as u64);
    assert((flags as u64) & 1 != 0);
    assert(va + 0 * 4096 == va);
    assert((va + last * 4096 + 4095) / 4096 == (va + last * 4096) / 4096) by (nonlinear_arith)
        requires va % 4096 == 0, va >= 0, last >= 0;
    assert((va + last * 4096 + 4095) % 4096 == 4095) by (nonlinear_arith)
        requires va % 4096 == 0, va >= 0, last >= 0;
    assert(va + n * 4096 - 1 == va + last * 4096 + 4095);
    assert(vpn_of(va + n * 4096 - 1, rl) == region_vpn(va, last, rl));
    assert(!in_region(vpn_of(va + n * 4096, rl), va, n, rl)) by {
        if in_region(vpn_of(va + n * 4096, rl), va, n, rl) {
            let i = choose|i: int| 0 <= i < n && vpn_of(va + n * 4096, rl) == #[trigger] region_vpn(va, i, rl);
            lemma_region_vpns(va, n, i, rl);
        }
    }
    assert(!pte_valid(0u64)) by (bit_vector);
}

/// A region mapping that succeeded over a region no longer than the span
/// found every page of it unmapped, so every leaf that was set before is
/// unchanged.
pub proof fn lemma_region_keeps_set_leaves(
    t0: RadixTable,
    t1: RadixTable,
    free_frames: int,
    va: int,
    pa: int,
    n: int,
    flags: int,
)
    requires
        RadixTable::map_region_post(t0, t1, free_frames, va, pa, n, flags, Ok(())),
        n <= t0.root_len() * 262144,
    ensures
        forall|v: int| t0.leaf(v) != 0 ==> #[trigger] t1.leaf(v) == t0.leaf(v),
{
    assert forall|v: int| t0.leaf(v) != 0 implies #[trigger] t1.leaf(v) == t0.leaf(v) by {
        if in_region(v, va, n, t0.root_len()) {
            let j = choose|j: int| 0 <= j < n && v == #[trigger] region_vpn(va, j, t0.root_len());
            let w = t1.leaf(region_vpn(va, j, t0.root_len()));
        }
    }
}

/// Pages of two address ranges that do not overlap, both inside the span a
/// table translates, have different page numbers.
pub proof fn lemma_disjoint_ranges_vpns(s1: int, e1: int, s2: int, e2: int, rl: int)
    requires
        s1 % 4096 == 0,
        s2 % 4096 == 0,
        0 <= s1 <= e1 <= rl * 262144 * 4096,
        0 <= s2 <= e2 <= rl * 262144 * 4096,
        e1 <= s2 || e2 <= s1,
        rl > 0,
    ensures
        forall|i: int|
            0 <= i < (e2 - s2) / 4096 ==> !in_region(#[trigger] region_vpn(s2, i, rl), s1, (e1 - s1) / 4096, rl),
{
    assert forall|i: int| 0 <= i < (e2 - s2) / 4096 implies !in_region(#[trigger] region_vpn(s2, i, rl), s1, (e1 - s1) / 4096, rl) by {
        if in_region(region_vpn(s2, i, rl), s1, (e1 - s1) / 4096, rl) {
            let j = choose|j: int| 0 <= j < (e1 - s1) / 4096 && region_vpn(s2, i, rl) == #[trigger] region_vpn(s1, j, rl);
            let span = rl * 262144;
            assert(rl * 512 * 512 == span) by (nonlinear_arith) requires span == rl * 262144;
            assert((s2 + i * 4096) / 4096 == s2 / 4096 + i) by (nonlinear_arith) requires s2 % 4096 == 0, s2 >= 0, i >= 0;
            assert((s1 + j * 4096) / 4096 == s1 / 4096 + j) by (nonlinear_arith) requires s1 % 4096 == 0, s1 >= 0, j >= 0;
            assert(s2 / 4096 + i < span) by (nonlinear_arith)
                requires i < (e2 - s2) / 4096, e2 <= span * 4096, s2 % 4096 == 0, s2 >= 0, s2 <= e2;
            assert(s1 / 4096 + j < span) by (nonlinear_arith)
                requires j < (e1 - s1) / 4096, e1 <= span * 4096, s1 % 4096 == 0, s1 >= 0, s1 <= e1;
            let x2 = s2 / 4096 + i;
            let x1 = s1 / 4096 + j;
            assert(x2 % span == x2) by (nonlinear_arith) requires 0 <= x2 < span;
            assert(x1 % span == x1) by (nonlinear_arith) requires 0 <= x1 < span;
            assert(region_vpn(s2, i, rl) == x2 % (rl * 512 * 512));
            assert(region_vpn(s1, j, rl) == x1 % (rl * 512 * 512));
            assert(s2 / 4096 + i == s1 / 4096 + j);
            assert(false) by (nonlinear_arith)
                requires s2 / 4096 + i == s1 / 4096 + j, e1 <= s2 || e2 <= s1, i < (e2 - s2) / 4096,
                    j < (e1 - s1) / 4096, s1 % 4096 == 0, s2 % 4096 == 0, i >= 0, j >= 0, s1 >= 0, s2 >= 0;
        }
    }
}

/// The entry word that maps `paddr` with `flags`.
fn pte_bits_exec(paddr: usize, flags: usize) -> (r: u64)
    ensures
        r == pte_bits(paddr as u64, flags as u64),
{
    crate::pte::PageTableEntry::new(HostPhysAddr(paddr), crate::pte::PTEFlags(flags)).0
}

} // verus!
