use crate::addr::{align_down, align_up, HostPhysAddr};
use crate::config::PAGE_SIZE_4K;
use crate::error::{HypervisorError, HypervisorResult};
use bitmap_allocator::BitAlloc;
use vstd::prelude::*;
use vstd::set_lib::*;

verus! {

/// Number of frames the bitmap can track (bitmap_allocator's `BitAlloc1M::CAP`).
pub const FRAME_BITMAP_CAP: usize = 1048576;

/// A bitmap with one bit per frame index, set while the frame is free.
#[verifier::external_body]
pub struct FrameBitmap {
    inner: Box<bitmap_allocator::BitAlloc1M>,
}

/// The frame indices whose bit is set (free) in the bitmap.
pub uninterp spec fn free_set(b: FrameBitmap) -> Set<int>;

/// Relies on bitmap_allocator's `BitAlloc1M::DEFAULT`: every bit clear.
#[verifier::external_body]
fn bitmap_new() -> (r: FrameBitmap)
    ensures
        free_set(r) == Set::<int>::empty(),
{
    FrameBitmap { inner: Box::new(bitmap_allocator::BitAlloc1M::DEFAULT) }
}

/// Relies on `BitAlloc::insert`: marks `start..end` free. It panics on an
/// empty range or one past the capacity, which `requires` leaves out.
#[verifier::external_body]
fn bitmap_insert(b: &mut FrameBitmap, start: usize, end: usize)
    requires
        start < end <= FRAME_BITMAP_CAP,
    ensures
        free_set(*final(b)) == free_set(*old(b)).union(set_int_range(start as int, end as int)),
{
    b.inner.insert(start..end)
}

/// Relies on `BitAlloc::alloc`: takes some free bit, or returns `None` when no
/// bit is free.
#[verifier::external_body]
fn bitmap_alloc(b: &mut FrameBitmap) -> (r: Option<usize>)
    ensures
        match r {
            Some(i) => free_set(*old(b)).contains(i as int) && free_set(*final(b))
                == free_set(*old(b)).remove(i as int),
            None => free_set(*old(b)) == Set::<int>::empty() && free_set(*final(b))
                == free_set(*old(b)),
        },
{
    b.inner.alloc()
}

/// Relies on `BitAlloc::alloc_contiguous` with a given base and no extra
/// alignment: takes `base..base + size` when every bit of it is free, and
/// changes nothing otherwise.
#[verifier::external_body]
fn bitmap_take_run(b: &mut FrameBitmap, base: usize, size: usize) -> (r: Option<usize>)
    requires
        size >= 1,
        base + size <= FRAME_BITMAP_CAP,
    ensures
        match r {
            Some(x) => x == base && set_int_range(base as int, base + size).subset_of(
                free_set(*old(b)),
            ) && free_set(*final(b)) == free_set(*old(b)).difference(
                set_int_range(base as int, base + size),
            ),
            None => !set_int_range(base as int, base + size).subset_of(free_set(*old(b)))
                && free_set(*final(b)) == free_set(*old(b)),
        },
{
    b.inner.alloc_contiguous(Some(base), size, 0)
}

/// Relies on `BitAlloc::alloc_contiguous` with no given base: it searches
/// for `size` free bits whose first index is a multiple of `2^align_log2`
/// and takes the first such run it finds; otherwise it changes nothing.
#[verifier::external_body]
fn bitmap_find_run(b: &mut FrameBitmap, size: usize, align_log2: usize) -> (r: Option<usize>)
    requires
        size >= 1,
        align_log2 < 20,
    ensures
        match r {
            Some(x) => x as int % ((1usize << align_log2) as int) == 0 && set_int_range(x as int, x + size).subset_of(
                free_set(*old(b)),
            ) && free_set(*final(b)) == free_set(*old(b)).difference(set_int_range(x as int, x + size)),
            None => free_set(*final(b)) == free_set(*old(b)),
        },
{
    b.inner.alloc_contiguous(None, size, align_log2)
}

/// Relies on `BitAlloc::dealloc`: marks one bit free.
#[verifier::external_body]
fn bitmap_dealloc(b: &mut FrameBitmap, key: usize)
    requires
        key < FRAME_BITMAP_CAP,
    ensures
        free_set(*final(b)) == free_set(*old(b)).insert(key as int),
{
    b.inner.dealloc(key);
}

/// Relies on `BitAlloc::test`: whether one bit is free.
#[verifier::external_body]
fn bitmap_test(b: &FrameBitmap, key: usize) -> (r: bool)
    requires
        key < FRAME_BITMAP_CAP,
    ensures
        r == free_set(*b).contains(key as int),
{
    b.inner.test(key)
}

/// The abstract state of the frame allocator: the address of frame index 0,
/// the number of frames managed, the number handed out, and the free indices.
pub struct FrameAllocView {
    pub base: int,
    pub total: int,
    pub used: int,
    pub free: Set<int>,
}

impl FrameAllocView {
    pub open spec fn wf(self) -> bool {
        &&& self.base % (PAGE_SIZE_4K as int) == 0
        &&& 0 <= self.base
        &&& 0 <= self.total <= FRAME_BITMAP_CAP
        &&& self.base + self.total * (PAGE_SIZE_4K as int) <= usize::MAX
        &&& self.free.subset_of(set_int_range(0, self.total))
        &&& self.free.finite()
        &&& 0 <= self.used <= self.total
        &&& self.used + self.free.len() == self.total
    }

    /// Frames still available.
    pub open spec fn available(self) -> int {
        self.total - self.used
    }

    /// Host-physical address of frame index `i`.
    pub open spec fn frame_addr(self, i: int) -> int {
        self.base + i * (PAGE_SIZE_4K as int)
    }

    /// Whether frames `i..i + n` are all free.
    pub open spec fn run_free(self, i: int, n: int) -> bool {
        set_int_range(i, i + n).subset_of(self.free)
    }

    /// Whether a run of `n` frames starting at index `i` would satisfy `align`.
    pub open spec fn run_fits(self, i: int, n: int, align: int) -> bool {
        &&& 0 <= i
        &&& i + n <= self.total
        &&& self.frame_addr(i) % align == 0
        &&& self.run_free(i, n)
    }

    /// Whether some run of `n` free frames satisfies `align`.
    pub open spec fn has_run(self, n: int, align: int) -> bool {
        exists|i: int| self.run_fits(i, n, align)
    }

    /// Whether `n` and `align` form a valid request.
    pub open spec fn valid_request(n: int, align: int) -> bool {
        n >= 1 && align > 0 && align % (PAGE_SIZE_4K as int) == 0
    }

    /// What `alloc_frames(n, align)` does, from state `self` to state `post`.
    pub open spec fn alloc_post(
        self,
        post: FrameAllocView,
        n: int,
        align: int,
        r: HypervisorResult<HostPhysAddr>,
    ) -> bool {
        &&& post.base == self.base
        &&& post.total == self.total
        &&& match r {
            Ok(a) => {
                &&& Self::valid_request(n, align)
                &&& a.0 as int % align == 0
                &&& (a.0 - self.base) % (PAGE_SIZE_4K as int) == 0
                &&& self.run_fits(self.index_of(a.0 as int), n, align)
                &&& post.free == self.free.difference(
                    set_int_range(self.index_of(a.0 as int), self.index_of(a.0 as int) + n),
                )
                &&& post.used == self.used + n
            },
            Err(e) => {
                &&& post.free == self.free
                &&& post.used == self.used
                &&& (e == HypervisorError::InvalidParam || e == HypervisorError::NoMemory)
                &&& (e == HypervisorError::InvalidParam <==> !Self::valid_request(n, align))
                &&& (e == HypervisorError::NoMemory <==> (Self::valid_request(n, align)
                    && !self.has_run(n, align)))
            },
        }
    }

    /// Frame index of an address inside the pool.
    pub open spec fn index_of(self, a: int) -> int {
        (a - self.base) / (PAGE_SIZE_4K as int)
    }

    /// Whether `pos` and `n` name frames inside the pool.
    pub open spec fn in_pool(self, pos: int, n: int) -> bool {
        &&& pos >= self.base
        &&& (pos - self.base) % (PAGE_SIZE_4K as int) == 0
        &&& self.index_of(pos) + n <= self.total
    }

    /// Frame indices `dealloc_frames(pos, n)` frees: the run, when it lies in
    /// the pool.
    pub open spec fn freed_by(self, pos: int, n: int) -> Set<int> {
        if self.in_pool(pos, n) {
            set_int_range(self.index_of(pos), self.index_of(pos) + n)
        } else {
            Set::<int>::empty()
        }
    }

    /// Frame indices freed by releasing each `(address, count)` run in turn.
    pub open spec fn runs_freed(self, runs: Seq<(usize, usize)>) -> Set<int>
        decreases runs.len(),
    {
        if runs.len() == 0 {
            Set::<int>::empty()
        } else {
            self.runs_freed(runs.drop_last()).union(self.freed_by(runs.last().0 as int, runs.last().1 as int))
        }
    }

    /// A frame index clipped to the pool.
    pub open spec fn clip(self, i: int) -> int {
        if i < 0 {
            0
        } else if i > self.total {
            self.total
        } else {
            i
        }
    }

    /// Pool indices of the frames inside `[pos, pos + len)` (both page-aligned).
    pub open spec fn reserved(self, pos: int, len: int) -> Set<int> {
        set_int_range(self.clip((pos - self.base) / 4096), self.clip((pos + len - self.base) / 4096))
    }

    /// The allocator after `reserve_range(pos, len)`: the frames of the range
    /// that were free are taken out of the pool and counted as used.
    pub open spec fn after_reserve(self, pos: int, len: int) -> FrameAllocView {
        FrameAllocView {
            base: self.base,
            total: self.total,
            used: self.used + self.free.intersect(self.reserved(pos, len)).len(),
            free: self.free.difference(self.reserved(pos, len)),
        }
    }

    /// What `dealloc_frames(pos, n)` does: frames of the pool in the range
    /// become free again and the used count drops by those that were in use.
    /// A range that leaves the pool changes nothing.
    pub open spec fn dealloc_post(self, post: FrameAllocView, pos: int, n: int) -> bool {
        &&& post.base == self.base
        &&& post.total == self.total
        &&& if self.in_pool(pos, n) {
            let range = set_int_range(self.index_of(pos), self.index_of(pos) + n);
            &&& post.free == self.free.union(range)
            &&& post.used == self.used - range.difference(self.free).len()
        } else {
            post.free == self.free && post.used == self.used
        }
    }
}

/// Physical frame allocator: a bitmap over the 4 KiB frames of one region.
pub struct PhysFrameAllocator {
    base: usize,
    total_frames: usize,
    used_frames: usize,
    inner: FrameBitmap,
}

impl View for PhysFrameAllocator {
    type V = FrameAllocView;

    closed spec fn view(&self) -> FrameAllocView {
        FrameAllocView {
            base: self.base as int,
            total: self.total_frames as int,
            used: self.used_frames as int,
            free: free_set(self.inner),
        }
    }
}

proof fn lemma_range_len(lo: int, hi: int)
    requires
        lo <= hi,
    ensures
        set_int_range(lo, hi).finite(),
        set_int_range(lo, hi).len() == hi - lo,
{
    lemma_int_range(lo, hi);
}

/// Removing a subset from a finite set removes exactly its elements.
proof fn lemma_len_remove_subset(s: Set<int>, r: Set<int>)
    requires
        s.finite(),
        r.subset_of(s),
    ensures
        r.finite(),
        s.difference(r).len() == s.len() - r.len(),
{
    lemma_len_subset(r, s);
    lemma_set_difference_len(s, r);
    assert(s.intersect(r) =~= r);
}

impl PhysFrameAllocator {
    pub open spec fn wf(&self) -> bool {
        self@.wf()
    }

    /// An allocator that manages no frames yet.
    pub fn new() -> (r: Self)
        ensures
            r.wf(),
            r@.base == 0,
            r@.total == 0,
            r@.used == 0,
            r@.free == Set::<int>::empty(),
    {
        let r = PhysFrameAllocator { base: 0, total_frames: 0, used_frames: 0, inner: bitmap_new() };
        proof {
            assert(r@.free.len() == 0);
        }
        r
    }

    /// Carve `[start, start + size)` into page-aligned frames and mark them all
    /// free. Callable once, on an allocator that manages no frames.
    pub fn init(&mut self, start: HostPhysAddr, size: usize)
        requires
            old(self).wf(),
            old(self)@.total == 0,
            start.0 + size + PAGE_SIZE_4K <= usize::MAX,
            size / PAGE_SIZE_4K <= FRAME_BITMAP_CAP,
        ensures
            final(self).wf(),
            final(self)@.base == crate::addr::align_up_spec(start.0 as int, PAGE_SIZE_4K as int),
            final(self)@.total == if crate::addr::align_down_spec(
                start.0 + size,
                PAGE_SIZE_4K as int,
            ) > final(self)@.base {
                (crate::addr::align_down_spec(start.0 + size, PAGE_SIZE_4K as int)
                    - final(self)@.base) / (PAGE_SIZE_4K as int)
            } else {
                0
            },
            final(self)@.used == 0,
            final(self)@.free == set_int_range(0, final(self)@.total),
    {
        let first = align_up(start.as_usize(), PAGE_SIZE_4K);
        let end = align_down(start.as_usize() + size, PAGE_SIZE_4K);
        self.base = first;
        if end > first {
            let total = (end - first) / PAGE_SIZE_4K;
            assert(total * 4096 == end - first) by (nonlinear_arith)
                requires total == (end - first) / 4096, (end - first) % 4096 == 0,
                    first % 4096 == 0, end % 4096 == 0;
            assert(total <= size / 4096) by (nonlinear_arith)
                requires total * 4096 == end - first, end <= start.0 + size, first >= start.0;
            self.total_frames = total;
            proof {
                assert(self@.free == Set::<int>::empty());
            }
            bitmap_insert(&mut self.inner, 0, total);
            proof {
                lemma_range_len(0, total as int);
                assert(self@.free =~= set_int_range(0, total as int));
            }
        } else {
            proof {
                assert(self@.free =~= set_int_range(0, 0));
            }
        }
    }

    /// Hand out `num_frames` contiguous free frames whose first address is a
    /// multiple of `align` (a byte count, a multiple of the frame size).
    #[verifier::spinoff_prover]
    pub fn alloc_frames(&mut self, num_frames: usize, align: usize) -> (r: HypervisorResult<
        HostPhysAddr,
    >)
        requires
            old(self).wf(),
        ensures
            final(self).wf(),
            old(self)@.alloc_post(final(self)@, num_frames as int, align as int, r),
    {
        if num_frames < 1 || align == 0 || align % PAGE_SIZE_4K != 0 {
            return Err(HypervisorError::InvalidParam);
        }
        let ghost v0 = self@;
        if num_frames == 1 && align == PAGE_SIZE_4K {
            match bitmap_alloc(&mut self.inner) {
                Some(idx) => {
                    proof {
                        assert(v0.free.contains(idx as int));
                        assert(idx < self.total_frames);
                        assert(idx * 4096 <= self.total_frames * 4096) by (nonlinear_arith)
                            requires idx < self.total_frames;
                        lemma_len_remove_subset(v0.free, set![idx as int]);
                        assert(v0.free.remove(idx as int) =~= v0.free.difference(set![idx as int]));
                        assert(set_int_range(idx as int, idx + 1) =~= set![idx as int]);
                    }
                    let a = idx * PAGE_SIZE_4K + self.base;
                    self.used_frames = self.used_frames + 1;
                    proof {
                        assert((a - self.base) / 4096 == idx as int) by (nonlinear_arith)
                            requires a == idx * 4096 + self.base;
                        assert((a - self.base) % 4096 == 0) by (nonlinear_arith)
                            requires a == idx * 4096 + self.base;
                        assert(a % 4096 == 0) by (nonlinear_arith)
                            requires a == idx * 4096 + self.base, self.base % 4096 == 0;
                        assert(self@.free.subset_of(set_int_range(0, self@.total)));
                    }
                    return Ok(HostPhysAddr(a));
                },
                None => {
                    proof {
                        assert forall|i: int| !v0.run_fits(i, 1, align as int) by {
                            if v0.run_fits(i, 1, align as int) {
                                assert(set_int_range(i, i + 1).contains(i));
                            }
                        }
                    }
                    return Err(HypervisorError::NoMemory);
                },
            }
        }
        if num_frames > self.total_frames {
            proof {
                assert forall|i: int| !v0.run_fits(i, num_frames as int, align as int) by {}
            }
            return Err(HypervisorError::NoMemory);
        }
        // Where the pool starts on a boundary of the alignment, frame indices
        // and addresses are aligned alike, and the bitmap's own search applies.
        let step = align / PAGE_SIZE_4K;
        if self.base % align == 0 {
            let mut l: usize = 0;
            while l < 19 && (1usize << l) < step
                invariant
                    l < 20,
                decreases 19 - l,
            {
                l = l + 1;
            }
            if (1usize << l) == step {
                match bitmap_find_run(&mut self.inner, num_frames, l) {
                    Some(idx) => {
                        proof {
                            let range = set_int_range(idx as int, idx + num_frames);
                            lemma_range_len(idx as int, idx + num_frames);
                            lemma_len_remove_subset(v0.free, range);
                            assert(range.contains(idx + num_frames - 1));
                            assert(idx + num_frames <= v0.total);
                        }
                        assert(idx * 4096 <= self.total_frames * 4096) by (nonlinear_arith)
                            requires idx <= self.total_frames;
                        let a = self.base + idx * PAGE_SIZE_4K;
                        self.used_frames = self.used_frames + num_frames;
                        proof {
                            let range = set_int_range(idx as int, idx + num_frames);
                            assert(align == step * 4096) by (nonlinear_arith)
                                requires step == align / 4096, align % 4096 == 0;
                            let q = v0.base / (align as int);
                            let rr = (idx as int) / (step as int);
                            assert(v0.base == (align as int) * q) by (nonlinear_arith)
                                requires q == v0.base / (align as int), v0.base % (align as int) == 0, align > 0;
                            assert(idx as int == (step as int) * rr) by (nonlinear_arith)
                                requires rr == (idx as int) / (step as int), (idx as int) % (step as int) == 0, step > 0;
                            assert(a as int == (align as int) * (q + rr)) by (nonlinear_arith)
                                requires a == v0.base + idx * 4096, v0.base == (align as int) * q,
                                    idx as int == (step as int) * rr, align == step * 4096;
                            vstd::arithmetic::div_mod::lemma_mod_multiples_basic(q + rr, align as int);
                            assert(a % align == 0);
                            assert((a - v0.base) / 4096 == idx as int) by (nonlinear_arith)
                                requires a == idx * 4096 + v0.base;
                            assert((a - v0.base) % 4096 == 0) by (nonlinear_arith)
                                requires a == idx * 4096 + v0.base;
                            assert(v0.frame_addr(idx as int) == a as int);
                            assert(v0.run_fits(idx as int, num_frames as int, align as int));
                            assert(self@.free.subset_of(v0.free));
                            assert(self@.free.subset_of(set_int_range(0, self@.total)));
                            assert(self@.wf());
                            assert(v0.index_of(a as int) == idx as int);
                        }
                        return Ok(HostPhysAddr(a));
                    },
                    None => {},
                }
            }
        }
        let last = self.total_frames - num_frames;
        let mut i: usize = 0;
        while i <= last
            invariant
                self@ == v0,
                v0 == old(self)@,
                v0.wf(),
                last + num_frames == v0.total,
                num_frames >= 1,
                align > 0,
                align % 4096 == 0,
                forall|j: int| 0 <= j < i ==> !v0.run_fits(j, num_frames as int, align as int),
            decreases last + 1 - i,
        {
            assert(i * 4096 <= self.total_frames * 4096) by (nonlinear_arith)
                requires i <= self.total_frames;
            let a = self.base + i * PAGE_SIZE_4K;
            assert(v0.frame_addr(i as int) == a as int);
            if a % align == 0 {
                match bitmap_take_run(&mut self.inner, i, num_frames) {
                    Some(_) => {
                        proof {
                            let range = set_int_range(i as int, i + num_frames);
                            lemma_range_len(i as int, i + num_frames);
                            lemma_len_remove_subset(v0.free, range);
                            assert((a - v0.base) / 4096 == i as int) by (nonlinear_arith)
                                requires a == i * 4096 + v0.base;
                            assert((a - v0.base) % 4096 == 0) by (nonlinear_arith)
                                requires a == i * 4096 + v0.base;
                        }
                        self.used_frames = self.used_frames + num_frames;
                        proof {
                            let range = set_int_range(i as int, i + num_frames);
                            assert(v0.run_fits(i as int, num_frames as int, align as int));
                            assert(self@.free == v0.free.difference(range));
                            assert(self@.free.subset_of(v0.free));
                            assert(self@.free.subset_of(set_int_range(0, self@.total)));
                            assert(self@.used + self@.free.len() == self@.total);
                            assert(self@.wf());
                            assert(v0.index_of(a as int) == i as int);
                            assert(FrameAllocView::valid_request(num_frames as int, align as int));
                        }
                        return Ok(HostPhysAddr(a));
                    },
                    None => {
                        assert(!v0.run_fits(i as int, num_frames as int, align as int));
                    },
                }
            } else {
                assert(!v0.run_fits(i as int, num_frames as int, align as int));
            }
            assert(self@ == v0);
            if i == last {
                proof {
                    assert forall|j: int| !v0.run_fits(j, num_frames as int, align as int) by {
                        if 0 <= j && j <= i {
                        }
                    }
                    assert(!v0.has_run(num_frames as int, align as int));
                    assert(FrameAllocView::valid_request(num_frames as int, align as int));
                }
                return Err(HypervisorError::NoMemory);
            }
            i = i + 1;
        }
        Err(HypervisorError::NoMemory)
    }

    /// Return frames `pos..pos + num_frames * 4 KiB` to the pool. Frames that
    /// are already free stay free and are not counted twice; a range that is
    /// not inside the pool is ignored.
    #[verifier::spinoff_prover]
    pub fn dealloc_frames(&mut self, pos: HostPhysAddr, num_frames: usize)
        requires
            old(self).wf(),
        ensures
            final(self).wf(),
            old(self)@.dealloc_post(final(self)@, pos.0 as int, num_frames as int),
    {
        let ghost v0 = self@;
        if pos.as_usize() < self.base || (pos.as_usize() - self.base) % PAGE_SIZE_4K != 0 {
            return;
        }
        let first = (pos.as_usize() - self.base) / PAGE_SIZE_4K;
        if first > self.total_frames || num_frames > self.total_frames - first {
            return;
        }
        let end = first + num_frames;
        let mut k: usize = first;
        proof {
            assert(set_int_range(first as int, first as int).difference(v0.free) =~= Set::<
                int,
            >::empty());
            assert(v0.free.union(set_int_range(first as int, first as int)) =~= v0.free);
        }
        while k < end
            invariant
                first <= k <= end,
                end <= v0.total,
                self@.wf(),
                self@.base == v0.base,
                self@.total == v0.total,
                self@.free == v0.free.union(set_int_range(first as int, k as int)),
                self@.used == v0.used - set_int_range(first as int, k as int).difference(
                    v0.free,
                ).len(),
            decreases end - k,
        {
            let ghost before = self@;
            proof {
                lemma_range_len(first as int, k as int);
                lemma_len_subset(
                    set_int_range(first as int, k as int).difference(v0.free),
                    set_int_range(first as int, k as int),
                );
            }
            let is_free = bitmap_test(&self.inner, k);
            let ghost old_part = set_int_range(first as int, k as int).difference(v0.free);
            let ghost new_part = set_int_range(first as int, k + 1).difference(v0.free);
            if !is_free {
                bitmap_dealloc(&mut self.inner, k);
                proof {
                    assert(!v0.free.contains(k as int));
                    assert(new_part =~= old_part.insert(k as int));
                    assert(!old_part.contains(k as int));
                    assert(before.free.insert(k as int).len() == before.free.len() + 1);
                    assert(self@.free =~= v0.free.union(set_int_range(first as int, k + 1)));
                    assert(before.used >= 1) by {
                        assert(before.free.len() < before.total) by {
                            assert(!before.free.contains(k as int));
                            lemma_int_range(0, before.total);
                            assert(before.free.insert(k as int).subset_of(
                                set_int_range(0, before.total),
                            ));
                            lemma_len_subset(
                                before.free.insert(k as int),
                                set_int_range(0, before.total),
                            );
                        }
                    }
                }
                self.used_frames = self.used_frames - 1;
            } else {
                proof {
                    assert(before.free.contains(k as int));
                    assert(v0.free.contains(k as int)) by {
                        if !v0.free.contains(k as int) {
                            assert(!set_int_range(first as int, k as int).contains(k as int));
                        }
                    }
                    assert(new_part =~= old_part);
                    assert(self@.free =~= v0.free.union(set_int_range(first as int, k + 1)));
                }
            }
            proof {
                assert(self@.free.subset_of(set_int_range(0, self@.total)));
            }
            k = k + 1;
        }
        proof {
            assert(v0.index_of(pos.0 as int) == first as int);
        }
    }

    /// Take the frames of `[pos, pos + len)` that lie in the pool out of it,
    /// so that they are never handed out: memory that is used for something
    /// else, such as a guest's memory window.
    pub fn reserve_range(&mut self, pos: usize, len: usize)
        requires
            old(self).wf(),
            pos % 4096 == 0,
            len % 4096 == 0,
            pos + len <= usize::MAX,
        ensures
            final(self).wf(),
            final(self)@ == old(self)@.after_reserve(pos as int, len as int),
    {
        let ghost v0 = self@;
        let end = pos + len;
        let pool_end = self.base + self.total_frames * PAGE_SIZE_4K;
        let lo: usize = if pos <= self.base {
            0
        } else if pos >= pool_end {
            self.total_frames
        } else {
            (pos - self.base) / PAGE_SIZE_4K
        };
        let hi: usize = if end <= self.base {
            0
        } else if end >= pool_end {
            self.total_frames
        } else {
            (end - self.base) / PAGE_SIZE_4K
        };
        proof {
            assert(lo == v0.clip((pos - v0.base) / 4096)) by (nonlinear_arith)
                requires
                    lo == (if pos <= v0.base { 0 } else if pos >= pool_end { v0.total } else { (pos - v0.base) / 4096 }),
                    pool_end == v0.base + v0.total * 4096, pos % 4096 == 0, v0.base % 4096 == 0, v0.total >= 0,
                    v0.clip((pos - v0.base) / 4096) == (if (pos - v0.base) / 4096 < 0 { 0 } else if (pos - v0.base) / 4096 > v0.total { v0.total } else { (pos - v0.base) / 4096 });
            assert(hi == v0.clip((end - v0.base) / 4096)) by (nonlinear_arith)
                requires
                    hi == (if end <= v0.base { 0 } else if end >= pool_end { v0.total } else { (end - v0.base) / 4096 }),
                    pool_end == v0.base + v0.total * 4096, end % 4096 == 0, v0.base % 4096 == 0, v0.total >= 0,
                    v0.clip((end - v0.base) / 4096) == (if (end - v0.base) / 4096 < 0 { 0 } else if (end - v0.base) / 4096 > v0.total { v0.total } else { (end - v0.base) / 4096 });
        }
        let mut k: usize = lo;
        proof {
            assert(set_int_range(lo as int, lo as int) =~= Set::<int>::empty());
            assert(v0.free.difference(Set::<int>::empty()) =~= v0.free);
            assert(v0.free.intersect(Set::<int>::empty()) =~= Set::<int>::empty());
        }
        while k < hi
            invariant
                lo <= hi <= v0.total,
                lo <= k <= hi || (lo > hi && k == lo),
                v0 == old(self)@,
                self.wf(),
                self@.base == v0.base,
                self@.total == v0.total,
                self@.free == v0.free.difference(set_int_range(lo as int, k as int)),
                self@.used == v0.used + v0.free.intersect(set_int_range(lo as int, k as int)).len(),
            decreases hi - k,
        {
            let ghost before = self@;
            let ghost done = set_int_range(lo as int, k as int);
            let ghost next = set_int_range(lo as int, k + 1);
            proof {
                lemma_int_range(lo as int, k as int);
                lemma_len_subset(v0.free.intersect(done), done);
            }
            if bitmap_test(&self.inner, k) {
                let _ = bitmap_take_run(&mut self.inner, k, 1);
                proof {
                    assert(set_int_range(k as int, k + 1) =~= set![k as int]);
                    assert(self@.free =~= v0.free.difference(next));
                    assert(v0.free.intersect(next) =~= v0.free.intersect(done).insert(k as int));
                    assert(!v0.free.intersect(done).contains(k as int));
                    lemma_len_remove_subset(before.free, set![k as int]);
                    assert(before.free.remove(k as int) =~= before.free.difference(set![k as int]));
                    assert(before.used < before.total) by {
                        assert(before.free.len() >= 1) by {
                            assert(before.free.contains(k as int));
                            if before.free.len() == 0 {
                                before.free.lemma_len0_is_empty();
                            }
                        }
                    }
                }
                self.used_frames = self.used_frames + 1;
                proof {
                    assert(self@.free.subset_of(set_int_range(0, self@.total)));
                }
            } else {
                proof {
                    assert(self@.free =~= v0.free.difference(next));
                    assert(v0.free.intersect(next) =~= v0.free.intersect(done));
                }
            }
            k = k + 1;
        }
        proof {
            if lo > hi {
                assert(set_int_range(lo as int, hi as int) =~= Set::<int>::empty());
            }
            assert(v0.reserved(pos as int, len as int) =~= set_int_range(lo as int, k as int));
        }
    }

    /// Address of frame index 0 of the pool.
    pub fn base(&self) -> (r: usize)
        ensures
            r == self@.base,
    {
        self.base
    }

    pub fn total_frames(&self) -> (r: usize)
        ensures
            r == self@.total,
    {
        self.total_frames
    }

    pub fn used_frames(&self) -> (r: usize)
        ensures
            r == self@.used,
    {
        self.used_frames
    }

    pub fn available_frames(&self) -> (r: usize)
        requires
            self.wf(),
        ensures
            r == self@.available(),
    {
        self.total_frames - self.used_frames
    }
}

proof fn lemma_runs_freed_finite(v: FrameAllocView, runs: Seq<(usize, usize)>)
    ensures
        v.runs_freed(runs).finite(),
    decreases runs.len(),
{
    if runs.len() > 0 {
        lemma_runs_freed_finite(v, runs.drop_last());
        let (p, n) = runs.last();
        if v.in_pool(p as int, n as int) {
            lemma_int_range(v.index_of(p as int), v.index_of(p as int) + n);
        }
    }
}

proof fn lemma_union_diff_len(f: Set<int>, a: Set<int>, r: Set<int>)
    requires
        a.finite(),
        r.finite(),
    ensures
        a.union(r).difference(f).len() == a.difference(f).len() + r.difference(f.union(a)).len(),
{
    let x = a.difference(f);
    let y = r.difference(f.union(a));
    lemma_len_subset(x, a);
    lemma_len_subset(y, r);
    assert(a.union(r).difference(f) =~= x + y);
    assert(x.disjoint(y));
    lemma_set_disjoint_lens(x, y);
}

impl PhysFrameAllocator {
    /// Release every `(address, count)` run of `runs`, in order.
    pub fn dealloc_runs(&mut self, runs: &Vec<(usize, usize)>)
        requires
            old(self).wf(),
        ensures
            final(self).wf(),
            final(self)@.base == old(self)@.base,
            final(self)@.total == old(self)@.total,
            final(self)@.free == old(self)@.free.union(old(self)@.runs_freed(runs@)),
            final(self)@.used == old(self)@.used - old(self)@.runs_freed(runs@).difference(old(self)@.free).len(),
    {
        let ghost v0 = self@;
        let mut i: usize = 0;
        proof {
            assert(runs@.subrange(0, 0) =~= Seq::<(usize, usize)>::empty());
            assert(v0.free.union(Set::<int>::empty()) =~= v0.free);
            assert(Set::<int>::empty().difference(v0.free) =~= Set::<int>::empty());
        }
        while i < runs.len()
            invariant
                i <= runs@.len(),
                v0 == old(self)@,
                self.wf(),
                self@.base == v0.base,
                self@.total == v0.total,
                self@.free == v0.free.union(v0.runs_freed(runs@.subrange(0, i as int))),
                self@.used == v0.used - v0.runs_freed(runs@.subrange(0, i as int)).difference(v0.free).len(),
            decreases runs@.len() - i,
        {
            let (pos, n) = runs[i];
            let ghost cur = self@;
            let ghost a = v0.runs_freed(runs@.subrange(0, i as int));
            self.dealloc_frames(HostPhysAddr(pos), n);
            proof {
                let pre = runs@.subrange(0, i + 1);
                assert(pre.drop_last() =~= runs@.subrange(0, i as int));
                assert(pre.last() == (pos, n));
                let fr = v0.freed_by(pos as int, n as int);
                assert(v0.runs_freed(pre) == a.union(fr));
                lemma_runs_freed_finite(v0, runs@.subrange(0, i as int));
                if v0.in_pool(pos as int, n as int) {
                    lemma_int_range(v0.index_of(pos as int), v0.index_of(pos as int) + n);
                    assert(cur.in_pool(pos as int, n as int));
                } else {
                    assert(fr =~= Set::<int>::empty());
                }
                lemma_union_diff_len(v0.free, a, fr);
                assert(self@.free =~= v0.free.union(a.union(fr)));
                assert(fr.difference(cur.free) =~= fr.difference(v0.free.union(a)));
                if v0.in_pool(pos as int, n as int) {
                    assert(self@.used == cur.used - fr.difference(cur.free).len());
                } else {
                    assert(fr.difference(v0.free.union(a)) =~= Set::<int>::empty());
                    assert(self@.used == cur.used);
                }
                assert(self@.used == v0.used - a.union(fr).difference(v0.free).len());
            }
            i = i + 1;
        }
        proof {
            assert(runs@.subrange(0, runs@.len() as int) =~= runs@);
        }
    }
}

/// A successful allocation hands out frames `index_of(a)..index_of(a) + n` at
/// addresses `a..a + n * 4 KiB`.
pub proof fn lemma_alloc_addr(v0: FrameAllocView, v1: FrameAllocView, n: int, align: int, a: HostPhysAddr)
    requires
        v0.wf(),
        v0.alloc_post(v1, n, align, Ok(a)),
    ensures
        a.0 == v0.base + v0.index_of(a.0 as int) * 4096,
        0 <= v0.index_of(a.0 as int),
        v0.index_of(a.0 as int) + n <= v0.total,
        n >= 1,
{
    let i = v0.index_of(a.0 as int);
    assert(a.0 == v0.base + i * 4096) by (nonlinear_arith)
        requires i == (a.0 - v0.base) / 4096, (a.0 - v0.base) % 4096 == 0;
}

/// Frame allocator soundness: the frames in use never outnumber the frames
/// managed, and two successful allocations in a row (with no release between
/// them) hand out address ranges that do not overlap.
pub proof fn lemma_allocations_disjoint(
    v0: FrameAllocView,
    v1: FrameAllocView,
    v2: FrameAllocView,
    n1: int,
    align1: int,
    a1: HostPhysAddr,
    n2: int,
    align2: int,
    a2: HostPhysAddr,
)
    requires
        v0.wf(),
        v1.wf(),
        v2.wf(),
        v0.alloc_post(v1, n1, align1, Ok(a1)),
        v1.alloc_post(v2, n2, align2, Ok(a2)),
    ensures
        v1.used <= v1.total,
        v2.used <= v2.total,
        v2.used == v0.used + n1 + n2,
        a1.0 + n1 * 4096 <= a2.0 || a2.0 + n2 * 4096 <= a1.0,
{
    lemma_alloc_addr(v0, v1, n1, align1, a1);
    lemma_alloc_addr(v1, v2, n2, align2, a2);
    let i1 = v0.index_of(a1.0 as int);
    let i2 = v1.index_of(a2.0 as int);
    if !(i1 + n1 <= i2 || i2 + n2 <= i1) {
        let k = if i1 <= i2 { i2 } else { i1 };
        assert(set_int_range(i2, i2 + n2).contains(k));
        assert(set_int_range(i1, i1 + n1).contains(k));
        assert(v1.free.contains(k));
    }
    assert(a1.0 + n1 * 4096 <= a2.0 || a2.0 + n2 * 4096 <= a1.0) by (nonlinear_arith)
        requires
            i1 + n1 <= i2 || i2 + n2 <= i1,
            a1.0 == v0.base + i1 * 4096,
            a2.0 == v0.base + i2 * 4096,
    ;
}

/// Frames in use are never handed out: a successful allocation's run is
/// disjoint from any run of frames that were not free before it (such as the
/// frames of every allocation still live), so live allocations never overlap.
pub proof fn lemma_allocation_avoids_live(
    v0: FrameAllocView,
    v1: FrameAllocView,
    n: int,
    align: int,
    a: HostPhysAddr,
    live: HostPhysAddr,
    live_n: int,
)
    requires
        v0.wf(),
        v0.alloc_post(v1, n, align, Ok(a)),
        live.0 >= v0.base,
        (live.0 - v0.base) % 4096 == 0,
        live_n >= 1,
        forall|k: int|
            v0.index_of(live.0 as int) <= k < v0.index_of(live.0 as int) + live_n ==> !v0.free.contains(k),
    ensures
        a.0 + n * 4096 <= live.0 || live.0 + live_n * 4096 <= a.0,
        v1.used <= v1.total,
{
    lemma_alloc_addr(v0, v1, n, align, a);
    let i = v0.index_of(a.0 as int);
    let j = v0.index_of(live.0 as int);
    assert(live.0 == v0.base + j * 4096) by (nonlinear_arith)
        requires j == (live.0 - v0.base) / 4096, (live.0 - v0.base) % 4096 == 0;
    if !(i + n <= j || j + live_n <= i) {
        let k = if i <= j { j } else { i };
        assert(set_int_range(i, i + n).contains(k));
        assert(v0.free.contains(k));
    }
    assert(a.0 + n * 4096 <= live.0 || live.0 + live_n * 4096 <= a.0) by (nonlinear_arith)
        requires
            i + n <= j || j + live_n <= i,
            a.0 == v0.base + i * 4096,
            live.0 == v0.base + j * 4096,
    ;
    assert(v1.free == v0.free.difference(set_int_range(i, i + n)));
    lemma_int_range(i, i + n);
    lemma_len_remove_subset(v0.free, set_int_range(i, i + n));
}

/// Allocator round trip: allocating a run and releasing the same run leaves
/// the free frames, and so the available count, as they were.
pub proof fn lemma_alloc_dealloc_round_trip(
    v0: FrameAllocView,
    v1: FrameAllocView,
    v2: FrameAllocView,
    n: int,
    align: int,
    a: HostPhysAddr,
)
    requires
        v0.wf(),
        v1.wf(),
        v0.alloc_post(v1, n, align, Ok(a)),
        v1.dealloc_post(v2, a.0 as int, n),
    ensures
        v2.free == v0.free,
        v2.used == v0.used,
        v2.available() == v0.available(),
{
    lemma_alloc_addr(v0, v1, n, align, a);
    let i = v0.index_of(a.0 as int);
    assert(v1.in_pool(a.0 as int, n));
    assert(v1.index_of(a.0 as int) == i);
    let range = set_int_range(i, i + n);
    assert(v2.free =~= v0.free);
    assert(range.difference(v1.free) =~= range);
    lemma_int_range(i, i + n);
}

/// A single 4 KiB frame can be handed out exactly when some frame is free.
pub proof fn lemma_single_frame_run(v: FrameAllocView)
    requires
        v.wf(),
    ensures
        v.has_run(1, 4096) <==> v.free.len() > 0,
        v.has_run(1, 4096) ==> v.total >= 1,
{
    if v.free.len() > 0 {
        let i = v.free.choose();
        assert(v.free.contains(i));
        assert(set_int_range(0, v.total).contains(i));
        assert(v.frame_addr(i) % 4096 == 0) by (nonlinear_arith)
            requires v.frame_addr(i) == v.base + i * 4096, v.base % 4096 == 0;
        assert(set_int_range(i, i + 1) =~= set![i]);
        assert(v.run_fits(i, 1, 4096));
    }
    if v.has_run(1, 4096) {
        let i = choose|i: int| v.run_fits(i, 1, 4096);
        assert(set_int_range(i, i + 1).contains(i));
        assert(v.free.contains(i));
        if v.free.len() == 0 {
            v.free.lemma_len0_is_empty();
        }
    }
}

/// Set up `alloc` over the physical memory that follows the hypervisor
/// image: from `hypervisor_end` to the end of the machine's memory.
/// `InvalidParam` when that range is empty, wraps, or holds more frames than
/// the bitmap tracks.
pub fn init_frame_allocator(
    alloc: &mut PhysFrameAllocator,
    meta: &crate::dtb::MachineMeta,
    hypervisor_end: usize,
) -> (r: HypervisorResult<()>)
    requires
        old(alloc).wf(),
        old(alloc)@.total == 0,
    ensures
        final(alloc).wf(),
        r is Ok ==> final(alloc)@.used == 0 && final(alloc)@.free == set_int_range(0, final(alloc)@.total)
            && final(alloc)@.base == crate::addr::align_up_spec(hypervisor_end as int, 4096),
        r is Err ==> r->Err_0 == HypervisorError::InvalidParam && final(alloc)@ == old(alloc)@,
        r is Err <==> (meta.phys_mem_start + meta.phys_mem_size > usize::MAX || meta.phys_mem_start
            + meta.phys_mem_size <= hypervisor_end || meta.phys_mem_start + meta.phys_mem_size > usize::MAX - 4096 || (
        meta.phys_mem_start + meta.phys_mem_size - hypervisor_end) / 4096 > FRAME_BITMAP_CAP),
{
    if meta.phys_mem_size > usize::MAX - meta.phys_mem_start {
        return Err(HypervisorError::InvalidParam);
    }
    let end = meta.phys_mem_start + meta.phys_mem_size;
    if end <= hypervisor_end || end > usize::MAX - PAGE_SIZE_4K {
        return Err(HypervisorError::InvalidParam);
    }
    let size = end - hypervisor_end;
    if size / PAGE_SIZE_4K > FRAME_BITMAP_CAP {
        return Err(HypervisorError::InvalidParam);
    }
    alloc.init(HostPhysAddr(hypervisor_end), size);
    Ok(())
}

} // verus!
