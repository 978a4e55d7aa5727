use crate::error::{HypervisorError, HypervisorResult};
use vstd::prelude::*;

verus! {

/// A window of physical memory, `[base, base + len)`, accessed by physical
/// address with every access bounds-checked.
pub struct PhysMemWindow {
    base: usize,
    bytes: Vec<u8>,
}

pub struct WindowView {
    pub base: int,
    pub bytes: Seq<u8>,
}

impl View for PhysMemWindow {
    type V = WindowView;

    closed spec fn view(&self) -> WindowView {
        WindowView { base: self.base as int, bytes: self.bytes@ }
    }
}

impl WindowView {
    /// Whether `[paddr, paddr + n)` lies inside the window.
    pub open spec fn covers(self, paddr: int, n: int) -> bool {
        self.base <= paddr && paddr + n <= self.base + self.bytes.len()
    }
}

impl PhysMemWindow {
    /// A zero-filled window of `size` bytes at `base`.
    pub fn new(base: usize, size: usize) -> (r: Self)
        ensures
            r@.base == base,
            r@.bytes.len() == size,
            forall|i: int| 0 <= i < size ==> r@.bytes[i] == 0,
    {
        let bytes: Vec<u8> = vec![0u8; size];
        proof {
            assert forall|i: int| 0 <= i < size implies bytes@[i] == 0 by {
                assert(vstd::pervasive::cloned(0u8, bytes@[i]));
            }
        }
        PhysMemWindow { base, bytes }
    }

    pub fn base(&self) -> (r: usize)
        ensures
            r == self@.base,
    {
        self.base
    }

    /// The bytes of the window, first byte at `base()`.
    pub fn bytes(&self) -> (r: &[u8])
        ensures
            r@ == self@.bytes,
    {
        self.bytes.as_slice()
    }

    pub fn len(&self) -> (r: usize)
        ensures
            r == self@.bytes.len(),
    {
        self.bytes.len()
    }

    /// The byte at `paddr`, if the window holds it.
    pub fn read_byte(&self, paddr: usize) -> (r: Option<u8>)
        ensures
            self@.covers(paddr as int, 1) ==> r == Some(self@.bytes[paddr - self@.base]),
            !self@.covers(paddr as int, 1) ==> r is None,
    {
        if paddr < self.base || paddr - self.base >= self.bytes.len() {
            None
        } else {
            Some(self.bytes[paddr - self.base])
        }
    }

    /// Copy `data` to `paddr`; `InvalidParam`, with nothing written, when the
    /// range leaves the window.
    pub fn write(&mut self, paddr: usize, data: &[u8]) -> (r: HypervisorResult<()>)
        ensures
            final(self)@.base == old(self)@.base,
            final(self)@.bytes.len() == old(self)@.bytes.len(),
            r is Ok <==> old(self)@.covers(paddr as int, data@.len() as int),
            r is Err ==> r->Err_0 == HypervisorError::InvalidParam && final(self)@ == old(self)@,
            r is Ok ==> forall|i: int|
                0 <= i < final(self)@.bytes.len() ==> #[trigger] final(self)@.bytes[i] == if paddr
                    - old(self)@.base <= i < paddr - old(self)@.base + data@.len() {
                    data@[i - (paddr - old(self)@.base)]
                } else {
                    old(self)@.bytes[i]
                },
    {
        if paddr < self.base || paddr - self.base > self.bytes.len() || data.len() > self.bytes.len()
            - (paddr - self.base) {
            return Err(HypervisorError::InvalidParam);
        }
        let off = paddr - self.base;
        let ghost b0 = self.bytes@;
        assert(b0.len() == self.bytes.len());
        let mut k: usize = 0;
        while k < data.len()
            invariant
                k <= data@.len(),
                off + data@.len() <= self.bytes@.len(),
                self.bytes@.len() == b0.len(),
                b0.len() <= usize::MAX,
                off == paddr - old(self).base,
                self.base == old(self).base,
                b0 == old(self).bytes@,
                forall|i: int|
                    0 <= i < b0.len() ==> #[trigger] self.bytes@[i] == if off <= i < off + k {
                        data@[i - off]
                    } else {
                        b0[i]
                    },
            decreases data@.len() - k,
        {
            self.bytes.set(off + k, data[k]);
            k = k + 1;
        }
        Ok(())
    }
}

} // verus!
