use vstd::prelude::*;

verus! {

/// Most MMIO devices the machine description records.
pub const MAX_DEVICES: usize = 16;

/// An MMIO device window.
#[derive(Debug, Clone, Copy, PartialEq, Eq, Structural)]
pub struct Device {
    pub base_address: usize,
    pub size: usize,
}

/// A hart and its interrupt-controller context.
#[derive(Debug, Clone, Copy, PartialEq, Eq, Structural)]
pub struct Hart {
    pub hartid: usize,
    pub plic_context: usize,
}

/// What the device tree says about the machine: the extent of physical
/// memory and the virtio MMIO windows (at most `MAX_DEVICES`).
#[derive(Debug, Clone)]
pub struct MachineMeta {
    pub phys_mem_start: usize,
    pub phys_mem_size: usize,
    pub virtio: Vec<Device>,
}

impl MachineMeta {
    /// A description with no memory and no devices.
    pub fn new() -> (r: Self)
        ensures
            r.phys_mem_start == 0,
            r.phys_mem_size == 0,
            r.virtio@.len() == 0,
    {
        MachineMeta { phys_mem_start: 0, phys_mem_size: 0, virtio: Vec::new() }
    }

    /// Record one more MMIO device; a description already holding
    /// `MAX_DEVICES` devices is left as it is and `false` is returned.
    pub fn push_device(&mut self, dev: Device) -> (r: bool)
        ensures
            r == (old(self).virtio@.len() < MAX_DEVICES),
            r ==> final(self).virtio@ == old(self).virtio@.push(dev),
            !r ==> final(self).virtio@ == old(self).virtio@,
            final(self).phys_mem_start == old(self).phys_mem_start,
            final(self).phys_mem_size == old(self).phys_mem_size,
    {
        if self.virtio.len() < MAX_DEVICES {
            self.virtio.push(dev);
            true
        } else {
            false
        }
    }
}

} // verus!
