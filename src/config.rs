use vstd::prelude::*;

verus! {

/// Size of one physical frame and of one leaf page.
pub const PAGE_SIZE_4K: usize = 0x1000;

/// Size of the boot stack reserved in the image.
pub const BOOT_STACK_SIZE: usize = 1000 * PAGE_SIZE_4K;

/// Size of the stack allocated for every physical CPU.
pub const PCPU_STACK_SIZE: usize = 4 * PAGE_SIZE_4K;

} // verus!
