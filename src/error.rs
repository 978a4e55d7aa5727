use vstd::prelude::*;

verus! {

/// The closed set of failures that allocator and page-table operations report.
#[derive(Debug, Clone, Copy, PartialEq, Eq, Structural)]
pub enum HypervisorError {
    /// Malformed caller input (zero-frame request, misaligned address, bad alignment).
    InvalidParam,
    /// Frame or contiguous-run exhaustion.
    NoMemory,
    /// Translation or query on an absent mapping.
    NotMapped,
    /// Attempted double-map of a leaf entry.
    AlreadyMapped,
}

pub type HypervisorResult<T> = Result<T, HypervisorError>;

} // verus!
