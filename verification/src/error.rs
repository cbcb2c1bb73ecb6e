use vstd::prelude::*;

verus! {

/// Failure kinds for buffer construction and the probe/grow query protocol.
///
/// Every failure is surfaced as its own variant so a caller can tell a
/// kernel rejection apart from a local sizing mistake; none is downgraded
/// to a generic error.
#[derive(Clone, Copy, Debug, PartialEq, Eq, Structural)]
pub enum FamError {
    /// The requested byte size does not fit in the addressable range.
    Overflow,
    /// An allocation could not be satisfied.
    AllocationFailure,
    /// The underlying kernel call reported failure; carries the raw
    /// negative return code it came with.
    TransportFailure(i32),
    /// The size reported after the single grow step disagrees with the
    /// buffer that was supplied, or shrank between the two calls.
    SizeInconsistent,
    /// A declared size or chain offset falls outside the buffer actually
    /// available.
    BoundsViolation,
}

} // verus!
