//! The loader's error taxonomy. Every failure is terminal for the boot
//! process: the caller halts rather than retrying, except for the single
//! bounded retry allowed on `HandoffRejected`.

use vstd::prelude::*;

verus! {

/// Every way the load-and-handoff pipeline can fail.
#[derive(Clone, Copy, Debug, PartialEq, Eq, Structural)]
pub enum LoadError {
    /// The image file does not exist on the boot volume.
    NotFound,
    /// The underlying read was short or reported an error.
    IOError,
    /// Scratch memory for the raw image could not be obtained.
    AllocationFailure,
    /// The buffer is not a recognizable 64-bit image: too short, wrong
    /// magic, or corrupt headers.
    MalformedImage,
    /// A loadable region's file range lies outside the raw image buffer.
    CopyOutOfBounds,
    /// The platform could not grant the exact physical range of the load
    /// span.
    AddressUnavailable,
    /// Retiring boot services was reported stale twice.
    HandoffRejected,
}

} // verus!
