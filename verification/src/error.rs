//! The ways in which the tool's operations fail.

use vstd::prelude::*;

verus! {

/// Why an operation of the library did not succeed.
#[derive(Clone, Copy, Debug, PartialEq, Eq, Structural)]
pub enum ControlError {
    /// The snapshot does not tell who owns the invoking process: the process
    /// is missing from it, or its owner could not be read.
    SnapshotFailure,
    /// No handle with the right to suspend and resume could be had for the
    /// target process.
    HandleAcquisitionFailure,
    /// The handle was had, but the suspend or resume call reported failure.
    PrimitiveFailure,
}

} // verus!
