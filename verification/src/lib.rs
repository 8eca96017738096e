//! Planning and validation logic for splitting one audio recording into
//! equal-duration, tempo-aligned chunks: exact rational chunk timing, the
//! feasibility check, the zero-padded file-naming scheme, the duration
//! parser for probe output, and the in-place progress indicator.

use vstd::prelude::*;

pub mod driver;
pub mod duration;
pub mod namer;
pub mod plan;
pub mod progress;

verus! {

/// Errors of the splitting pipeline, per the fatal/advisory taxonomy:
/// a missing duration in the probe output, an unusable source path,
/// and a failed engine invocation are all fatal.
#[derive(Clone, Copy, Debug, PartialEq, Eq, Structural)]
pub enum SplitError {
    DurationNotFound,
    InvalidSourcePath,
    EngineInvocationFailure,
}

} // verus!
