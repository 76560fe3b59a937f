//! The failure taxonomy of one frame. Every failure is fatal for the
//! current tick; the driver decides what happens on the next one.

use vstd::prelude::*;

verus! {

/// Why a tick's processing stopped.
///
/// - `PreconditionViolation`: the scene computation was handed an empty
///   trajectory, or a state left the representable coordinate range (the
///   fixed-point counterpart of a non-finite value).
/// - `SurfaceUnavailable`: the drawing surface could not be acquired or
///   has become invalid.
/// - `RenderIoFailure`: drawing, or the explicit finalize/flush of the
///   surface, failed. A flush failure is surfaced here, never conflated
///   with success.
#[derive(Clone, Copy, Debug, PartialEq, Eq, Structural)]
pub enum FrameError {
    PreconditionViolation,
    SurfaceUnavailable,
    RenderIoFailure,
}

impl FrameError {
    /// A fixed human-readable description of the failure.
    pub fn message(&self) -> (s: &'static str)
        ensures
            *self == FrameError::PreconditionViolation ==> s@ == "precondition violation"@,
            *self == FrameError::SurfaceUnavailable ==> s@ == "drawing surface unavailable"@,
            *self == FrameError::RenderIoFailure ==> s@ == "render or flush failure"@,
    {
        match self {
            FrameError::PreconditionViolation => "precondition violation",
            FrameError::SurfaceUnavailable => "drawing surface unavailable",
            FrameError::RenderIoFailure => "render or flush failure",
        }
    }
}

} // verus!
