//! What can go wrong, and how the outcome of each outside call is reported.

use vstd::prelude::*;
use crate::mount_point::MountPoint;

verus! {

/// Why a root could not be set up or torn down.
#[derive(Debug)]
pub enum ChrootError {
    /// The root could not be resolved to a canonical path. Without a reason
    /// from the operating system, the resolved path was not valid Unicode.
    PathResolution { reason: Option<std::io::Error> },
    /// Binding the host directory `step` into the root failed.
    Mount { step: MountPoint, cause: std::io::Error },
    /// Detaching the bind of `step` failed.
    Unmount { step: MountPoint, cause: std::io::Error },
}

impl ChrootError {
    /// The bind at which a mount or an unmount failed.
    pub open spec fn failed_step(self) -> Option<MountPoint> {
        match self {
            ChrootError::PathResolution { .. } => None,
            ChrootError::Mount { step, .. } => Some(step),
            ChrootError::Unmount { step, .. } => Some(step),
        }
    }

    /// The bind at which a mount or an unmount failed.
    pub fn step(&self) -> (r: Option<MountPoint>)
        ensures
            r == self.failed_step(),
    {
        match self {
            ChrootError::PathResolution { .. } => None,
            ChrootError::Mount { step, .. } => Some(*step),
            ChrootError::Unmount { step, .. } => Some(*step),
        }
    }
}

/// What the resolution of a root path amounts to: the resolved path, or a
/// `PathResolution` error that keeps the cause.
pub fn resolution_outcome(outcome: Result<Option<String>, std::io::Error>) -> (r: Result<
    String,
    ChrootError,
>)
    ensures
        match outcome {
            Ok(Some(resolved)) => r == Ok::<String, ChrootError>(resolved),
            Ok(None) => r == Err::<String, ChrootError>(
                ChrootError::PathResolution { reason: None },
            ),
            Err(cause) => r == Err::<String, ChrootError>(
                ChrootError::PathResolution { reason: Some(cause) },
            ),
        },
{
    match outcome {
        Ok(Some(resolved)) => Ok(resolved),
        Ok(None) => Err(ChrootError::PathResolution { reason: None }),
        Err(cause) => Err(ChrootError::PathResolution { reason: Some(cause) }),
    }
}

/// What the attempt to bind `step` amounts to: the handle, or a `Mount`
/// error that names the step and keeps the cause.
pub fn mount_outcome(step: MountPoint, outcome: Result<sys_mount::Mount, std::io::Error>) -> (r:
    Result<sys_mount::Mount, ChrootError>)
    ensures
        match outcome {
            Ok(handle) => r == Ok::<sys_mount::Mount, ChrootError>(handle),
            Err(cause) => r == Err::<sys_mount::Mount, ChrootError>(
                ChrootError::Mount { step, cause },
            ),
        },
{
    match outcome {
        Ok(handle) => Ok(handle),
        Err(cause) => Err(ChrootError::Mount { step, cause }),
    }
}

/// What the outcome of the attempt to detach `step` amounts to: success, or
/// an `Unmount` error that names the step and keeps the cause.
pub open spec fn unmount_outcome_of(step: MountPoint, outcome: Result<(), std::io::Error>)
    -> Result<(), ChrootError> {
    match outcome {
        Ok(()) => Ok(()),
        Err(cause) => Err(ChrootError::Unmount { step, cause }),
    }
}

/// What the attempt to detach `step` amounts to: success, or an `Unmount`
/// error that names the step and keeps the cause.
pub fn unmount_outcome(step: MountPoint, outcome: Result<(), std::io::Error>) -> (r: Result<
    (),
    ChrootError,
>)
    ensures
        r == unmount_outcome_of(step, outcome),
    opens_invariants none
    no_unwind
{
    match outcome {
        Ok(()) => Ok(()),
        Err(cause) => Err(ChrootError::Unmount { step, cause }),
    }
}

} // verus!
