//! Bind-mount management for running commands inside another root file system.
//!
//! A [`Chroot`] binds the host's `/dev`, `/dev/pts`, `/proc`, `/run` and `/sys`
//! into a target root, describes commands that run inside that root, and
//! detaches the binds again in reverse order.

pub mod path;
pub mod mount_point;
pub mod error;
mod sys;
pub mod mount_set;
pub mod binds;
pub mod environment;
pub mod command;
pub mod chroot;

pub use binds::{Binds, Bound};
pub use chroot::{resolve_root, Chroot};
pub use command::{CommandDescription, Stream};
pub use environment::Environment;
pub use error::ChrootError;
pub use mount_point::{MountPoint, MountRequest, UnmountRequest};
pub use mount_set::{MountSet, MountState};
