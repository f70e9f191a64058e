//! The calls that leave this crate: the mount and unmount primitives and the
//! resolution of a path. Their contracts are taken on trust.

use vstd::prelude::*;
use sys_mount::Unmount;
use crate::binds::Bound;
use crate::mount_point::{MountRequest, UnmountRequest};
use crate::path::is_absolute;

verus! {

/// The handle that `sys_mount` gives for a mounted file system. Nothing is
/// known of what it holds.
#[verifier::external_type_specification]
#[verifier::external_body]
pub struct ExMount(sys_mount::Mount);

/// The error of an operating system call. Nothing is known of what it holds.
#[verifier::external_type_specification]
#[verifier::external_body]
pub struct ExIoError(std::io::Error);

/// Calls `sys_mount::MountBuilder::mount` with the source, the target and
/// the file system type of the request and, if the request asks for a bind,
/// the flag `MountFlags::BIND`, otherwise no flag. Whether the mount succeeds
/// is the operating system's decision, so nothing is claimed of the result.
#[verifier::external_body]
pub(crate) fn mount(request: &MountRequest) -> (r: Result<sys_mount::Mount, std::io::Error>) {
    let flags = if request.bind {
        sys_mount::MountFlags::BIND
    } else {
        sys_mount::MountFlags::empty()
    };
    sys_mount::Mount::builder().flags(flags).fstype(request.fstype.as_str()).mount(
        request.source.as_str(),
        request.target.as_str(),
    )
}

/// Calls `sys_mount::Unmount::unmount` on the handle of the bind, with the
/// flag `UnmountFlags::DETACH` if the request is lazy and with no flag
/// otherwise. The bind has to be the one that the request names. Whether the
/// unmount succeeds is the operating system's decision, so nothing is claimed
/// of the result; the call itself returns in every case.
#[verifier::external_body]
pub(crate) fn unmount(bound: &Bound, request: &UnmountRequest) -> (r: Result<(), std::io::Error>)
    requires
        bound@.point == request.point,
    opens_invariants none
    no_unwind
{
    let flags = if request.lazy {
        sys_mount::UnmountFlags::DETACH
    } else {
        sys_mount::UnmountFlags::empty()
    };
    bound.handle.unmount(flags)
}

/// Calls `std::path::Path::canonicalize` and hands the path back as a
/// string: `Ok(None)` stands for a resolved path that is not valid Unicode.
/// The resolved path depends on the file system; what is claimed is that it
/// is absolute.
#[verifier::external_body]
pub(crate) fn canonicalize(path: &str) -> (r: Result<Option<String>, std::io::Error>)
    ensures
        r matches Ok(Some(resolved)) ==> is_absolute(resolved@),
{
    match std::path::Path::new(path).canonicalize() {
        Ok(resolved) => Ok(resolved.into_os_string().into_string().ok()),
        Err(error) => Err(error),
    }
}

} // verus!
