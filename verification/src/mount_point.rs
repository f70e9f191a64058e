//! The five host directories that are bound into a root, and their order.

use vstd::prelude::*;
use crate::path::{is_absolute, join, joined, lemma_joined_nested};

verus! {

/// One of the host directories that a root needs bound into it.
#[derive(Clone, Copy, Debug, PartialEq, Eq, Structural, Hash)]
pub enum MountPoint {
    /// Device nodes.
    Dev,
    /// Pseudo-terminals, below the device nodes.
    Pts,
    /// Process information.
    Proc,
    /// Runtime state.
    Run,
    /// The kernel's interface.
    Sys,
}

/// How many directories are bound.
pub const MOUNT_COUNT: usize = 5;

/// The file system type that a bind is mounted with: none, the directory
/// keeps its own.
pub const BIND_FSTYPE: &'static str = "none";

/// What the mount primitive is asked for.
#[derive(Debug, PartialEq, Eq)]
pub struct MountRequest {
    /// The directory to mount.
    pub source: String,
    /// The directory to mount it on.
    pub target: String,
    /// The type of the file system.
    pub fstype: String,
    /// Whether to bind the source to the target, so that one directory is
    /// seen in two places.
    pub bind: bool,
}

/// What a [`MountRequest`] stands for.
pub ghost struct MountRequestView {
    pub source: Seq<char>,
    pub target: Seq<char>,
    pub fstype: Seq<char>,
    pub bind: bool,
}

impl View for MountRequest {
    type V = MountRequestView;

    open spec fn view(&self) -> MountRequestView {
        MountRequestView {
            source: self.source@,
            target: self.target@,
            fstype: self.fstype@,
            bind: self.bind,
        }
    }
}

/// The request that binds the host's directory for `point` into the root at
/// `root`.
pub open spec fn bind_request(point: MountPoint, root: Seq<char>) -> MountRequestView {
    MountRequestView {
        source: point.source_path(),
        target: point.target_path(root),
        fstype: BIND_FSTYPE@,
        bind: true,
    }
}

/// The requests that set up the root at `root`: one for every directory, in
/// mount order.
pub open spec fn bind_requests(root: Seq<char>) -> Seq<MountRequestView> {
    mount_order().map_values(|point: MountPoint| bind_request(point, root))
}

/// What the unmount primitive is asked for: the bind to detach, and whether
/// to detach it lazily, that is at once, with its resources released when it
/// is no longer in use.
#[derive(Clone, Copy, Debug, PartialEq, Eq, Structural)]
pub struct UnmountRequest {
    /// The directory whose bind is to come off.
    pub point: MountPoint,
    /// Whether to detach lazily.
    pub lazy: bool,
}

/// The order in which the directories are bound: `/dev` before `/dev/pts`,
/// which lies inside it, then the three that depend on nothing.
pub open spec fn mount_order() -> Seq<MountPoint> {
    seq![MountPoint::Dev, MountPoint::Pts, MountPoint::Proc, MountPoint::Run, MountPoint::Sys]
}

/// The order in which the binds are detached.
pub open spec fn unmount_order() -> Seq<MountPoint> {
    seq![MountPoint::Sys, MountPoint::Run, MountPoint::Proc, MountPoint::Pts, MountPoint::Dev]
}

impl MountPoint {
    /// The place of this directory in the mount order, counted from zero.
    pub open spec fn position(self) -> nat {
        match self {
            MountPoint::Dev => 0,
            MountPoint::Pts => 1,
            MountPoint::Proc => 2,
            MountPoint::Run => 3,
            MountPoint::Sys => 4,
        }
    }

    /// The directory of the host that is bound.
    pub open spec fn source_path(self) -> Seq<char> {
        match self {
            MountPoint::Dev => "/dev"@,
            MountPoint::Pts => "/dev/pts"@,
            MountPoint::Proc => "/proc"@,
            MountPoint::Run => "/run"@,
            MountPoint::Sys => "/sys"@,
        }
    }

    /// The directory below the root that the host's directory is bound to.
    pub open spec fn relative_path(self) -> Seq<char> {
        match self {
            MountPoint::Dev => "dev"@,
            MountPoint::Pts => "dev/pts"@,
            MountPoint::Proc => "proc"@,
            MountPoint::Run => "run"@,
            MountPoint::Sys => "sys"@,
        }
    }

    /// Where the bind is attached in a root at `root`.
    pub open spec fn target_path(self, root: Seq<char>) -> Seq<char> {
        joined(root, self.relative_path())
    }

    /// The place of this directory in the mount order, counted from zero.
    pub fn index(self) -> (i: usize)
        ensures
            i == self.position(),
            i < MOUNT_COUNT,
    {
        match self {
            MountPoint::Dev => 0,
            MountPoint::Pts => 1,
            MountPoint::Proc => 2,
            MountPoint::Run => 3,
            MountPoint::Sys => 4,
        }
    }

    /// The directory at place `index` of the mount order, if there is one.
    pub fn from_index(index: usize) -> (r: Option<MountPoint>)
        ensures
            index < MOUNT_COUNT ==> r == Some(mount_order()[index as int]),
            index >= MOUNT_COUNT ==> r.is_none(),
        opens_invariants none
        no_unwind
    {
        if index == 0 {
            Some(MountPoint::Dev)
        } else if index == 1 {
            Some(MountPoint::Pts)
        } else if index == 2 {
            Some(MountPoint::Proc)
        } else if index == 3 {
            Some(MountPoint::Run)
        } else if index == 4 {
            Some(MountPoint::Sys)
        } else {
            None
        }
    }

    /// The directory of the host that is bound.
    pub fn source(self) -> (s: &'static str)
        ensures
            s@ == self.source_path(),
    {
        match self {
            MountPoint::Dev => "/dev",
            MountPoint::Pts => "/dev/pts",
            MountPoint::Proc => "/proc",
            MountPoint::Run => "/run",
            MountPoint::Sys => "/sys",
        }
    }

    /// The directory below the root that the host's directory is bound to.
    pub fn name(self) -> (s: &'static str)
        ensures
            s@ == self.relative_path(),
    {
        match self {
            MountPoint::Dev => "dev",
            MountPoint::Pts => "dev/pts",
            MountPoint::Proc => "proc",
            MountPoint::Run => "run",
            MountPoint::Sys => "sys",
        }
    }

    /// Where the bind is attached in a root at `root`.
    pub fn target(self, root: &str) -> (t: String)
        ensures
            t@ == self.target_path(root@),
    {
        join(root, self.name())
    }

    /// The request that binds the host's directory into the root at `root`.
    pub fn request(self, root: &str) -> (request: MountRequest)
        ensures
            request@ == bind_request(self, root@),
    {
        MountRequest {
            source: self.source().to_owned(),
            target: self.target(root),
            fstype: BIND_FSTYPE.to_owned(),
            bind: true,
        }
    }
}

/// The directories in the order in which they are bound.
pub fn mount_sequence() -> (order: Vec<MountPoint>)
    ensures
        order@ == mount_order(),
{
    let mut order: Vec<MountPoint> = Vec::new();
    order.push(MountPoint::Dev);
    order.push(MountPoint::Pts);
    order.push(MountPoint::Proc);
    order.push(MountPoint::Run);
    order.push(MountPoint::Sys);
    order
}

/// The directories in the order in which their binds are detached.
pub fn unmount_sequence() -> (order: Vec<MountPoint>)
    ensures
        order@ == unmount_order(),
{
    let mut order: Vec<MountPoint> = Vec::new();
    order.push(MountPoint::Sys);
    order.push(MountPoint::Run);
    order.push(MountPoint::Proc);
    order.push(MountPoint::Pts);
    order.push(MountPoint::Dev);
    order
}

/// Every directory stands in the mount order once, at its own position.
pub proof fn lemma_mount_order_complete(point: MountPoint)
    ensures
        mount_order().len() == MOUNT_COUNT,
        point.position() < MOUNT_COUNT,
        mount_order()[point.position() as int] == point,
        forall|i: int| 0 <= i < mount_order().len() && mount_order()[i] == point
            ==> i == point.position(),
{
}

/// The binds are detached in exactly the reverse of the order in which
/// they were made.
pub proof fn lemma_unmount_order_is_reverse()
    ensures
        unmount_order() == mount_order().reverse(),
        forall|i: int| 0 <= i < MOUNT_COUNT
            ==> #[trigger] unmount_order()[i].position() == MOUNT_COUNT - 1 - i,
{
    assert(unmount_order() =~= mount_order().reverse());
}

/// The pseudo-terminals are bound after the device nodes and inside them, and
/// detached before them.
pub proof fn lemma_pts_inside_dev(root: Seq<char>)
    ensures
        MountPoint::Dev.position() < MountPoint::Pts.position(),
        MountPoint::Pts.target_path(root) == joined(MountPoint::Dev.target_path(root), "pts"@),
{
    reveal_strlit("dev");
    reveal_strlit("pts");
    reveal_strlit("dev/pts");
    assert(joined("dev"@, "pts"@) =~= "dev/pts"@);
    lemma_joined_nested(root, "dev"@, "pts"@);
}

/// No two binds are attached at the same place.
pub proof fn lemma_targets_distinct(root: Seq<char>, first: MountPoint, second: MountPoint)
    requires
        first != second,
    ensures
        first.target_path(root) != second.target_path(root),
{
    reveal_strlit("dev");
    reveal_strlit("dev/pts");
    reveal_strlit("proc");
    reveal_strlit("run");
    reveal_strlit("sys");
    let prefix = if crate::path::needs_separator(root) {
        root + seq![crate::path::separator()]
    } else {
        root
    };
    let a = first.relative_path();
    let b = second.relative_path();
    assert(first.target_path(root) =~= prefix + a);
    assert(second.target_path(root) =~= prefix + b);
    assert((prefix + a).len() == prefix.len() + a.len());
    assert((prefix + b).len() == prefix.len() + b.len());
    if a.len() == b.len() {
        assert((prefix + a)[prefix.len() as int] == a[0]);
        assert((prefix + b)[prefix.len() as int] == b[0]);
        assert(a[0] != b[0]);
    }
}

/// Every host directory is named by an absolute path, and every target lies
/// below the root.
pub proof fn lemma_paths(point: MountPoint, root: Seq<char>)
    ensures
        is_absolute(point.source_path()),
        !is_absolute(point.relative_path()),
        point.source_path() == seq!['/'] + point.relative_path(),
        is_absolute(root) ==> is_absolute(point.target_path(root)),
{
    reveal_strlit("/dev");
    reveal_strlit("/dev/pts");
    reveal_strlit("/proc");
    reveal_strlit("/run");
    reveal_strlit("/sys");
    reveal_strlit("dev");
    reveal_strlit("dev/pts");
    reveal_strlit("proc");
    reveal_strlit("run");
    reveal_strlit("sys");
    assert(point.source_path() =~= seq!['/'] + point.relative_path());
}

} // verus!
