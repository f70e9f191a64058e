//! The binds of one root: every handle together with the directory it
//! stands for and the request that made it.

use vstd::prelude::*;
use crate::error::{mount_outcome, ChrootError};
use crate::mount_point::{bind_request, mount_order, MountPoint, MountRequest, MountRequestView};

verus! {

/// What a [`Bound`] stands for: the directory that was bound and the
/// request that bound it.
pub ghost struct BoundView {
    pub point: MountPoint,
    pub request: MountRequestView,
}

/// One bind: the handle that the mount primitive gave, tagged with the
/// directory it stands for and with the request that made it.
#[derive(Debug)]
pub struct Bound {
    pub(crate) point: MountPoint,
    pub(crate) request: MountRequest,
    pub(crate) handle: sys_mount::Mount,
}

impl View for Bound {
    type V = BoundView;

    closed spec fn view(&self) -> BoundView {
        BoundView { point: self.point, request: self.request@ }
    }
}

impl Bound {
    /// The handle as its own value.
    pub closed spec fn handle_value(&self) -> sys_mount::Mount {
        self.handle
    }

    /// This is the bind of `point` in the root at `root`: it carries that
    /// tag and was made by the request for it.
    pub open spec fn made_for(&self, point: MountPoint, root: Seq<char>) -> bool {
        self@ == (BoundView { point, request: bind_request(point, root) })
    }

    /// Tags the handle that `request` gave with the directory it stands for.
    pub fn new(point: MountPoint, request: MountRequest, handle: sys_mount::Mount) -> (bound: Bound)
        ensures
            bound@ == (BoundView { point, request: request@ }),
            bound.handle_value() == handle,
    {
        Bound { point, request, handle }
    }

    /// What the attempt to bind `point` by `request` amounts to: the bind,
    /// tagged with both, or a `Mount` error that names `point` and keeps the
    /// cause.
    pub fn from_outcome(
        point: MountPoint,
        request: MountRequest,
        outcome: Result<sys_mount::Mount, std::io::Error>,
    ) -> (r: Result<Bound, ChrootError>)
        ensures
            match outcome {
                Ok(handle) => r matches Ok(bound) && bound@ == (BoundView {
                    point,
                    request: request@,
                }) && bound.handle_value() == handle,
                Err(cause) => r matches Err(ChrootError::Mount { step, cause: kept }) && step
                    == point && kept == cause,
            },
    {
        match mount_outcome(point, outcome) {
            Ok(handle) => Ok(Bound::new(point, request, handle)),
            Err(error) => Err(error),
        }
    }

    /// The directory that was bound.
    pub fn point(&self) -> (point: MountPoint)
        ensures
            point == self@.point,
    {
        self.point
    }

    /// The request that made the bind.
    pub fn request(&self) -> (request: &MountRequest)
        ensures
            request@ == self@.request,
    {
        &self.request
    }
}

/// The five binds of one root, each in its own place, and the root they were
/// made in.
#[derive(Debug)]
pub struct Binds {
    root: String,
    dev: Bound,
    pts: Bound,
    proc: Bound,
    run: Bound,
    sys: Bound,
}

impl Binds {
    /// Every place holds the bind of its own directory, made by the request
    /// for that directory in this root.
    #[verifier::type_invariant]
    spec fn in_place(&self) -> bool {
        &&& self.dev.made_for(MountPoint::Dev, self.root@)
        &&& self.pts.made_for(MountPoint::Pts, self.root@)
        &&& self.proc.made_for(MountPoint::Proc, self.root@)
        &&& self.run.made_for(MountPoint::Run, self.root@)
        &&& self.sys.made_for(MountPoint::Sys, self.root@)
    }

    /// The path of the root.
    pub closed spec fn root_path(&self) -> Seq<char> {
        self.root@
    }

    /// The bind in the place of `point`.
    pub closed spec fn at(&self, point: MountPoint) -> Bound {
        match point {
            MountPoint::Dev => self.dev,
            MountPoint::Pts => self.pts,
            MountPoint::Proc => self.proc,
            MountPoint::Run => self.run,
            MountPoint::Sys => self.sys,
        }
    }

    /// Every place holds the bind of its own directory, made by the request
    /// for that directory in this root.
    pub open spec fn all_in_place(&self) -> bool {
        forall|point: MountPoint| (#[trigger] self.at(point)).made_for(point, self.root_path())
    }

    /// Puts the binds of a root in their places. They come in the order in
    /// which they were made, which is the mount order.
    pub(crate) fn assemble(root: String, made: Vec<Bound>) -> (binds: Binds)
        requires
            made@.len() == mount_order().len(),
            forall|k: int|
                0 <= k < made@.len() ==> (#[trigger] made@[k]).made_for(mount_order()[k], root@),
        ensures
            binds.root_path() == root@,
            binds.all_in_place(),
            forall|point: MountPoint| #[trigger] binds.at(point) == made@[point.position() as int],
    {
        let mut made = made;
        let ghost all = made@;
        let sys = made.pop().unwrap();
        let run = made.pop().unwrap();
        let proc = made.pop().unwrap();
        let pts = made.pop().unwrap();
        let dev = made.pop().unwrap();
        assert(dev == all[0] && pts == all[1] && proc == all[2] && run == all[3] && sys == all[4]);
        let binds = Binds { root, dev, pts, proc, run, sys };
        assert forall|point: MountPoint| #[trigger]
            binds.at(point) == all[point.position() as int] by {}
        binds
    }

    /// The path of the root.
    pub fn root(&self) -> (root: &str)
        ensures
            root@ == self.root_path(),
    {
        self.root.as_str()
    }

    /// The bind in the place of `point`. It is the bind of `point`.
    pub fn get(&self, point: MountPoint) -> (bound: &Bound)
        ensures
            *bound == self.at(point),
            bound.made_for(point, self.root_path()),
        opens_invariants none
        no_unwind
    {
        proof {
            use_type_invariant(self);
        }
        match point {
            MountPoint::Dev => &self.dev,
            MountPoint::Pts => &self.pts,
            MountPoint::Proc => &self.proc,
            MountPoint::Run => &self.run,
            MountPoint::Sys => &self.sys,
        }
    }
}

} // verus!
