//! A root with the host's directories bound into it.

use vstd::prelude::*;
use crate::binds::{Binds, Bound};
use crate::command::{chroot_command, strs_of, CommandDescription};
use crate::environment::{Environment, EnvironmentView};
use crate::error::{resolution_outcome, ChrootError};
use crate::mount_point::{
    bind_request, bind_requests, mount_order, MountPoint, MountRequestView, UnmountRequest,
    MOUNT_COUNT,
};
use crate::mount_set::{
    at_or_after, cleanup_request_of, every_point, kept_up_to, lemma_pending_grows,
    lemma_pending_unfolds, next_pending, pending, requests_for, MountSet,
};
use crate::path::is_absolute;
use crate::sys;

verus! {

/// What a [`Chroot`] stands for.
pub ghost struct ChrootView {
    /// The five binds with their handles, and the root they were made in.
    pub binds: Binds,
    /// The binds that are attached.
    pub live: Set<MountPoint>,
    /// The environment settings for the commands to come.
    pub environment: EnvironmentView,
    /// The requests of the mount primitive that made the binds, in the
    /// order in which they were made.
    pub mounted_by: Seq<MountRequestView>,
    /// The requests made of the unmount primitive so far, in the order in
    /// which they were made.
    pub requested: Seq<UnmountRequest>,
}

impl ChrootView {
    /// The canonical path of the root.
    pub open spec fn path(self) -> Seq<char> {
        self.binds.root_path()
    }

    /// Where the bind of `point` is attached.
    pub open spec fn target(self, point: MountPoint) -> Seq<char> {
        point.target_path(self.path())
    }

    /// A root right after it was set up: each of the five binds was made by
    /// the request for its directory in this root, and they were made in
    /// mount order; all five are attached and none was asked to come off;
    /// the inherited environment is kept and no override is recorded.
    pub open spec fn is_fresh(self) -> bool {
        &&& self.binds.all_in_place()
        &&& self.mounted_by == bind_requests(self.path())
        &&& self.live == every_point()
        &&& self.environment == (EnvironmentView { clear: false, overrides: Seq::empty() })
        &&& self.requested == Seq::<UnmountRequest>::empty()
    }
}

/// How a root is left by an attempt to detach its binds with the flag
/// `lazy`, given what it was before. Path, handles and environment settings
/// stay.
///
/// On success nothing is attached any more, and a request was made for
/// every bind that was attached, the one mounted last first.
///
/// On failure the error names a bind that was attached and still is. Every
/// bind that was mounted after it has come off, every bind mounted before it
/// is as it was; requests were made for the binds that came off and then
/// for the one that did not, and for no other.
///
/// Every request carries the flag `lazy`.
pub open spec fn unmount_leaves(
    before: ChrootView,
    after: ChrootView,
    lazy: bool,
    result: Result<(), ChrootError>,
) -> bool {
    &&& after.binds == before.binds
    &&& after.mounted_by == before.mounted_by
    &&& after.environment == before.environment
    &&& match result {
        Ok(()) => {
            &&& after.live == Set::<MountPoint>::empty()
            &&& after.requested == before.requested + requests_for(pending(before.live), lazy)
        },
        Err(ChrootError::Unmount { step, .. }) => {
            &&& before.live.contains(step)
            &&& after.live == kept_up_to(before.live, step)
            &&& after.requested == before.requested + requests_for(
                pending(at_or_after(before.live, step.position() as int)),
                lazy,
            )
        },
        Err(_) => false,
    }
}

/// How a root is left by the cleanup, given what it was before. Path,
/// handles and environment settings stay, and nothing is attached that was
/// not attached before. A lazy request was made for every bind that was
/// attached, the one mounted last first, whether or not the requests before
/// it succeeded.
pub open spec fn cleanup_leaves(before: ChrootView, after: ChrootView) -> bool {
    &&& after.binds == before.binds
    &&& after.mounted_by == before.mounted_by
    &&& after.environment == before.environment
    &&& after.live.subset_of(before.live)
    &&& after.requested == before.requested + requests_for(pending(before.live), true)
}

/// Resolves `path` to its canonical form: absolute, with every symbolic link
/// followed. Fails with `PathResolution` where the path leads nowhere or
/// its canonical form is not valid Unicode.
pub fn resolve_root(path: &str) -> (r: Result<String, ChrootError>)
    ensures
        match r {
            Ok(root) => is_absolute(root@),
            Err(ChrootError::PathResolution { .. }) => true,
            Err(_) => false,
        },
{
    resolution_outcome(sys::canonicalize(path))
}

/// The place where a command can run as if it were another installation:
/// the root's path and the handles of the five binds, the state of each
/// bind, and the environment settings for the commands to come. For the
/// contracts it also keeps, as ghost data, the requests that were made of
/// the mount and unmount primitives.
pub struct Chroot {
    binds: Binds,
    mounts: MountSet,
    environment: Environment,
    mounted_by: Ghost<Seq<MountRequestView>>,
    requested: Ghost<Seq<UnmountRequest>>,
}

impl View for Chroot {
    type V = ChrootView;

    closed spec fn view(&self) -> ChrootView {
        ChrootView {
            binds: self.binds,
            live: self.mounts@,
            environment: self.environment@,
            mounted_by: self.mounted_by@,
            requested: self.requested@,
        }
    }
}

impl Chroot {
    /// Resolves `path` and binds the host's `/dev`, `/dev/pts`, `/proc`,
    /// `/run` and `/sys` into it, in this order.
    ///
    /// Fails with `PathResolution` if the path cannot be resolved, before
    /// anything is mounted, and with `Mount` at the first bind that fails.
    /// The binds made before the one that failed are not undone.
    pub fn new(path: &str) -> (r: Result<Chroot, ChrootError>)
        ensures
            match r {
                Ok(chroot) => chroot@.is_fresh() && is_absolute(chroot@.path()),
                Err(ChrootError::PathResolution { .. }) => true,
                Err(ChrootError::Mount { .. }) => true,
                Err(ChrootError::Unmount { .. }) => false,
            },
    {
        match resolve_root(path) {
            Ok(root) => Chroot::bind_into(root),
            Err(error) => Err(error),
        }
    }

    /// Binds the host's directories into the root at `root`, which is taken
    /// as it is: one bind after the other in mount order, each by the
    /// request for its directory in this root.
    ///
    /// Fails with `Mount` at the first bind that fails. The binds made
    /// before the one that failed are not undone.
    pub fn bind_into(root: String) -> (r: Result<Chroot, ChrootError>)
        ensures
            match r {
                Ok(chroot) => chroot@.path() == root@ && chroot@.is_fresh(),
                Err(error) => error is Mount,
            },
    {
        let mut made: Vec<Bound> = Vec::new();
        let ghost mut mounted_by: Seq<MountRequestView> = Seq::empty();
        proof {
            assert(mounted_by =~= bind_requests(root@).take(0));
        }
        loop
            invariant
                made@.len() <= MOUNT_COUNT,
                mounted_by == bind_requests(root@).take(made@.len() as int),
                forall|k: int|
                    0 <= k < made@.len() ==> (#[trigger] made@[k]).made_for(
                        mount_order()[k],
                        root@,
                    ),
            ensures
                made@.len() == MOUNT_COUNT,
                mounted_by == bind_requests(root@),
            decreases MOUNT_COUNT - made@.len(),
        {
            match MountPoint::from_index(made.len()) {
                None => {
                    assert(bind_requests(root@).take(made@.len() as int) =~= bind_requests(root@));
                    break ;
                },
                Some(point) => {
                    match Self::bind(&root, point) {
                        Ok(bound) => {
                            proof {
                                mounted_by = mounted_by.push(bound@.request);
                                assert(mounted_by =~= bind_requests(root@).take(
                                    made@.len() as int + 1,
                                ));
                            }
                            made.push(bound);
                        },
                        Err(error) => {
                            return Err(error);
                        },
                    }
                },
            }
        }
        Ok(
            Chroot {
                binds: Binds::assemble(root, made),
                mounts: MountSet::all_mounted(),
                environment: Environment::new(),
                mounted_by: Ghost(mounted_by),
                requested: Ghost(Seq::empty()),
            },
        )
    }

    /// Binds the host's directory for `point` to its place below `root`,
    /// by the request for `point` in that root.
    fn bind(root: &String, point: MountPoint) -> (r: Result<Bound, ChrootError>)
        ensures
            match r {
                Ok(bound) => bound.made_for(point, root@),
                Err(error) => error matches ChrootError::Mount { step, .. } && step == point,
            },
    {
        let request = point.request(root.as_str());
        let outcome = sys::mount(&request);
        Bound::from_outcome(point, request, outcome)
    }

    /// The canonical path of the root.
    pub fn path(&self) -> (path: &str)
        ensures
            path@ == self@.path(),
    {
        self.binds.root()
    }

    /// Where the bind of `point` is attached: the target of the request
    /// that made it.
    pub fn target(&self, point: MountPoint) -> (target: &str)
        ensures
            target@ == self@.target(point),
            target@ == self@.binds.at(point)@.request.target,
            self@.binds.at(point).made_for(point, self@.path()),
    {
        self.binds.get(point).request().target.as_str()
    }

    /// The states of the five binds.
    pub fn mounts(&self) -> (mounts: &MountSet)
        ensures
            mounts@ == self@.live,
    {
        &self.mounts
    }

    /// The environment settings for the commands to come.
    pub fn environment(&self) -> (environment: &Environment)
        ensures
            environment@ == self@.environment,
    {
        &self.environment
    }

    /// Records that commands in this root get `key` set to `value`.
    /// Nothing happens until a command is described; of several values for
    /// one key the last one counts.
    pub fn env(&mut self, key: &str, value: &str)
        ensures
            final(self)@.binds == old(self)@.binds,
            final(self)@.mounted_by == old(self)@.mounted_by,
            final(self)@.live == old(self)@.live,
            final(self)@.requested == old(self)@.requested,
            final(self)@.environment.clear == old(self)@.environment.clear,
            final(self)@.environment.overrides == old(self)@.environment.overrides.push(
                (key@, value@),
            ),
    {
        self.environment.set(key, value);
    }

    /// Decides whether commands in this root start without the inherited
    /// variables. The last decision counts.
    pub fn clear_envs(&mut self, clear: bool)
        ensures
            final(self)@.binds == old(self)@.binds,
            final(self)@.mounted_by == old(self)@.mounted_by,
            final(self)@.live == old(self)@.live,
            final(self)@.requested == old(self)@.requested,
            final(self)@.environment.clear == clear,
            final(self)@.environment.overrides == old(self)@.environment.overrides,
    {
        self.environment.set_clear(clear);
    }

    /// Describes the command that runs `cmd` with `args` inside this root.
    /// The binds are not touched, and nothing is started.
    pub fn command(&self, cmd: &str, args: &[&str]) -> (command: CommandDescription)
        ensures
            command@ == chroot_command(self@.path(), self@.environment, cmd@, strs_of(args@)),
    {
        CommandDescription::chroot(self.binds.root(), &self.environment, cmd, args)
    }

    /// Detaches the binds that are still attached, the one mounted last
    /// first, and stops at the first that cannot be detached. With `lazy`
    /// set a bind is detached at once and released when it is no longer in
    /// use.
    ///
    /// Succeeds without a call once nothing is attached.
    pub fn unmount(&mut self, lazy: bool) -> (r: Result<(), ChrootError>)
        ensures
            unmount_leaves(old(self)@, final(self)@, lazy, r),
            old(self)@.live == Set::<MountPoint>::empty() ==> r.is_ok(),
    {
        proof {
            lemma_pending_unfolds(Set::<MountPoint>::empty());
            assert(old(self)@.live.difference(self@.live) =~= Set::<MountPoint>::empty());
            assert(self@.requested =~= old(self)@.requested + requests_for(
                pending(Set::<MountPoint>::empty()),
                lazy,
            ));
        }
        loop
            invariant
                self@.binds == old(self)@.binds,
                self@.mounted_by == old(self)@.mounted_by,
                self@.environment == old(self)@.environment,
                self@.live.subset_of(old(self)@.live),
                forall|gone: MountPoint, kept: MountPoint|
                    old(self)@.live.contains(gone) && !self@.live.contains(gone)
                        && self@.live.contains(kept) ==> kept.position() < gone.position(),
                self@.requested == old(self)@.requested + requests_for(
                    pending(old(self)@.live.difference(self@.live)),
                    lazy,
                ),
            decreases pending(self@.live).len(),
        {
            match self.mounts.next_request(lazy) {
                None => {
                    assert(self@.live =~= Set::<MountPoint>::empty());
                    assert(old(self)@.live.difference(self@.live) =~= old(self)@.live);
                    return Ok(());
                },
                Some(request) => {
                    let ghost live = self@.live;
                    let ghost done = old(self)@.live.difference(live);
                    let outcome = self.request_unmount(request);
                    proof {
                        lemma_pending_unfolds(live);
                        lemma_pending_unfolds(live.remove(request.point));
                        lemma_pending_grows(done, request.point);
                        assert(requests_for(pending(done).push(request.point), lazy)
                            =~= requests_for(pending(done), lazy).push(request));
                    }
                    match self.mounts.record_unmount(request.point, outcome) {
                        Ok(()) => {
                            assert(old(self)@.live.difference(self@.live) =~= done.insert(
                                request.point,
                            ));
                        },
                        Err(error) => {
                            assert(self@.live =~= kept_up_to(old(self)@.live, request.point));
                            assert(at_or_after(
                                old(self)@.live,
                                request.point.position() as int,
                            ) =~= done.insert(request.point));
                            return Err(error);
                        },
                    }
                },
            }
        }
    }

    /// Makes `request` of the unmount primitive, on the handle of the bind
    /// that it names, and notes that it was made.
    fn request_unmount(&mut self, request: UnmountRequest) -> (outcome: Result<
        (),
        std::io::Error,
    >)
        ensures
            final(self)@.binds == old(self)@.binds,
            final(self)@.mounted_by == old(self)@.mounted_by,
            final(self)@.environment == old(self)@.environment,
            final(self)@.live == old(self)@.live,
            final(self)@.requested == old(self)@.requested.push(request),
        opens_invariants none
        no_unwind
    {
        let outcome = sys::unmount(self.binds.get(request.point), &request);
        self.requested = Ghost(self.requested@.push(request));
        outcome
    }

    /// Makes the cleanup's request for the bind at place `position` of the
    /// mount order, if that bind is attached, and lets a failure pass: the
    /// bind then stays as it was.
    fn detach_quietly(&mut self, position: usize)
        ensures
            final(self)@.binds == old(self)@.binds,
            final(self)@.mounted_by == old(self)@.mounted_by,
            final(self)@.environment == old(self)@.environment,
            match cleanup_request_of(old(self)@.live, position as int) {
                Some(request) => {
                    &&& final(self)@.requested == old(self)@.requested.push(request)
                    &&& (final(self)@.live == old(self)@.live || final(self)@.live == old(
                        self,
                    )@.live.remove(request.point))
                },
                None => {
                    &&& final(self)@.requested == old(self)@.requested
                    &&& final(self)@.live == old(self)@.live
                },
            },
        opens_invariants none
        no_unwind
    {
        match self.mounts.cleanup_request(position) {
            None => {},
            Some(request) => {
                let outcome = self.request_unmount(request);
                match self.mounts.record_unmount(request.point, outcome) {
                    Ok(()) => {},
                    Err(_) => {},
                }
            },
        }
    }

    /// Detaches lazily whatever is still attached, walking the mount order
    /// from its end to its start. A bind that cannot be detached is passed
    /// over and the rest is still tried.
    fn release_all(&mut self)
        ensures
            cleanup_leaves(old(self)@, final(self)@),
        opens_invariants none
        no_unwind
    {
        let mut position: usize = MOUNT_COUNT;
        proof {
            lemma_pending_unfolds(Set::<MountPoint>::empty());
            assert(at_or_after(self@.live, MOUNT_COUNT as int) =~= Set::<MountPoint>::empty());
            assert(self@.requested =~= self@.requested + requests_for(
                pending(Set::<MountPoint>::empty()),
                true,
            ));
        }
        while position > 0
            invariant
                position <= MOUNT_COUNT,
                self@.binds == old(self)@.binds,
                self@.mounted_by == old(self)@.mounted_by,
                self@.environment == old(self)@.environment,
                self@.live.subset_of(old(self)@.live),
                forall|point: MountPoint|
                    point.position() < position ==> self@.live.contains(point) == old(
                        self,
                    )@.live.contains(point),
                self@.requested == old(self)@.requested + requests_for(
                    pending(at_or_after(old(self)@.live, position as int)),
                    true,
                ),
            decreases position,
        {
            let ghost above = at_or_after(old(self)@.live, position as int);
            position -= 1;
            let ghost point = mount_order()[position as int];
            let ghost live = self@.live;
            self.detach_quietly(position);
            proof {
                assert(point.position() == position);
                if live.contains(point) {
                    lemma_pending_grows(above, point);
                    assert(at_or_after(old(self)@.live, position as int) =~= above.insert(point));
                    assert(requests_for(pending(above).push(point), true) =~= requests_for(
                        pending(above),
                        true,
                    ).push(UnmountRequest { point, lazy: true }));
                } else {
                    assert(at_or_after(old(self)@.live, position as int) =~= above);
                }
            }
        }
        proof {
            assert(at_or_after(old(self)@.live, 0) =~= old(self)@.live);
        }
    }
}

impl Drop for Chroot {
    /// Whatever is still attached when the root goes out of scope is
    /// detached lazily, in unmount order, without reporting failures.
    fn drop(&mut self)
        ensures
            cleanup_leaves(old(self)@, final(self)@),
        opens_invariants none
        no_unwind
    {
        self.release_all();
    }
}

/// Detaching is idempotent: once an attempt has succeeded, any further
/// attempt succeeds too, makes no request and changes nothing.
pub proof fn lemma_unmount_idempotent(
    before: ChrootView,
    between: ChrootView,
    after: ChrootView,
    first_lazy: bool,
    first: Result<(), ChrootError>,
    second_lazy: bool,
    second: Result<(), ChrootError>,
)
    requires
        unmount_leaves(before, between, first_lazy, first),
        first.is_ok(),
        unmount_leaves(between, after, second_lazy, second),
    ensures
        second.is_ok(),
        after == between,
{
    lemma_pending_unfolds(Set::<MountPoint>::empty());
    assert(after.requested =~= between.requested);
}

/// An attempt to detach only ever takes binds off: a bind that is off stays
/// off, and what is attached afterwards was attached before. Where nothing
/// was attached it succeeds, makes no request and changes nothing.
pub proof fn lemma_unmount_monotonic(
    before: ChrootView,
    after: ChrootView,
    lazy: bool,
    result: Result<(), ChrootError>,
)
    requires
        unmount_leaves(before, after, lazy, result),
    ensures
        after.live.subset_of(before.live),
        before.live == Set::<MountPoint>::empty() ==> result.is_ok() && after == before,
{
    if before.live == Set::<MountPoint>::empty() {
        lemma_pending_unfolds(Set::<MountPoint>::empty());
        assert(after.requested =~= before.requested);
    }
}

/// After a failed attempt the bind named by the error is the one that a
/// further attempt starts with.
pub proof fn lemma_unmount_resumes(
    before: ChrootView,
    after: ChrootView,
    lazy: bool,
    result: Result<(), ChrootError>,
)
    requires
        unmount_leaves(before, after, lazy, result),
        result.is_err(),
    ensures
        result.unwrap_err().failed_step() == next_pending(after.live),
{
}

/// From a root that was just set up, a successful attempt to detach makes
/// its five requests in exactly the reverse of the mount order, and the
/// cleanup makes the same five, all of them lazy.
pub proof fn lemma_requests_reverse_mounts(fresh: ChrootView, lazy: bool)
    requires
        fresh.is_fresh(),
    ensures
        forall|after: ChrootView| #[trigger]
            unmount_leaves(fresh, after, lazy, Ok(())) ==> after.requested == requests_for(
                mount_order().reverse(),
                lazy,
            ),
        forall|after: ChrootView| #[trigger]
            cleanup_leaves(fresh, after) ==> after.requested == requests_for(
                mount_order().reverse(),
                true,
            ),
{
    crate::mount_set::lemma_pending_of_all();
    assert forall|after: ChrootView| #[trigger]
        unmount_leaves(fresh, after, lazy, Ok(())) implies after.requested == requests_for(
        mount_order().reverse(),
        lazy,
    ) by {
        assert(after.requested =~= requests_for(mount_order().reverse(), lazy));
    }
    assert forall|after: ChrootView| #[trigger] cleanup_leaves(fresh, after) implies after.requested
        == requests_for(mount_order().reverse(), true) by {
        assert(after.requested =~= requests_for(mount_order().reverse(), true));
    }
}

/// The requests that take a root down mirror the requests that set it up:
/// after a successful attempt to detach, or after the cleanup, the binds
/// were asked to come off in exactly the reverse of the order in which they
/// were made, each of them once.
pub proof fn lemma_unmounts_mirror_mounts(fresh: ChrootView, after: ChrootView, lazy: bool)
    requires
        fresh.is_fresh(),
        unmount_leaves(fresh, after, lazy, Ok(())) || cleanup_leaves(fresh, after),
    ensures
        after.requested.len() == fresh.mounted_by.len(),
        forall|k: int|
            0 <= k < after.requested.len() ==> bind_request(
                (#[trigger] after.requested[k]).point,
                fresh.path(),
            ) == fresh.mounted_by[after.requested.len() - 1 - k],
{
    lemma_requests_reverse_mounts(fresh, lazy);
    let reversed = mount_order().reverse();
    assert(after.requested.len() == reversed.len());
    assert forall|k: int| 0 <= k < after.requested.len() implies bind_request(
        (#[trigger] after.requested[k]).point,
        fresh.path(),
    ) == fresh.mounted_by[after.requested.len() - 1 - k] by {
        assert(after.requested[k].point == reversed[k]);
        assert(reversed[k] == mount_order()[after.requested.len() - 1 - k]);
    }
}

} // verus!
