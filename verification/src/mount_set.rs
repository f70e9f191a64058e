//! Which of the five binds are attached, and in what order they come off.

use vstd::prelude::*;
use crate::error::{unmount_outcome, unmount_outcome_of, ChrootError};
use crate::mount_point::{mount_order, unmount_order, MountPoint, UnmountRequest};

verus! {

/// The state of one bind. A bind starts out mounted and never comes back
/// once it is unmounted.
#[derive(Clone, Copy, Debug, PartialEq, Eq, Structural)]
pub enum MountState {
    Mounted,
    Unmounted,
}

/// All five binds.
pub open spec fn every_point() -> Set<MountPoint> {
    Set::new(|point: MountPoint| true)
}

/// The binds that have to come off while `live` are attached, in the order
/// in which they come off: the unmount order without the binds that are
/// already detached.
pub open spec fn pending(live: Set<MountPoint>) -> Seq<MountPoint> {
    unmount_order().filter(attached_in(live))
}

/// The test whether a bind is among `live`.
pub open spec fn attached_in(live: Set<MountPoint>) -> spec_fn(MountPoint) -> bool {
    |point: MountPoint| live.contains(point)
}

/// The bind that comes off next while `live` are attached: the attached one
/// that was mounted last.
pub open spec fn next_pending(live: Set<MountPoint>) -> Option<MountPoint> {
    if live.contains(MountPoint::Sys) {
        Some(MountPoint::Sys)
    } else if live.contains(MountPoint::Run) {
        Some(MountPoint::Run)
    } else if live.contains(MountPoint::Proc) {
        Some(MountPoint::Proc)
    } else if live.contains(MountPoint::Pts) {
        Some(MountPoint::Pts)
    } else if live.contains(MountPoint::Dev) {
        Some(MountPoint::Dev)
    } else {
        None
    }
}

/// The request that an attempt to detach makes next while `live` are
/// attached: for the bind that comes off next, with the flag that the
/// attempt was given.
pub open spec fn next_request_of(live: Set<MountPoint>, lazy: bool) -> Option<UnmountRequest> {
    match next_pending(live) {
        Some(point) => Some(UnmountRequest { point, lazy }),
        None => None,
    }
}

/// The request that the cleanup makes for the bind at place `position` of
/// the mount order while `live` are attached: a lazy one if that bind is
/// attached, none if it is not or there is no such place.
pub open spec fn cleanup_request_of(live: Set<MountPoint>, position: int) -> Option<
    UnmountRequest,
> {
    if 0 <= position < mount_order().len() && live.contains(mount_order()[position]) {
        Some(UnmountRequest { point: mount_order()[position], lazy: true })
    } else {
        None
    }
}

/// The requests that detach `points` one after the other, each with the
/// flag `lazy`.
pub open spec fn requests_for(points: Seq<MountPoint>, lazy: bool) -> Seq<UnmountRequest> {
    points.map_values(|point: MountPoint| UnmountRequest { point, lazy })
}

/// Those of `live` that stand at place `position` of the mount order or
/// after it.
pub open spec fn at_or_after(live: Set<MountPoint>, position: int) -> Set<MountPoint> {
    live.filter(|point: MountPoint| point.position() >= position)
}

/// What is left of `live` once every bind that was mounted after `step` has
/// come off.
pub open spec fn kept_up_to(live: Set<MountPoint>, step: MountPoint) -> Set<MountPoint> {
    live.filter(|point: MountPoint| point.position() <= step.position())
}

/// The states of the five binds of one root.
#[derive(Clone, Copy, Debug, PartialEq, Eq)]
pub struct MountSet {
    dev: bool,
    pts: bool,
    proc: bool,
    run: bool,
    sys: bool,
}

impl View for MountSet {
    type V = Set<MountPoint>;

    /// The binds that are attached.
    closed spec fn view(&self) -> Set<MountPoint> {
        Set::new(
            |point: MountPoint|
                match point {
                    MountPoint::Dev => self.dev,
                    MountPoint::Pts => self.pts,
                    MountPoint::Proc => self.proc,
                    MountPoint::Run => self.run,
                    MountPoint::Sys => self.sys,
                },
        )
    }
}

impl MountSet {
    /// The state right after a root was set up: all five attached.
    pub fn all_mounted() -> (set: MountSet)
        ensures
            set@ == every_point(),
    {
        let set = MountSet { dev: true, pts: true, proc: true, run: true, sys: true };
        assert(set@ =~= every_point());
        set
    }

    /// Whether the bind of `point` is attached.
    pub fn is_mounted(&self, point: MountPoint) -> (r: bool)
        ensures
            r == self@.contains(point),
        opens_invariants none
        no_unwind
    {
        match point {
            MountPoint::Dev => self.dev,
            MountPoint::Pts => self.pts,
            MountPoint::Proc => self.proc,
            MountPoint::Run => self.run,
            MountPoint::Sys => self.sys,
        }
    }

    /// The state of the bind of `point`.
    pub fn state(&self, point: MountPoint) -> (r: MountState)
        ensures
            r == if self@.contains(point) {
                MountState::Mounted
            } else {
                MountState::Unmounted
            },
    {
        if self.is_mounted(point) {
            MountState::Mounted
        } else {
            MountState::Unmounted
        }
    }

    /// Whether every bind has come off.
    pub fn all_unmounted(&self) -> (r: bool)
        ensures
            r == (self@ == Set::<MountPoint>::empty()),
    {
        let r = !self.dev && !self.pts && !self.proc && !self.run && !self.sys;
        proof {
            if r {
                assert(self@ =~= Set::<MountPoint>::empty());
            } else {
                assert(self@.contains(MountPoint::Dev) || self@.contains(MountPoint::Pts)
                    || self@.contains(MountPoint::Proc) || self@.contains(MountPoint::Run)
                    || self@.contains(MountPoint::Sys));
            }
        }
        r
    }

    /// How many binds are attached.
    pub fn live_count(&self) -> (n: usize)
        ensures
            n == pending(self@).len(),
            n <= 5,
    {
        let order = self.pending_unmounts();
        order.len()
    }

    /// The bind that has to come off next: the attached one that was mounted
    /// last. `None` once nothing is attached.
    pub fn next_unmount(&self) -> (r: Option<MountPoint>)
        ensures
            r == next_pending(self@),
    {
        if self.sys {
            Some(MountPoint::Sys)
        } else if self.run {
            Some(MountPoint::Run)
        } else if self.proc {
            Some(MountPoint::Proc)
        } else if self.pts {
            Some(MountPoint::Pts)
        } else if self.dev {
            Some(MountPoint::Dev)
        } else {
            None
        }
    }

    /// The request that an attempt to detach makes next: for the attached
    /// bind that was mounted last, lazy if the attempt is. `None` once
    /// nothing is attached.
    pub fn next_request(&self, lazy: bool) -> (r: Option<UnmountRequest>)
        ensures
            r == next_request_of(self@, lazy),
    {
        match self.next_unmount() {
            Some(point) => Some(UnmountRequest { point, lazy }),
            None => None,
        }
    }

    /// The request that the cleanup makes for the bind at place `position`
    /// of the mount order: always a lazy one, and none where the bind is
    /// already off.
    pub fn cleanup_request(&self, position: usize) -> (r: Option<UnmountRequest>)
        ensures
            r == cleanup_request_of(self@, position as int),
        opens_invariants none
        no_unwind
    {
        match MountPoint::from_index(position) {
            Some(point) => {
                if self.is_mounted(point) {
                    Some(UnmountRequest { point, lazy: true })
                } else {
                    None
                }
            },
            None => None,
        }
    }

    /// Notes that the bind of `point` has come off. The other binds keep
    /// their state, and a bind that was off stays off.
    pub fn mark_unmounted(&mut self, point: MountPoint)
        ensures
            final(self)@ == old(self)@.remove(point),
        opens_invariants none
        no_unwind
    {
        match point {
            MountPoint::Dev => {
                self.dev = false;
            },
            MountPoint::Pts => {
                self.pts = false;
            },
            MountPoint::Proc => {
                self.proc = false;
            },
            MountPoint::Run => {
                self.run = false;
            },
            MountPoint::Sys => {
                self.sys = false;
            },
        }
        assert(self@ =~= old(self)@.remove(point));
    }

    /// Takes in the outcome of the attempt to detach `point`: on success the
    /// bind is off from now on, on failure nothing changes and the error
    /// names the bind.
    pub fn record_unmount(&mut self, point: MountPoint, outcome: Result<(), std::io::Error>) -> (r:
        Result<(), ChrootError>)
        ensures
            r == unmount_outcome_of(point, outcome),
            final(self)@ == if outcome.is_ok() {
                old(self)@.remove(point)
            } else {
                old(self)@
            },
        opens_invariants none
        no_unwind
    {
        match unmount_outcome(point, outcome) {
            Ok(()) => {
                self.mark_unmounted(point);
                Ok(())
            },
            Err(error) => Err(error),
        }
    }

    /// The binds that are still to come off, in the order in which they come
    /// off.
    pub fn pending_unmounts(&self) -> (order: Vec<MountPoint>)
        ensures
            order@ == pending(self@),
    {
        let mut order: Vec<MountPoint> = Vec::new();
        if self.sys {
            order.push(MountPoint::Sys);
        }
        if self.run {
            order.push(MountPoint::Run);
        }
        if self.proc {
            order.push(MountPoint::Proc);
        }
        if self.pts {
            order.push(MountPoint::Pts);
        }
        if self.dev {
            order.push(MountPoint::Dev);
        }
        proof {
            lemma_pending_unfolds(self@);
        }
        order
    }
}

/// One bind as a sequence: itself if it is attached, nothing if it is not.
pub open spec fn if_live(live: Set<MountPoint>, point: MountPoint) -> Seq<MountPoint> {
    if live.contains(point) {
        seq![point]
    } else {
        Seq::empty()
    }
}

/// The pending binds, written out bind by bind.
pub proof fn lemma_pending_unfolds(live: Set<MountPoint>)
    ensures
        pending(live) == if_live(live, MountPoint::Sys) + if_live(live, MountPoint::Run) + if_live(
            live,
            MountPoint::Proc,
        ) + if_live(live, MountPoint::Pts) + if_live(live, MountPoint::Dev),
{
    let keep = attached_in(live);
    let sys = seq![MountPoint::Sys];
    let run = seq![MountPoint::Run];
    let proc = seq![MountPoint::Proc];
    let pts = seq![MountPoint::Pts];
    let dev = seq![MountPoint::Dev];
    let two = sys + run;
    let three = two + proc;
    let four = three + pts;
    let five = four + dev;
    assert(unmount_order() == five) by {
        assert(unmount_order() =~= five);
    }
    lemma_filter_single(live, MountPoint::Sys);
    lemma_filter_single(live, MountPoint::Run);
    lemma_filter_single(live, MountPoint::Proc);
    lemma_filter_single(live, MountPoint::Pts);
    lemma_filter_single(live, MountPoint::Dev);
    Seq::filter_distributes_over_add(sys, run, keep);
    Seq::filter_distributes_over_add(two, proc, keep);
    Seq::filter_distributes_over_add(three, pts, keep);
    Seq::filter_distributes_over_add(four, dev, keep);
}

/// While all five binds are attached, they come off in exactly the reverse
/// of the order in which they were mounted.
pub proof fn lemma_pending_of_all()
    ensures
        pending(every_point()) == unmount_order(),
        pending(every_point()) == mount_order().reverse(),
{
    let all = every_point();
    lemma_pending_unfolds(all);
    let one = if_live(all, MountPoint::Sys);
    let two = one + if_live(all, MountPoint::Run);
    let three = two + if_live(all, MountPoint::Proc);
    let four = three + if_live(all, MountPoint::Pts);
    let five = four + if_live(all, MountPoint::Dev);
    assert(one =~= seq![MountPoint::Sys]);
    assert(two =~= seq![MountPoint::Sys, MountPoint::Run]);
    assert(three =~= seq![MountPoint::Sys, MountPoint::Run, MountPoint::Proc]);
    assert(four =~= seq![MountPoint::Sys, MountPoint::Run, MountPoint::Proc, MountPoint::Pts]);
    assert(five =~= unmount_order());
    crate::mount_point::lemma_unmount_order_is_reverse();
}

/// The bind that comes off next is the first of the pending ones, and once
/// it is off the rest of them is pending, in the same order. Nothing is
/// pending exactly when nothing is attached.
pub proof fn lemma_pending_steps(live: Set<MountPoint>)
    ensures
        match next_pending(live) {
            Some(point) => {
                &&& live.contains(point)
                &&& pending(live).len() > 0
                &&& pending(live)[0] == point
                &&& pending(live.remove(point)) == pending(live).drop_first()
            },
            None => live == Set::<MountPoint>::empty() && pending(live).len() == 0,
        },
{
    lemma_pending_unfolds(live);
    match next_pending(live) {
        Some(point) => {
            lemma_pending_unfolds(live.remove(point));
            assert(pending(live.remove(point)) =~= pending(live).drop_first());
        },
        None => {
            assert(live =~= Set::<MountPoint>::empty());
        },
    }
}

/// Where the attempt to detach `step` has failed, what is still pending is
/// the rest of what was pending before, from `step` on.
pub proof fn lemma_pending_after_failure(live: Set<MountPoint>, step: MountPoint)
    requires
        live.contains(step),
    ensures
        next_pending(kept_up_to(live, step)) == Some(step),
        exists|done: int|
            0 <= done < pending(live).len() && pending(live)[done] == step && pending(
                kept_up_to(live, step),
            ) == #[trigger] pending(live).skip(done),
{
    let kept = kept_up_to(live, step);
    lemma_pending_unfolds(live);
    lemma_pending_unfolds(kept);
    let sys = if_live(live, MountPoint::Sys);
    let run = if_live(live, MountPoint::Run);
    let proc = if_live(live, MountPoint::Proc);
    let pts = if_live(live, MountPoint::Pts);
    let done: int = match step {
        MountPoint::Sys => 0,
        MountPoint::Run => sys.len() as int,
        MountPoint::Proc => (sys.len() + run.len()) as int,
        MountPoint::Pts => (sys.len() + run.len() + proc.len()) as int,
        MountPoint::Dev => (sys.len() + run.len() + proc.len() + pts.len()) as int,
    };
    assert(pending(kept) =~= pending(live).skip(done));
}

/// A bind that was mounted before all of `done` comes off after all of
/// them.
pub proof fn lemma_pending_grows(done: Set<MountPoint>, point: MountPoint)
    requires
        !done.contains(point),
        forall|other: MountPoint| done.contains(other) ==> point.position() < other.position(),
    ensures
        pending(done.insert(point)) == pending(done).push(point),
{
    lemma_pending_unfolds(done);
    lemma_pending_unfolds(done.insert(point));
    assert(pending(done.insert(point)) =~= pending(done).push(point));
}

/// Of a single bind, the filter keeps it exactly when it is attached.
proof fn lemma_filter_single(live: Set<MountPoint>, point: MountPoint)
    ensures
        seq![point].filter(attached_in(live)) == if_live(live, point),
{
    reveal_with_fuel(Seq::filter, 2);
    let one = seq![point];
    assert(one.drop_last() =~= Seq::<MountPoint>::empty());
    assert(one.last() == point);
    assert(one.filter(attached_in(live)) =~= if_live(live, point));
}

} // verus!
