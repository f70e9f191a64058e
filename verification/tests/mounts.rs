use chroot::binds::Bound;
use chroot::error::{mount_outcome, resolution_outcome, unmount_outcome};
use chroot::mount_point::{mount_sequence, unmount_sequence, UnmountRequest, MOUNT_COUNT};
use chroot::{resolve_root, Chroot, ChrootError, MountPoint, MountSet, MountState};

fn os_error(code: i32) -> std::io::Error {
    std::io::Error::from_raw_os_error(code)
}

#[test]
fn a_fresh_set_has_all_five_mounted() {
    let set = MountSet::all_mounted();
    for point in mount_sequence() {
        assert!(set.is_mounted(point));
        assert_eq!(set.state(point), MountState::Mounted);
    }
    assert_eq!(set.live_count(), 5);
    assert!(!set.all_unmounted());
}

#[test]
fn pending_unmounts_of_a_fresh_set_reverse_the_mount_order() {
    let set = MountSet::all_mounted();
    let mut reversed = mount_sequence();
    reversed.reverse();
    assert_eq!(set.pending_unmounts(), reversed);
    assert_eq!(set.pending_unmounts(), unmount_sequence());
}

#[test]
fn unmounting_step_by_step_goes_sys_run_proc_pts_dev() {
    let mut set = MountSet::all_mounted();
    let mut issued = Vec::new();
    while let Some(point) = set.next_unmount() {
        issued.push(point);
        set.mark_unmounted(point);
    }
    assert_eq!(
        issued,
        vec![
            MountPoint::Sys,
            MountPoint::Run,
            MountPoint::Proc,
            MountPoint::Pts,
            MountPoint::Dev
        ]
    );
    assert!(set.all_unmounted());
    assert_eq!(set.live_count(), 0);
    assert_eq!(set.next_unmount(), None);
}

#[test]
fn next_unmount_is_the_head_of_the_pending_ones() {
    let mut set = MountSet::all_mounted();
    loop {
        let pending = set.pending_unmounts();
        assert_eq!(set.next_unmount(), pending.first().copied());
        match set.next_unmount() {
            Some(point) => {
                set.mark_unmounted(point);
                assert_eq!(set.pending_unmounts(), pending[1..].to_vec());
            }
            None => break,
        }
    }
}

#[test]
fn marking_is_idempotent_and_leaves_the_others_alone() {
    let mut set = MountSet::all_mounted();
    set.mark_unmounted(MountPoint::Proc);
    let once = set;
    set.mark_unmounted(MountPoint::Proc);
    assert_eq!(set, once);
    assert_eq!(set.state(MountPoint::Proc), MountState::Unmounted);
    assert_eq!(
        set.pending_unmounts(),
        vec![MountPoint::Sys, MountPoint::Run, MountPoint::Pts, MountPoint::Dev]
    );
    assert_eq!(set.live_count(), 4);
}

#[test]
fn pending_skips_what_is_already_off() {
    let mut set = MountSet::all_mounted();
    set.mark_unmounted(MountPoint::Sys);
    set.mark_unmounted(MountPoint::Pts);
    assert_eq!(set.next_unmount(), Some(MountPoint::Run));
    assert_eq!(
        set.pending_unmounts(),
        vec![MountPoint::Run, MountPoint::Proc, MountPoint::Dev]
    );
}

#[test]
fn a_successful_unmount_is_recorded() {
    let mut set = MountSet::all_mounted();
    let result = set.record_unmount(MountPoint::Sys, Ok(()));
    assert!(result.is_ok());
    assert!(!set.is_mounted(MountPoint::Sys));
    assert_eq!(set.next_unmount(), Some(MountPoint::Run));
}

#[test]
fn a_failed_unmount_changes_nothing_and_names_the_step() {
    let mut set = MountSet::all_mounted();
    set.mark_unmounted(MountPoint::Sys);
    let before = set;
    let result = set.record_unmount(MountPoint::Run, Err(os_error(16)));
    match result {
        Err(ChrootError::Unmount { step, cause }) => {
            assert_eq!(step, MountPoint::Run);
            assert_eq!(cause.raw_os_error(), Some(16));
        }
        other => panic!("unexpected: {:?}", other),
    }
    assert_eq!(set, before);
    assert_eq!(set.next_unmount(), Some(MountPoint::Run));
}

#[test]
fn unmounting_twice_is_a_no_op_the_second_time() {
    let mut set = MountSet::all_mounted();
    while let Some(point) = set.next_unmount() {
        assert!(set.record_unmount(point, Ok(())).is_ok());
    }
    let after_first = set;
    assert_eq!(set.next_unmount(), None);
    assert!(set.pending_unmounts().is_empty());
    while let Some(point) = set.next_unmount() {
        assert!(set.record_unmount(point, Ok(())).is_ok());
    }
    assert_eq!(set, after_first);
    assert!(set.all_unmounted());
}

#[test]
fn a_failure_at_the_third_mount_names_proc() {
    let third = MountPoint::from_index(2).unwrap();
    let result = mount_outcome(third, Err(os_error(2)));
    match result {
        Err(ChrootError::Mount { step, cause }) => {
            assert_eq!(step, MountPoint::Proc);
            assert_eq!(cause.raw_os_error(), Some(2));
        }
        other => panic!("unexpected: {:?}", other.map(|_| ())),
    }
}

#[test]
fn a_mount_failure_names_the_step_it_was_asked_for() {
    for point in mount_sequence() {
        let error = mount_outcome(point, Err(os_error(1))).err().unwrap();
        assert_eq!(error.step(), Some(point));
        assert!(matches!(error, ChrootError::Mount { .. }));
    }
}

#[test]
fn an_unmount_outcome_is_success_or_an_unmount_error() {
    assert!(unmount_outcome(MountPoint::Dev, Ok(())).is_ok());
    let error = unmount_outcome(MountPoint::Dev, Err(os_error(22))).err().unwrap();
    assert_eq!(error.step(), Some(MountPoint::Dev));
    match error {
        ChrootError::Unmount { step, cause } => {
            assert_eq!(step, MountPoint::Dev);
            assert_eq!(cause.raw_os_error(), Some(22));
        }
        other => panic!("unexpected: {:?}", other),
    }
}

#[test]
fn a_resolved_path_is_handed_on() {
    let result = resolution_outcome(Ok(Some("/target".to_string())));
    assert_eq!(result.ok(), Some("/target".to_string()));
}

#[test]
fn a_failed_resolution_keeps_its_reason() {
    let error = resolution_outcome(Err(os_error(2))).err().unwrap();
    assert_eq!(error.step(), None);
    match error {
        ChrootError::PathResolution { reason: Some(reason) } => {
            assert_eq!(reason.raw_os_error(), Some(2));
        }
        other => panic!("unexpected: {:?}", other),
    }
}

#[test]
fn a_path_that_is_not_unicode_fails_without_a_reason() {
    let error = resolution_outcome(Ok(None)).err().unwrap();
    assert!(matches!(error, ChrootError::PathResolution { reason: None }));
}

#[test]
fn resolve_root_gives_the_canonical_path() {
    assert_eq!(resolve_root("/").ok(), Some("/".to_string()));
    assert_eq!(resolve_root("/.").ok(), Some("/".to_string()));
    assert_eq!(resolve_root("/..").ok(), Some("/".to_string()));
    assert_eq!(resolve_root("//").ok(), Some("/".to_string()));
}

#[test]
fn resolve_root_makes_a_relative_path_absolute() {
    let here = resolve_root(".").ok().unwrap();
    assert!(here.starts_with('/'));
    assert!(!here.ends_with("/."));
}

#[test]
fn resolve_root_fails_where_nothing_is() {
    let error = resolve_root("/no/such/directory/anywhere").err().unwrap();
    match error {
        ChrootError::PathResolution { reason: Some(reason) } => {
            assert_eq!(reason.kind(), std::io::ErrorKind::NotFound);
        }
        other => panic!("unexpected: {:?}", other),
    }
}

#[test]
fn a_missing_directory_fails_with_path_resolution() {
    match Chroot::new("/no/such/directory/anywhere") {
        Err(ChrootError::PathResolution { reason }) => {
            assert_eq!(reason.map(|e| e.kind()), Some(std::io::ErrorKind::NotFound));
        }
        other => panic!("unexpected: {:?}", other.map(|_| ())),
    }
}

#[test]
fn a_missing_relative_directory_fails_with_path_resolution() {
    let result = Chroot::new("no-such-directory-here/below");
    assert!(matches!(result, Err(ChrootError::PathResolution { reason: Some(_) })));
}

#[test]
fn a_root_without_a_dev_directory_fails_at_the_first_mount() {
    match Chroot::new("/proc/self/fd") {
        Err(ChrootError::Mount { step, .. }) => assert_eq!(step, MountPoint::Dev),
        other => panic!("unexpected: {:?}", other.map(|_| ())),
    }
}

#[test]
fn the_next_request_names_the_bind_mounted_last_and_carries_the_flag() {
    let mut set = MountSet::all_mounted();
    assert_eq!(
        set.next_request(false),
        Some(UnmountRequest { point: MountPoint::Sys, lazy: false })
    );
    assert_eq!(
        set.next_request(true),
        Some(UnmountRequest { point: MountPoint::Sys, lazy: true })
    );
    set.mark_unmounted(MountPoint::Sys);
    set.mark_unmounted(MountPoint::Run);
    assert_eq!(
        set.next_request(true),
        Some(UnmountRequest { point: MountPoint::Proc, lazy: true })
    );
}

#[test]
fn requests_of_a_full_unmount_reverse_the_mount_order_and_keep_the_flag() {
    for lazy in [false, true] {
        let mut set = MountSet::all_mounted();
        let mut requests = Vec::new();
        while let Some(request) = set.next_request(lazy) {
            requests.push(request);
            assert!(set.record_unmount(request.point, Ok(())).is_ok());
        }
        let mut expected: Vec<UnmountRequest> =
            mount_sequence().into_iter().map(|point| UnmountRequest { point, lazy }).collect();
        expected.reverse();
        assert_eq!(requests, expected);
        assert_eq!(set.next_request(lazy), None);
    }
}

#[test]
fn an_attempt_that_fails_at_proc_has_asked_for_sys_run_and_proc_only() {
    let mut set = MountSet::all_mounted();
    let mut requests = Vec::new();
    let mut result = Ok(());
    while let Some(request) = set.next_request(false) {
        requests.push(request.point);
        let outcome = if request.point == MountPoint::Proc { Err(os_error(16)) } else { Ok(()) };
        result = set.record_unmount(request.point, outcome);
        if result.is_err() {
            break;
        }
    }
    assert_eq!(requests, vec![MountPoint::Sys, MountPoint::Run, MountPoint::Proc]);
    assert_eq!(result.err().unwrap().step(), Some(MountPoint::Proc));
    assert_eq!(
        set.pending_unmounts(),
        vec![MountPoint::Proc, MountPoint::Pts, MountPoint::Dev]
    );
    assert_eq!(
        set.next_request(true),
        Some(UnmountRequest { point: MountPoint::Proc, lazy: true })
    );
}

#[test]
fn the_cleanup_asks_lazily_for_every_bind_that_is_attached() {
    let set = MountSet::all_mounted();
    for (position, point) in mount_sequence().into_iter().enumerate() {
        assert_eq!(set.cleanup_request(position), Some(UnmountRequest { point, lazy: true }));
    }
    assert_eq!(set.cleanup_request(MOUNT_COUNT), None);
    assert_eq!(set.cleanup_request(usize::MAX), None);
}

#[test]
fn the_cleanup_passes_over_what_is_already_off() {
    let mut set = MountSet::all_mounted();
    set.mark_unmounted(MountPoint::Run);
    set.mark_unmounted(MountPoint::Dev);
    assert_eq!(set.cleanup_request(MountPoint::Run.index()), None);
    assert_eq!(set.cleanup_request(MountPoint::Dev.index()), None);
    assert_eq!(
        set.cleanup_request(MountPoint::Pts.index()),
        Some(UnmountRequest { point: MountPoint::Pts, lazy: true })
    );
}

#[test]
fn the_cleanup_goes_on_after_a_failure_and_walks_the_order_backwards() {
    let mut set = MountSet::all_mounted();
    set.mark_unmounted(MountPoint::Sys);
    let mut asked = Vec::new();
    let mut position = MOUNT_COUNT;
    while position > 0 {
        position -= 1;
        if let Some(request) = set.cleanup_request(position) {
            assert!(request.lazy);
            asked.push(request.point);
            let outcome = if request.point == MountPoint::Proc { Err(os_error(16)) } else { Ok(()) };
            let _ = set.record_unmount(request.point, outcome);
        }
    }
    assert_eq!(asked, vec![MountPoint::Run, MountPoint::Proc, MountPoint::Pts, MountPoint::Dev]);
    assert_eq!(set.pending_unmounts(), vec![MountPoint::Proc]);
}

#[test]
fn a_failed_third_bind_gives_a_mount_error_for_proc_and_no_bind() {
    let third = MountPoint::from_index(2).unwrap();
    let request = third.request("/target");
    assert_eq!(request.target, "/target/proc");
    match Bound::from_outcome(third, request, Err(os_error(13))) {
        Err(ChrootError::Mount { step, cause }) => {
            assert_eq!(step, MountPoint::Proc);
            assert_eq!(step.source(), "/proc");
            assert_eq!(cause.raw_os_error(), Some(13));
        }
        other => panic!("unexpected: {:?}", other),
    }
}
