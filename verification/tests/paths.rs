use chroot::path::{join, starts_at_root};
use chroot::mount_point::{mount_sequence, unmount_sequence, MountRequest, BIND_FSTYPE, MOUNT_COUNT};
use chroot::MountPoint;

#[test]
fn join_puts_one_separator_between_base_and_name() {
    assert_eq!(join("/target", "dev"), "/target/dev");
    assert_eq!(join("/mnt/new root", "proc"), "/mnt/new root/proc");
}

#[test]
fn join_adds_no_separator_after_a_trailing_one() {
    assert_eq!(join("/", "dev"), "/dev");
    assert_eq!(join("/target/", "sys"), "/target/sys");
}

#[test]
fn join_to_an_empty_base_gives_the_name() {
    assert_eq!(join("", "dev"), "dev");
}

#[test]
fn join_lets_an_absolute_name_stand_for_itself() {
    assert_eq!(join("/target", "/run"), "/run");
}

#[test]
fn join_of_an_empty_name_ends_in_a_separator() {
    assert_eq!(join("/target", ""), "/target/");
    assert_eq!(join("/", ""), "/");
}

#[test]
fn join_handles_characters_of_several_bytes() {
    assert_eq!(join("/ziel/größe", "dev"), "/ziel/größe/dev");
    assert_eq!(join("/ziel/é", "run"), "/ziel/é/run");
}

#[test]
fn join_agrees_with_the_standard_library() {
    let bases = ["", "/", "/target", "/target/", "relative", "a/b/"];
    let names = ["", "dev", "dev/pts", "/abs", "x/"];
    for base in bases {
        for name in names {
            let expected = std::path::Path::new(base).join(name);
            assert_eq!(join(base, name), expected.to_str().unwrap(), "{:?} {:?}", base, name);
        }
    }
}

#[test]
fn absolute_paths_start_at_the_root() {
    assert!(starts_at_root("/"));
    assert!(starts_at_root("/target"));
    assert!(!starts_at_root(""));
    assert!(!starts_at_root("target/"));
    assert!(!starts_at_root("./target"));
}

#[test]
fn mount_order_is_dev_pts_proc_run_sys() {
    assert_eq!(
        mount_sequence(),
        vec![
            MountPoint::Dev,
            MountPoint::Pts,
            MountPoint::Proc,
            MountPoint::Run,
            MountPoint::Sys
        ]
    );
    assert_eq!(mount_sequence().len(), MOUNT_COUNT);
}

#[test]
fn unmount_order_is_the_mount_order_reversed() {
    let mut reversed = mount_sequence();
    reversed.reverse();
    assert_eq!(unmount_sequence(), reversed);
    assert_eq!(
        unmount_sequence(),
        vec![
            MountPoint::Sys,
            MountPoint::Run,
            MountPoint::Proc,
            MountPoint::Pts,
            MountPoint::Dev
        ]
    );
}

#[test]
fn index_and_from_index_follow_the_mount_order() {
    let order = mount_sequence();
    for (i, point) in order.iter().enumerate() {
        assert_eq!(point.index(), i);
        assert_eq!(MountPoint::from_index(i), Some(*point));
    }
    assert_eq!(MountPoint::from_index(2), Some(MountPoint::Proc));
    assert_eq!(MountPoint::from_index(5), None);
    assert_eq!(MountPoint::from_index(usize::MAX), None);
}

#[test]
fn sources_are_the_host_directories() {
    assert_eq!(MountPoint::Dev.source(), "/dev");
    assert_eq!(MountPoint::Pts.source(), "/dev/pts");
    assert_eq!(MountPoint::Proc.source(), "/proc");
    assert_eq!(MountPoint::Run.source(), "/run");
    assert_eq!(MountPoint::Sys.source(), "/sys");
}

#[test]
fn names_are_relative_to_the_root() {
    assert_eq!(MountPoint::Dev.name(), "dev");
    assert_eq!(MountPoint::Pts.name(), "dev/pts");
    assert_eq!(MountPoint::Proc.name(), "proc");
    assert_eq!(MountPoint::Run.name(), "run");
    assert_eq!(MountPoint::Sys.name(), "sys");
}

#[test]
fn targets_lie_below_the_root() {
    assert_eq!(MountPoint::Dev.target("/target"), "/target/dev");
    assert_eq!(MountPoint::Pts.target("/target"), "/target/dev/pts");
    assert_eq!(MountPoint::Proc.target("/target"), "/target/proc");
    assert_eq!(MountPoint::Run.target("/target"), "/target/run");
    assert_eq!(MountPoint::Sys.target("/target"), "/target/sys");
}

#[test]
fn targets_of_the_root_directory_are_the_sources() {
    for point in mount_sequence() {
        assert_eq!(point.target("/"), point.source());
    }
}

#[test]
fn pts_target_lies_inside_dev_target() {
    let dev = MountPoint::Dev.target("/srv/jail");
    assert_eq!(MountPoint::Pts.target("/srv/jail"), join(&dev, "pts"));
    assert!(MountPoint::Dev.index() < MountPoint::Pts.index());
}

#[test]
fn request_asks_for_a_bind_without_a_file_system_type() {
    assert_eq!(BIND_FSTYPE, "none");
    assert_eq!(
        MountPoint::Pts.request("/target"),
        MountRequest {
            source: "/dev/pts".to_string(),
            target: "/target/dev/pts".to_string(),
            fstype: "none".to_string(),
            bind: true,
        }
    );
}

#[test]
fn requests_name_the_five_fixed_targets() {
    let targets: Vec<String> =
        mount_sequence().into_iter().map(|point| point.request("/new").target).collect();
    assert_eq!(targets, ["/new/dev", "/new/dev/pts", "/new/proc", "/new/run", "/new/sys"]);
    for point in mount_sequence() {
        let request = point.request("/new");
        assert_eq!(request.source, point.source());
        assert_eq!(request.fstype, "none");
        assert!(request.bind);
    }
}
