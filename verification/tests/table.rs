use tiffin::MountTable;
use tiffin::MountTarget;
use tiffin::Error;

fn plain(target: &str) -> MountTarget {
    MountTarget::new(target.to_owned(), None, 0, None)
}

#[test]
fn add_mount_last_write_wins() {
    let mut table = MountTable::new();
    table.add_mount(plain("first"), "/same".to_owned());
    table.add_mount(plain("second"), "/same".to_owned());
    let sorted = table.sort_mounts();
    assert_eq!(sorted.len(), 1);
    assert_eq!(sorted[0].0, "/same");
    assert_eq!(sorted[0].1.target, "second");
}

#[test]
fn set_table_replaces_and_dedups() {
    let mut table = MountTable::new();
    table.add_mount(plain("old"), "/gone".to_owned());
    table.set_table(vec![
        ("/a".to_owned(), plain("one")),
        ("/b".to_owned(), plain("two")),
        ("/a".to_owned(), plain("three")),
    ]);
    let sorted = table.sort_mounts();
    assert_eq!(sorted.len(), 2);
    for pair in &sorted {
        if pair.0 == "/a" {
            assert_eq!(pair.1.target, "three");
        } else {
            assert_eq!(pair.0, "/b");
            assert_eq!(pair.1.target, "two");
        }
    }
}

#[test]
fn mount_target_new_keeps_fields() {
    let mt = MountTarget::new(
        "data".to_owned(),
        Some("ext4".to_owned()),
        tiffin::FLAG_RDONLY,
        Some("mode=755".to_owned()),
    );
    assert_eq!(mt.target, "data");
    assert_eq!(mt.fstype.as_deref(), Some("ext4"));
    assert_eq!(mt.flags, tiffin::FLAG_RDONLY);
    assert_eq!(mt.data.as_deref(), Some("mode=755"));
    let copy = mt.clone();
    assert_eq!(copy.target, mt.target);
    assert_eq!(copy.fstype, mt.fstype);
}

#[test]
fn mount_target_equality_is_by_fields() {
    let a = MountTarget::new("t".to_owned(), Some("proc".to_owned()), 0, None);
    let b = a.clone();
    assert!(a == b);
    let c = MountTarget::new("t".to_owned(), None, 0, None);
    assert!(a != c);
    let d = MountTarget::new("t".to_owned(), Some("proc".to_owned()), tiffin::FLAG_RDONLY, None);
    assert!(a != d);
}

#[test]
fn mount_target_default_is_empty() {
    let mt = MountTarget::default();
    assert_eq!(mt.target, "");
    assert_eq!(mt.fstype, None);
    assert_eq!(mt.flags, 0);
    assert_eq!(mt.data, None);
}

#[test]
fn resolved_target_sanitizes_leading_separator() {
    let mt = plain("/escape/attempt");
    assert_eq!(mt.resolved_target("/jail"), "/jail/escape/attempt");
    let rel = plain("plain");
    assert_eq!(rel.resolved_target("/jail"), "/jail/plain");
    let root = plain("/");
    assert_eq!(root.resolved_target("/jail"), "/jail");
}

// Flag constants and errno values must be what the kernel-facing crates use.
#[test]
fn constants_match_collaborators() {
    assert_eq!(tiffin::FLAG_BIND, sys_mount::MountFlags::BIND.bits());
    assert_eq!(tiffin::FLAG_RDONLY, sys_mount::MountFlags::RDONLY.bits());
    assert_eq!(tiffin::FLAG_REC, sys_mount::MountFlags::REC.bits());
    assert_eq!(tiffin::ERRNO_EEXIST, nix::errno::Errno::EEXIST as i32);
    assert_eq!(tiffin::ERRNO_EBUSY, nix::errno::Errno::EBUSY as i32);
}

// Directory preparation under a path that cannot hold directories fails and
// names the resolved target.
#[test]
fn mount_reports_dir_create_failure() {
    let mt = plain("sub/dir");
    let r = mt.mount("/proc", "/dev/null/jail");
    match r {
        Err(Error::DirCreate { target, errno }) => {
            assert_eq!(target, "/dev/null/jail/sub/dir");
            assert!(errno != 0);
        },
        other => panic!("expected a directory-preparation failure, got {:?}", other.is_ok()),
    }
}

// Asking the kernel for a proc mount under /tmp either succeeds — the
// handle then names the resolved target and its release detaches the mount
// again — or is refused by a kernel that withholds the mount capability;
// the refusal then names the same resolved target and carries the errno.
#[test]
fn mount_either_succeeds_or_names_target() {
    let mt = MountTarget::new("mnt".to_owned(), Some("proc".to_owned()), 0, None);
    match mt.mount("/proc", "/tmp/tiffin-mount-attempt") {
        Ok(lm) => {
            assert_eq!(lm.target_path().as_str(), "/tmp/tiffin-mount-attempt/mnt");
        },
        Err(Error::Mount { target, errno }) => {
            assert_eq!(target, "/tmp/tiffin-mount-attempt/mnt");
            assert!(errno != 0);
        },
        Err(other) => panic!("expected a mount failure, got {:?}", other),
    }
}

// A bare unmount of a path that is not a mount point fails and names the
// resolved target, with the kernel's errno carried through.
#[test]
fn umount_reports_unmount_failure() {
    let mt = plain("surely-not-mounted-here");
    let r = mt.umount("/tmp");
    match r {
        Err(Error::Unmount { target, errno }) => {
            assert_eq!(target, "/tmp/surely-not-mounted-here");
            assert!(errno != 0);
        },
        Ok(()) => panic!("unmounting a non-mount-point should fail"),
        Err(other) => panic!("expected an unmount failure, got {:?}", other),
    }
}
