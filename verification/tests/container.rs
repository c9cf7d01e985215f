use tiffin::Container;
use tiffin::Error;
use tiffin::MountTarget;

fn targets_of(sorted: &[(String, MountTarget)]) -> Vec<String> {
    let mut out: Vec<String> = Vec::new();
    for pair in sorted {
        out.push(pair.1.target.clone());
    }
    out
}

fn make_dir(path: &str) {
    match nix::unistd::mkdir(path, nix::sys::stat::Mode::from_bits_truncate(0o755)) {
        Ok(()) => {},
        Err(nix::errno::Errno::EEXIST) => {},
        Err(e) => panic!("mkdir {} failed: {}", path, e),
    }
}

#[test]
fn new_container_has_default_mounts() {
    let c = Container::new("/tmp/tiffin-defaults".to_owned()).expect("container");
    assert_eq!(c.root, "/tmp/tiffin-defaults");
    let sorted = c.mount_table.sort_mounts();
    assert_eq!(targets_of(&sorted), vec!["dev", "proc", "sys", "dev/pts"]);
    let sources: Vec<String> = sorted.iter().map(|p| p.0.clone()).collect();
    assert_eq!(sources, vec!["/dev", "/proc", "/sys", "/dev/pts"]);
    assert_eq!(sorted[1].1.fstype.as_deref(), Some("proc"));
    assert_eq!(sorted[2].1.fstype.as_deref(), Some("sysfs"));
    assert_eq!(sorted[0].1.flags, tiffin::FLAG_BIND);
    assert_eq!(sorted[3].1.flags, tiffin::FLAG_BIND);
}

#[test]
fn bind_mount_files_a_bind_entry() {
    let mut c = Container::new("/tmp/tiffin-bind".to_owned()).expect("container");
    c.bind_mount("/var/cache".to_owned(), "cache".to_owned());
    let sorted = c.mount_table.sort_mounts();
    let entry = sorted.iter().find(|p| p.0 == "/var/cache").expect("entry");
    assert_eq!(entry.1.target, "cache");
    assert_eq!(entry.1.flags, tiffin::FLAG_BIND);
    assert_eq!(entry.1.fstype, None);
}

#[test]
fn host_bind_mount_targets_run_host() {
    let mut c = Container::new("/tmp/tiffin-host".to_owned()).expect("container");
    c.host_bind_mount();
    let sorted = c.mount_table.sort_mounts();
    let entry = sorted.iter().find(|p| p.0 == "/").expect("entry");
    assert_eq!(entry.1.target, "/run/host");
    assert_eq!(entry.1.flags, tiffin::FLAG_BIND);
}

#[test]
fn add_mount_overrides_default_entry() {
    let mut c = Container::new("/tmp/tiffin-override".to_owned()).expect("container");
    c.add_mount(
        MountTarget::new("proc".to_owned(), Some("tmpfs".to_owned()), 0, None),
        "/proc".to_owned(),
    );
    let sorted = c.mount_table.sort_mounts();
    assert_eq!(sorted.len(), 4);
    let entry = sorted.iter().find(|p| p.0 == "/proc").expect("entry");
    assert_eq!(entry.1.fstype.as_deref(), Some("tmpfs"));
}

// With an emptied table, run() enters and leaves the jail without touching
// any mounts: the body's result comes back when the kernel permits the
// chroot, and the only other acceptable outcome is the kernel refusing it
// (a confined environment withholds that capability even from uid 0).
// Either way the process ends up back in its original working directory.
#[test]
fn run_returns_body_result_and_restores_cwd() {
    make_dir("/tmp/tiffin-run");
    let before = nix::unistd::getcwd().expect("getcwd");
    let mut c = Container::new("/tmp/tiffin-run".to_owned()).expect("container");
    c.mount_table.set_table(Vec::new());
    let r = c.run(|| 40 + 2);
    match r {
        Ok(v) => assert_eq!(v, 42),
        Err(Error::Chroot { errno }) => assert!(errno != 0),
        Err(e) => panic!("run failed for an unexpected reason: {:?}", e),
    }
    let after = nix::unistd::getcwd().expect("getcwd");
    assert_eq!(before, after);
}

// Entering twice is a no-op, not a double-enter; dropping a container that
// is still inside the jail brings the process back out. When the kernel
// withholds the chroot capability, the call reports that instead, and the
// working directory is untouched either way.
#[test]
fn chroot_is_idempotent_and_drop_restores() {
    make_dir("/tmp/tiffin-enter");
    let before = nix::unistd::getcwd().expect("getcwd");
    let mut c = Container::new("/tmp/tiffin-enter".to_owned()).expect("container");
    c.mount_table.set_table(Vec::new());
    match c.chroot() {
        Ok(()) => {
            c.chroot().expect("second enter is a no-op");
        },
        Err(Error::Chroot { errno }) => assert!(errno != 0),
        Err(e) => panic!("chroot failed for an unexpected reason: {:?}", e),
    }
    drop(c);
    let after = nix::unistd::getcwd().expect("getcwd");
    assert_eq!(before, after);
}

// Applying an emptied table makes no kernel request at all, so the mount
// pass is owed success, and the unmount pass likewise.
#[test]
fn mount_of_empty_table_succeeds() {
    let mut c = Container::new("/tmp/tiffin-empty".to_owned()).expect("container");
    c.mount_table.set_table(Vec::new());
    c.mount().expect("empty mount pass");
    c.umount().expect("empty unmount pass");
}

// Entering a root that does not exist fails with a chroot error (the
// kernel reports either the missing path or the missing capability), and
// after the implicit mount pass over the emptied table, nothing is left
// mounted or entered.
#[test]
fn chroot_into_missing_root_reports_chroot_error() {
    let before = nix::unistd::getcwd().expect("getcwd");
    let mut c = Container::new("/tmp/tiffin-no-such-root/x/y".to_owned()).expect("container");
    c.mount_table.set_table(Vec::new());
    match c.chroot() {
        Err(Error::Chroot { errno }) => assert!(errno != 0),
        Err(e) => panic!("expected a chroot failure, got {:?}", e),
        Ok(()) => panic!("entering a missing root should fail"),
    }
    drop(c);
    let after = nix::unistd::getcwd().expect("getcwd");
    assert_eq!(before, after);
}

// A setup failure comes back as an error rather than a panic: mounting an
// emptied-then-refilled table under a root that cannot hold directories
// fails with a directory-preparation error.
#[test]
fn mount_failure_propagates() {
    let mut c = Container::new("/dev/null/jail".to_owned()).expect("container");
    c.mount_table.set_table(vec![(
        "/proc".to_owned(),
        MountTarget::new("proc".to_owned(), Some("proc".to_owned()), 0, None),
    )]);
    match c.mount() {
        Err(Error::DirCreate { target, .. }) => {
            assert_eq!(target, "/dev/null/jail/proc");
        },
        Err(other) => panic!("expected a directory-preparation failure, got {:?}", other),
        Ok(()) => panic!("mounting under /dev/null must fail"),
    }
}
