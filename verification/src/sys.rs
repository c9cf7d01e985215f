//! The operating-system collaborators, each behind one trusted declaration:
//! the mount and unmount calls of `sys_mount`, and the `chroot`-family and
//! directory syscalls of `nix`. Nothing here is verified; every contract is
//! what the called crate's source shows, and results that depend on kernel
//! state promise nothing beyond their type.

use vstd::prelude::*;
use sys_mount::Unmount;
use std::io::Write;

verus! {

/// Owns one `sys_mount::UnmountDrop<sys_mount::Mount>` handle. The type is
/// opaque here: its generic parameter is bound by sys_mount's own `Unmount`
/// trait, which the verifier cannot be told about, so the handle is held
/// behind this struct instead of being declared directly.
#[verifier::external_body]
pub(crate) struct MountHandle {
    inner: sys_mount::UnmountDrop<sys_mount::Mount>,
}

/// Relies on sys_mount::MountBuilder::mount_autodrop: asks the kernel to
/// mount `source` at `target` with the given filesystem type, flag bits and
/// data string, and returns an owned handle whose release unmounts. Whether
/// the call succeeds depends on kernel state, so nothing is promised of the
/// outcome; on failure the raw errno is handed back (`-1` when the failure
/// carries none). The call reports errors instead of panicking.
#[verifier::external_body]
pub(crate) fn sys_mount_at(
    source: &str,
    target: &str,
    fstype: &Option<String>,
    flags: u64,
    data: &Option<String>,
) -> (r: Result<MountHandle, i32>)
    opens_invariants none
    no_unwind
{
    let mut builder = sys_mount::Mount::builder().flags(sys_mount::MountFlags::from_bits_truncate(
        flags,
    ));
    if let Some(fs) = fstype {
        builder = builder.fstype(sys_mount::FilesystemType::Manual(fs));
    }
    if let Some(d) = data {
        builder = builder.data(d);
    }
    match builder.mount_autodrop(source, target, sys_mount::UnmountFlags::empty()) {
        Ok(m) => Ok(MountHandle { inner: m }),
        Err(e) => Err(e.raw_os_error().unwrap_or(-1)),
    }
}

/// Relies on sys_mount::Unmount::unmount with UnmountFlags::DETACH: lazily
/// detaches the mount the handle stands for, so even a busy mount leaves the
/// namespace at once. Consumes the handle either way; on failure the raw
/// errno is handed back. The call reports errors instead of panicking.
#[verifier::external_body]
pub(crate) fn sys_unmount_detach(m: MountHandle) -> (r: Result<(), i32>)
    opens_invariants none
    no_unwind
{
    match m.inner.unmount(sys_mount::UnmountFlags::DETACH) {
        Ok(()) => Ok(()),
        Err(e) => Err(e.raw_os_error().unwrap_or(-1)),
    }
}

/// Relies on nix::mount::umount: plainly unmounts the filesystem mounted at
/// `path`; on failure the errno is handed back. The call reports errors (a
/// path too long or holding an interior NUL included) instead of panicking.
#[verifier::external_body]
pub(crate) fn sys_umount_path(path: &str) -> (r: Result<(), i32>)
    opens_invariants none
    no_unwind
{
    match nix::mount::umount(path) {
        Ok(()) => Ok(()),
        Err(e) => Err(e as i32),
    }
}

/// Relies on nix::unistd::chroot: makes `path` the calling process's root
/// directory; on failure the errno is handed back.
#[verifier::external_body]
pub(crate) fn sys_chroot(path: &str) -> (r: Result<(), i32>)
    opens_invariants none
    no_unwind
{
    match nix::unistd::chroot(path) {
        Ok(()) => Ok(()),
        Err(e) => Err(e as i32),
    }
}

/// Relies on nix::unistd::chdir: changes the process working directory to
/// `path`; on failure the errno is handed back.
#[verifier::external_body]
pub(crate) fn sys_chdir(path: &str) -> (r: Result<(), i32>)
    opens_invariants none
    no_unwind
{
    match nix::unistd::chdir(path) {
        Ok(()) => Ok(()),
        Err(e) => Err(e as i32),
    }
}

/// Relies on nix::unistd::fchdir: changes the process working directory to
/// the directory an open file descriptor refers to, without any path lookup;
/// on failure the errno is handed back.
#[verifier::external_body]
pub(crate) fn sys_fchdir(fd: i32) -> (r: Result<(), i32>)
    opens_invariants none
    no_unwind
{
    match nix::unistd::fchdir(fd) {
        Ok(()) => Ok(()),
        Err(e) => Err(e as i32),
    }
}

/// Relies on nix::unistd::mkdir with mode 0o755: creates one directory; on
/// failure (an already existing path included) the errno is handed back.
#[verifier::external_body]
pub(crate) fn sys_mkdir(path: &str) -> (r: Result<(), i32>)
    opens_invariants none
    no_unwind
{
    match nix::unistd::mkdir(path, nix::sys::stat::Mode::from_bits_truncate(0o755)) {
        Ok(()) => Ok(()),
        Err(e) => Err(e as i32),
    }
}

/// Relies on nix::fcntl::open with O_RDONLY: opens `path` read-only and
/// returns its file descriptor, which POSIX documents as non-negative; on
/// failure the errno is handed back.
#[verifier::external_body]
pub(crate) fn sys_open_dir(path: &str) -> (r: Result<i32, i32>)
    ensures
        r is Ok ==> r->Ok_0 >= 0,
    opens_invariants none
    no_unwind
{
    match nix::fcntl::open(path, nix::fcntl::OFlag::O_RDONLY, nix::sys::stat::Mode::empty()) {
        Ok(fd) => Ok(fd),
        Err(e) => Err(e as i32),
    }
}

/// Relies on nix::unistd::close: closes a file descriptor; any failure is
/// handed back as the errno.
#[verifier::external_body]
pub(crate) fn sys_close(fd: i32) -> (r: Result<(), i32>)
    opens_invariants none
    no_unwind
{
    match nix::unistd::close(fd) {
        Ok(()) => Ok(()),
        Err(e) => Err(e as i32),
    }
}

/// Relies on nix::unistd::sleep: blocks the calling thread for about the
/// given number of seconds.
#[verifier::external_body]
pub(crate) fn sys_sleep(seconds: u32)
    opens_invariants none
    no_unwind
{
    let _ = nix::unistd::sleep(seconds);
}

/// Relies on std::io::Stderr's Write impl through writeln!: reports a
/// teardown failure on the standard error stream, so a failure on a path
/// that has no error channel is still observable. The write result is
/// ignored.
#[verifier::external_body]
pub(crate) fn log_failure(what: &str, errno: i32)
    opens_invariants none
    no_unwind
{
    let _ = writeln!(std::io::stderr(), "tiffin: {what} failed: errno {errno}");
}

} // verus!
