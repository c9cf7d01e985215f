//! Failure taxonomy for container operations. Every operating-system errno
//! is carried through unchanged so a caller can see what the kernel said.

use vstd::prelude::*;

verus! {

/// Why a mount-table or container operation failed.
#[derive(Debug, PartialEq, Eq)]
pub enum Error {
    /// The directory a mount targets could not be created.
    DirCreate { target: String, errno: i32 },
    /// The kernel refused to establish a mount at `target`.
    Mount { target: String, errno: i32 },
    /// The kernel refused to release the mount at `target`.
    Unmount { target: String, errno: i32 },
    /// The `chroot` syscall failed.
    Chroot { errno: i32 },
    /// Changing or capturing the process working directory failed.
    Chdir { errno: i32 },
    /// The bounded retries around the initial virtual-filesystem mounts were
    /// exhausted; `errno` is what the last attempt reported.
    RetryExhausted { errno: i32 },
}

} // verus!
