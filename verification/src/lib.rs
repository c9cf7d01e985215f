//! A minimal chroot jail. A [`Container`] owns a [`MountTable`] of virtual
//! filesystems and bind mounts, applies them under a chosen root —
//! parents strictly before children, root first, every tie broken
//! deterministically — enters the jail with `chroot`, runs the caller's
//! work, and then reverses everything in exact reverse order: mounts are
//! detached newest-first and the process is returned to its original root
//! and working directory by saved handles. Teardown runs on scope exit as
//! well, so neither an early return nor a forgotten call leaks a mount or
//! leaves the process stuck inside the jail.

use vstd::prelude::*;

pub mod container;
pub mod errors;
pub mod order;
pub mod pathspec;
mod sys;
pub mod table;
pub mod target;

pub use crate::container::Container;
pub use crate::errors::Error;
pub use crate::table::MountTable;
pub use crate::target::LiveMount;
pub use crate::target::MountTarget;

verus! {

/// Mount flag bit requesting a bind mount (the kernel's `MS_BIND`).
pub const FLAG_BIND: u64 = 4096;

/// Mount flag bit requesting a read-only mount (the kernel's `MS_RDONLY`).
pub const FLAG_RDONLY: u64 = 1;

/// Mount flag bit requesting a recursive bind mount (the kernel's `MS_REC`).
pub const FLAG_REC: u64 = 16384;

/// The kernel's `EEXIST`: the path given to `mkdir` already exists.
pub const ERRNO_EEXIST: i32 = 17;

/// The kernel's `EBUSY`: the resource is still settling or in use.
pub const ERRNO_EBUSY: i32 = 16;

} // verus!
