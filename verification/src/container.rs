//! The container: a chroot jail built on one mount table. It sequences
//! mount, chroot, caller work, exit-chroot and unmount, keeps the two state
//! flags honest (being chrooted implies being mounted when entering), and
//! guarantees teardown on scope exit. The ghost history records each
//! operation attempted, in order, so contracts can say not only what state a
//! call leaves but what it did on the way.

use vstd::prelude::*;
use crate::table::{MountTable, lookup, apply_targets, partial_mount_failure};
use crate::target::{MountTarget, MountTargetView};
use crate::order::{EntryView, lemma_apply_order_len};
use crate::errors::Error;
use crate::sys::{sys_chroot, sys_chdir, sys_fchdir, sys_open_dir, sys_close, sys_sleep, log_failure};
use crate::{FLAG_BIND, ERRNO_EBUSY};

verus! {

/// How many times the initial mount pass is attempted before giving up on a
/// busy resource.
pub const MOUNT_RETRIES: usize = 3;

/// Seconds waited between two attempts of the initial mount pass.
pub const MOUNT_RETRY_DELAY: u32 = 1;

/// One operation attempted on a container, as the ghost history records it.
pub enum Op {
    /// An attempt to apply the mount table.
    Mount,
    /// An attempt to release every live mount.
    Umount,
    /// An attempt to enter the jail.
    Chroot,
    /// An attempt to leave the jail.
    ExitChroot,
}

/// The description [`Container::bind_mount`] files for a bind mount.
pub open spec fn bind_target_view(target: Seq<char>) -> MountTargetView {
    MountTargetView { target: target, fstype: Option::None, flags: FLAG_BIND, data: Option::None }
}

/// The four entries every new container starts with: the `proc` and `sysfs`
/// virtual filesystems, and bind mounts of `/dev` and `/dev/pts`.
pub open spec fn default_entries() -> Seq<EntryView> {
    seq![
        EntryView {
            source: "/proc"@,
            mt: MountTargetView {
                target: "proc"@,
                fstype: Option::Some("proc"@),
                flags: 0,
                data: Option::None,
            },
        },
        EntryView {
            source: "/sys"@,
            mt: MountTargetView {
                target: "sys"@,
                fstype: Option::Some("sysfs"@),
                flags: 0,
                data: Option::None,
            },
        },
        EntryView { source: "/dev"@, mt: bind_target_view("dev"@) },
        EntryView { source: "/dev/pts"@, mt: bind_target_view("dev/pts"@) },
    ]
}

/// The four default sources are pairwise distinct paths.
proof fn lemma_default_sources_distinct()
    ensures
        "/proc"@ != "/sys"@,
        "/proc"@ != "/dev"@,
        "/proc"@ != "/dev/pts"@,
        "/sys"@ != "/dev"@,
        "/sys"@ != "/dev/pts"@,
        "/dev"@ != "/dev/pts"@,
{
    reveal_strlit("/proc");
    reveal_strlit("/sys");
    reveal_strlit("/dev");
    reveal_strlit("/dev/pts");
    assert("/proc"@.len() == 5);
    assert("/sys"@.len() == 4);
    assert("/dev"@.len() == 4);
    assert("/dev/pts"@.len() == 8);
    assert("/sys"@[1] == 's');
    assert("/dev"@[1] == 'd');
}

/// The container-level operations a successful setup phase appends: an
/// implicit mount when not yet mounted, then the chroot entry when not yet
/// inside.
pub open spec fn setup_ops(mounted: bool, chrooted: bool) -> Seq<Op> {
    (if !mounted {
        seq![Op::Mount]
    } else {
        Seq::<Op>::empty()
    }) + (if !chrooted {
        seq![Op::Chroot]
    } else {
        Seq::<Op>::empty()
    })
}

/// The container-level operations teardown-on-drop appends: leaving the
/// jail when still inside comes strictly before releasing the mounts when
/// still mounted.
pub open spec fn teardown_ops(chrooted: bool, mounted: bool) -> Seq<Op> {
    (if chrooted {
        seq![Op::ExitChroot]
    } else {
        Seq::<Op>::empty()
    }) + (if mounted {
        seq![Op::Umount]
    } else {
        Seq::<Op>::empty()
    })
}

/// What a failed mount pass leaves behind. The failing attempt had
/// established a strict prefix of the apply order; either no retry had
/// intervened — the prefix sits on top of the handles that were live
/// before, and nothing was released — or a busy attempt was first undone,
/// so the failing attempt started from a drained table and the handles once
/// live stand recorded as released.
pub open spec fn failed_mount_state(pre: Container, post: Container) -> bool {
    exists|k: int|
        #![trigger apply_targets(pre.table().entries(), pre.spec_root()).take(k)]
        0 <= k < apply_targets(pre.table().entries(), pre.spec_root()).len() && {
            let p = apply_targets(pre.table().entries(), pre.spec_root()).take(k);
            ||| (post.table().live_mounts() == pre.table().live_mounts() + p && post.table().released()
                == pre.table().released())
            ||| (post.table().live_mounts() == p && pre.table().released().is_prefix_of(
                post.table().released(),
            ))
        }
}

/// A table application that failed during the mount pass yields the
/// failed-state summary — and cannot happen at all on an empty table, whose
/// apply order is empty.
proof fn lemma_mount_attempt_failed(
    pre: Container,
    post: Container,
    e: Error,
    live0: Seq<Seq<char>>,
    rel0: Seq<Seq<char>>,
)
    requires
        partial_mount_failure(
            e,
            live0,
            post.table().live_mounts(),
            apply_targets(pre.table().entries(), pre.spec_root()),
        ),
        post.table().released() == rel0,
        (live0 == pre.table().live_mounts() && rel0 == pre.table().released()) || (live0
            == Seq::<Seq<char>>::empty() && pre.table().released().is_prefix_of(rel0)),
    ensures
        failed_mount_state(pre, post),
        pre.table().entries().len() > 0,
{
    let ts = apply_targets(pre.table().entries(), pre.spec_root());
    let k = choose|k: int|
        0 <= k < ts.len() && post.table().live_mounts() == live0 + #[trigger] ts.take(k) && (
        match e {
            Error::DirCreate { target, .. } => target@ == ts[k],
            Error::Mount { target, .. } => target@ == ts[k],
            _ => false,
        });
    if live0 == Seq::<Seq<char>>::empty() {
        assert(Seq::<Seq<char>>::empty() + ts.take(k) =~= ts.take(k));
    }
    assert(apply_targets(pre.table().entries(), pre.spec_root()).take(k) == ts.take(k));
    lemma_apply_order_len(pre.table().entries());
}

/// A chroot jail: one mount table, the jail's root path, the two state
/// flags, and the saved handles of the pre-chroot working directory and the
/// real filesystem root, used to come back out.
///
/// The root directory and working directory are process-wide kernel state,
/// so exactly one container may drive them at a time; nothing here is safe
/// to use from two threads at once.
pub struct Container {
    pub root: String,
    pub mount_table: MountTable,
    mounted: bool,
    chrooted: bool,
    sysroot: i32,
    pwd: i32,
    history: Ghost<Seq<Op>>,
}

/// True when a call changed nothing but the mount table's mapping.
pub open spec fn only_table_changed(pre: Container, post: Container) -> bool {
    &&& post.spec_root() == pre.spec_root()
    &&& post.is_mounted() == pre.is_mounted()
    &&& post.is_chrooted() == pre.is_chrooted()
    &&& post.history() == pre.history()
    &&& post.table().live_mounts() == pre.table().live_mounts()
    &&& post.table().released() == pre.table().released()
}

impl Container {
    /// The jail's root path, as contracts see it.
    pub closed spec fn spec_root(&self) -> Seq<char> {
        self.root@
    }

    /// The mount table, as contracts see it.
    pub closed spec fn table(&self) -> MountTable {
        self.mount_table
    }

    /// Whether the table's mounts are currently applied.
    pub closed spec fn is_mounted(&self) -> bool {
        self.mounted
    }

    /// Whether the process is currently inside the jail.
    pub closed spec fn is_chrooted(&self) -> bool {
        self.chrooted
    }

    /// Every operation attempted on this container, in order.
    pub closed spec fn history(&self) -> Seq<Op> {
        self.history@
    }

    /// A container is well-formed when its table is.
    pub open spec fn wf(&self) -> bool {
        self.table().wf()
    }

    /// Creates a container that will jail the process under `chrootpath`:
    /// captures handles to the current working directory and the real root
    /// (for the way back out), and files the default virtual-filesystem
    /// entries. Mounts nothing yet. Fails only when a handle cannot be
    /// captured.
    pub fn new(chrootpath: String) -> (r: Result<Container, Error>)
        ensures
            (match r {
                Result::Ok(c) => {
                    &&& c.wf()
                    &&& c.spec_root() == chrootpath@
                    &&& !c.is_mounted()
                    &&& !c.is_chrooted()
                    &&& c.history() == Seq::<Op>::empty()
                    &&& c.table().entries() == default_entries()
                    &&& c.table().live_mounts() == Seq::<Seq<char>>::empty()
                    &&& c.table().released() == Seq::<Seq<char>>::empty()
                },
                Result::Err(e) => e is Chdir,
            }),
    {
        let pwd = match sys_open_dir("/proc/self/cwd") {
            Result::Ok(fd) => fd,
            Result::Err(errno) => {
                return Result::Err(Error::Chdir { errno });
            },
        };
        let sysroot = match sys_open_dir("/") {
            Result::Ok(fd) => fd,
            Result::Err(errno) => {
                let _ = sys_close(pwd);
                return Result::Err(Error::Chdir { errno });
            },
        };
        let mut c = Container {
            root: chrootpath,
            mount_table: MountTable::new(),
            mounted: false,
            chrooted: false,
            sysroot,
            pwd,
            history: Ghost(Seq::empty()),
        };
        c.setup_minimal_mounts();
        Result::Ok(c)
    }

    /// Files the default virtual-filesystem set in the (still empty) table.
    fn setup_minimal_mounts(&mut self)
        requires
            old(self).wf(),
            old(self).table().entries() == Seq::<EntryView>::empty(),
        ensures
            final(self).wf(),
            only_table_changed(*old(self), *final(self)),
            final(self).table().entries() == default_entries(),
    {
        let proc_mt = MountTarget::new(
            "proc".to_owned(),
            Option::Some("proc".to_owned()),
            0,
            Option::None,
        );
        self.mount_table.add_mount(proc_mt, "/proc".to_owned());
        let sys_mt = MountTarget::new(
            "sys".to_owned(),
            Option::Some("sysfs".to_owned()),
            0,
            Option::None,
        );
        self.mount_table.add_mount(sys_mt, "/sys".to_owned());
        proof {
            lemma_default_sources_distinct();
            assert(self.table().entries() =~= default_entries().take(2));
        }
        self.bind_mount("/dev".to_owned(), "dev".to_owned());
        proof {
            lemma_default_sources_distinct();
            assert(self.table().entries() =~= default_entries().take(3));
        }
        self.bind_mount("/dev/pts".to_owned(), "dev/pts".to_owned());
        proof {
            lemma_default_sources_distinct();
            assert(final(self).table().entries() =~= default_entries());
        }
    }

    /// Adds an additional mount to the container's table; the last write
    /// for a given source wins. Nothing is applied until `mount` runs.
    pub fn add_mount(&mut self, mount: MountTarget, source: String)
        requires
            old(self).wf(),
        ensures
            final(self).wf(),
            only_table_changed(*old(self), *final(self)),
            lookup(final(self).table().entries(), source@) == Option::Some(mount@),
            forall|key: Seq<char>|
                key != source@ ==> lookup(final(self).table().entries(), key) == lookup(
                    old(self).table().entries(),
                    key,
                ),
            (exists|k: int|
                0 <= k < old(self).table().entries().len() && old(
                    self,
                ).table().entries()[k].source == source@ && final(self).table().entries()
                    == old(self).table().entries().update(
                    k,
                    (EntryView { source: source@, mt: mount@ }),
                )) || ((forall|k: int|
                0 <= k < old(self).table().entries().len() ==> (#[trigger] old(
                    self,
                ).table().entries()[k]).source != source@) && final(self).table().entries()
                == old(self).table().entries().push(
                (EntryView { source: source@, mt: mount@ }),
            )),
    {
        self.mount_table.add_mount(mount, source);
    }

    /// Adds a bind mount of `source` at `target` inside the container.
    pub fn bind_mount(&mut self, source: String, target: String)
        requires
            old(self).wf(),
        ensures
            final(self).wf(),
            only_table_changed(*old(self), *final(self)),
            lookup(final(self).table().entries(), source@) == Option::Some(
                bind_target_view(target@),
            ),
            forall|key: Seq<char>|
                key != source@ ==> lookup(final(self).table().entries(), key) == lookup(
                    old(self).table().entries(),
                    key,
                ),
            (exists|k: int|
                0 <= k < old(self).table().entries().len() && old(
                    self,
                ).table().entries()[k].source == source@ && final(self).table().entries()
                    == old(self).table().entries().update(
                    k,
                    (EntryView { source: source@, mt: bind_target_view(target@) }),
                )) || ((forall|k: int|
                0 <= k < old(self).table().entries().len() ==> (#[trigger] old(
                    self,
                ).table().entries()[k]).source != source@) && final(self).table().entries()
                == old(self).table().entries().push(
                (EntryView { source: source@, mt: bind_target_view(target@) }),
            )),
    {
        let mt = MountTarget { target, fstype: Option::None, flags: FLAG_BIND, data: Option::None };
        self.mount_table.add_mount(mt, source);
    }

    /// Adds a bind mount of the system's root filesystem at `/run/host`
    /// inside the container.
    pub fn host_bind_mount(&mut self)
        requires
            old(self).wf(),
        ensures
            final(self).wf(),
            only_table_changed(*old(self), *final(self)),
            lookup(final(self).table().entries(), "/"@) == Option::Some(
                bind_target_view("/run/host"@),
            ),
            forall|key: Seq<char>|
                key != "/"@ ==> lookup(final(self).table().entries(), key) == lookup(
                    old(self).table().entries(),
                    key,
                ),
    {
        self.bind_mount("/".to_owned(), "/run/host".to_owned());
    }

    /// Applies the mount table under the container's root, retrying a
    /// bounded number of times when the kernel reports the resource busy —
    /// a previous jail's unmount may still be settling — with a fixed delay
    /// between attempts, and undoing the partial work before each retry. An
    /// empty table asks the kernel for nothing and always succeeds. On
    /// success the container is mounted and the live handles are exactly the
    /// application order (on top of whatever was live before when the first
    /// attempt succeeded; with nothing released unless a retry intervened).
    /// A failure that is not busyness propagates at once; exhausting the
    /// retries is its own failure; either way the failing attempt left a
    /// strict prefix of the application order live.
    pub fn mount(&mut self) -> (r: Result<(), Error>)
        ensures
            final(self).spec_root() == old(self).spec_root(),
            final(self).is_chrooted() == old(self).is_chrooted(),
            final(self).table().entries() == old(self).table().entries(),
            final(self).history() == old(self).history().push(Op::Mount),
            old(self).table().entries().len() == 0 ==> r is Ok,
            (match r {
                Result::Ok(_) => {
                    let live1 = final(self).table().live_mounts();
                    let rel0 = old(self).table().released();
                    let rel1 = final(self).table().released();
                    let ts = apply_targets(old(self).table().entries(), old(self).spec_root());
                    &&& final(self).is_mounted()
                    &&& ((live1 == old(self).table().live_mounts() + ts && rel1 == rel0) || (
                    live1 == ts && rel0.is_prefix_of(rel1)))
                },
                Result::Err(e) => final(self).is_mounted() == old(self).is_mounted()
                    && failed_mount_state(*old(self), *final(self)) && (match e {
                    Error::DirCreate { .. } => true,
                    Error::Mount { errno, .. } => errno != ERRNO_EBUSY,
                    Error::RetryExhausted { errno } => errno == ERRNO_EBUSY,
                    _ => false,
                }),
            }),
    {
        let ghost pre = *self;
        proof {
            self.history@ = self.history@.push(Op::Mount);
        }
        let mut attempt: usize = 0;
        loop
            invariant
                pre == *old(self),
                attempt < MOUNT_RETRIES,
                self.root@ == pre.spec_root(),
                self.is_chrooted() == pre.is_chrooted(),
                self.is_mounted() == pre.is_mounted(),
                self.mount_table.entries() == pre.table().entries(),
                self.history@ == pre.history@.push(Op::Mount),
                (self.mount_table.live_mounts() == pre.table().live_mounts()
                    && self.mount_table.released() == pre.table().released()) || (
                self.mount_table.live_mounts() == Seq::<Seq<char>>::empty()
                    && pre.table().released().is_prefix_of(self.mount_table.released())),
            decreases MOUNT_RETRIES - attempt,
        {
            let ghost live0 = self.mount_table.live_mounts();
            let ghost rel0 = self.mount_table.released();
            let res = self.mount_table.mount_chroot(self.root.as_str());
            match res {
                Result::Ok(()) => {
                    self.mounted = true;
                    proof {
                        if live0 == Seq::<Seq<char>>::empty() {
                            assert(Seq::<Seq<char>>::empty() + apply_targets(
                                pre.table().entries(),
                                pre.spec_root(),
                            ) =~= apply_targets(pre.table().entries(), pre.spec_root()));
                        }
                    }
                    return Result::Ok(());
                },
                Result::Err(e) => {
                    proof {
                        lemma_mount_attempt_failed(pre, *self, e, live0, rel0);
                    }
                    let busy = match &e {
                        Error::Mount { errno, .. } => *errno == ERRNO_EBUSY,
                        _ => false,
                    };
                    if !busy {
                        return Result::Err(e);
                    }
                    if attempt + 1 == MOUNT_RETRIES {
                        return Result::Err(Error::RetryExhausted { errno: ERRNO_EBUSY });
                    }
                    let _ = self.mount_table.umount_chroot();
                    proof {
                        assert(pre.table().released().is_prefix_of(self.mount_table.released()))
                            by {
                            assert(self.mount_table.released().subrange(
                                0,
                                pre.table().released().len() as int,
                            ) =~= pre.table().released());
                        }
                    }
                    sys_sleep(MOUNT_RETRY_DELAY);
                    attempt = attempt + 1;
                },
            }
        }
    }

    /// Releases every mount the table holds, newest first; on success the
    /// container is no longer mounted. Even on failure every handle has been
    /// consumed — the first failure is what is reported.
    pub fn umount(&mut self) -> (r: Result<(), Error>)
        ensures
            final(self).spec_root() == old(self).spec_root(),
            final(self).is_chrooted() == old(self).is_chrooted(),
            final(self).table().entries() == old(self).table().entries(),
            final(self).history() == old(self).history().push(Op::Umount),
            final(self).table().live_mounts() == Seq::<Seq<char>>::empty(),
            final(self).table().released() == old(self).table().released() + old(
                self,
            ).table().live_mounts().reverse(),
            (match r {
                Result::Ok(_) => !final(self).is_mounted(),
                Result::Err(e) => final(self).is_mounted() == old(self).is_mounted() && (match e {
                    Error::Unmount { target, .. } => old(self).table().live_mounts().contains(
                        target@,
                    ),
                    _ => false,
                }),
            }),
        opens_invariants none
        no_unwind
    {
        proof {
            self.history@ = self.history@.push(Op::Umount);
        }
        match self.mount_table.umount_chroot() {
            Result::Ok(()) => {
                self.mounted = false;
                Result::Ok(())
            },
            Result::Err(e) => Result::Err(e),
        }
    }

    /// Enters the jail. A container already inside is left exactly as it
    /// is — entering twice is a no-op, never a double-enter. When not yet
    /// mounted, exactly one implicit mount pass runs first, and only then
    /// the chroot syscall, followed by a change of working directory to the
    /// new root.
    pub fn chroot(&mut self) -> (r: Result<(), Error>)
        ensures
            final(self).spec_root() == old(self).spec_root(),
            final(self).table().entries() == old(self).table().entries(),
            old(self).is_mounted() ==> final(self).table().live_mounts() == old(
                self,
            ).table().live_mounts() && final(self).table().released() == old(
                self,
            ).table().released(),
            old(self).is_chrooted() ==> r is Ok && *final(self) == *old(self),
            !old(self).is_chrooted() ==> (match r {
                Result::Ok(_) => final(self).is_chrooted() && final(self).is_mounted()
                    && final(self).history() == old(self).history() + setup_ops(
                    old(self).is_mounted(),
                    false,
                ),
                Result::Err(e) => match e {
                    Error::Chroot { .. } => !final(self).is_chrooted() && final(self).is_mounted()
                        && final(self).history() == old(self).history() + setup_ops(
                        old(self).is_mounted(),
                        false,
                    ),
                    Error::Chdir { .. } => final(self).is_chrooted() && final(self).is_mounted()
                        && final(self).history() == old(self).history() + setup_ops(
                        old(self).is_mounted(),
                        false,
                    ),
                    _ => !old(self).is_mounted() && !final(self).is_chrooted()
                        && !final(self).is_mounted() && final(self).history() == old(
                        self,
                    ).history().push(Op::Mount),
                },
            }),
    {
        if self.chrooted {
            return Result::Ok(());
        }
        let ghost pre = *self;
        if !self.mounted {
            match self.mount() {
                Result::Ok(()) => {},
                Result::Err(e) => {
                    return Result::Err(e);
                },
            }
        }
        proof {
            self.history@ = self.history@.push(Op::Chroot);
            assert(self.history@ =~= pre.history@ + setup_ops(pre.mounted, false));
        }
        match sys_chroot(self.root.as_str()) {
            Result::Ok(()) => {},
            Result::Err(errno) => {
                return Result::Err(Error::Chroot { errno });
            },
        }
        self.chrooted = true;
        match sys_chdir("/") {
            Result::Ok(()) => {},
            Result::Err(errno) => {
                return Result::Err(Error::Chdir { errno });
            },
        }
        Result::Ok(())
    }

    /// Leaves the jail: moves to the saved real-root handle, chroots to the
    /// directory now at hand, and returns to the saved working directory —
    /// by handle, not by path, so this works even if the paths involved were
    /// unmounted or renamed meanwhile. On success the container is no longer
    /// chrooted; in no case does this enter a jail.
    pub fn exit_chroot(&mut self) -> (r: Result<(), Error>)
        ensures
            final(self).spec_root() == old(self).spec_root(),
            final(self).is_mounted() == old(self).is_mounted(),
            final(self).table().entries() == old(self).table().entries(),
            final(self).table().live_mounts() == old(self).table().live_mounts(),
            final(self).table().released() == old(self).table().released(),
            final(self).history() == old(self).history().push(Op::ExitChroot),
            (match r {
                Result::Ok(_) => !final(self).is_chrooted(),
                Result::Err(e) => (e is Chdir || e is Chroot) && (final(self).is_chrooted()
                    ==> old(self).is_chrooted()) && (e is Chroot ==> final(self).is_chrooted()
                    == old(self).is_chrooted()),
            }),
        opens_invariants none
        no_unwind
    {
        proof {
            self.history@ = self.history@.push(Op::ExitChroot);
        }
        match sys_fchdir(self.sysroot) {
            Result::Ok(()) => {},
            Result::Err(errno) => {
                return Result::Err(Error::Chdir { errno });
            },
        }
        match sys_chroot(".") {
            Result::Ok(()) => {},
            Result::Err(errno) => {
                return Result::Err(Error::Chroot { errno });
            },
        }
        self.chrooted = false;
        match sys_fchdir(self.pwd) {
            Result::Ok(()) => {},
            Result::Err(errno) => {
                return Result::Err(Error::Chdir { errno });
            },
        }
        Result::Ok(())
    }

    /// Runs the caller's work inside the jail: mounts and enters as needed,
    /// calls the closure, then attempts to leave and to unmount — each
    /// exactly once, in that order, and the unmount is attempted even when
    /// leaving failed. On full success the closure's own result comes back
    /// and the container is left unmounted and outside the jail. A failure
    /// belongs to one of three phases, each pinned by the contract: the
    /// implicit mount failed (possible only when not yet mounted, and then
    /// no chroot was issued and the work never started), entering failed, or
    /// — setup done and the work run — a teardown step failed, with both
    /// teardown steps still attempted and the first failure reported, so a
    /// teardown error never hides a setup error.
    pub fn run<T, F: FnOnce() -> T>(&mut self, f: F) -> (r: Result<T, Error>)
        requires
            call_requires(f, ()),
        ensures
            final(self).spec_root() == old(self).spec_root(),
            final(self).table().entries() == old(self).table().entries(),
            (match r {
                Result::Ok(t) => {
                    &&& call_ensures(f, (), t)
                    &&& !final(self).is_chrooted()
                    &&& !final(self).is_mounted()
                    &&& final(self).table().live_mounts() == Seq::<Seq<char>>::empty()
                    &&& final(self).history() == old(self).history() + setup_ops(
                        old(self).is_mounted(),
                        old(self).is_chrooted(),
                    ) + seq![Op::ExitChroot, Op::Umount]
                },
                Result::Err(e) => {
                    ||| ({
                        // the implicit mount failed: no chroot was issued and
                        // the work never started
                        &&& !old(self).is_mounted()
                        &&& (e is DirCreate || e is Mount || e is RetryExhausted)
                        &&& !final(self).is_mounted()
                        &&& final(self).is_chrooted() == old(self).is_chrooted()
                        &&& failed_mount_state(*old(self), *final(self))
                        &&& final(self).history() == old(self).history().push(Op::Mount)
                    })
                    ||| ({
                        // entering failed after the table stood applied; the
                        // work never started
                        &&& !old(self).is_chrooted()
                        &&& (e is Chroot || e is Chdir)
                        &&& final(self).is_mounted()
                        &&& (e is Chroot ==> !final(self).is_chrooted())
                        &&& (e is Chdir ==> final(self).is_chrooted())
                        &&& (old(self).is_mounted() ==> final(self).table().live_mounts() == old(
                            self,
                        ).table().live_mounts())
                        &&& final(self).history() == old(self).history() + setup_ops(
                            old(self).is_mounted(),
                            old(self).is_chrooted(),
                        )
                    })
                    ||| ({
                        // setup succeeded and the work ran; a teardown step
                        // failed, yet both teardown steps were still
                        // attempted — leaving the jail before unmounting —
                        // and no live handle remains
                        &&& (e is Unmount || e is Chroot || e is Chdir)
                        &&& (exists|t: T| call_ensures(f, (), t))
                        &&& final(self).table().live_mounts() == Seq::<Seq<char>>::empty()
                        &&& (e is Unmount ==> !final(self).is_chrooted())
                        &&& final(self).history() == old(self).history() + setup_ops(
                            old(self).is_mounted(),
                            old(self).is_chrooted(),
                        ) + seq![Op::ExitChroot, Op::Umount]
                    })
                },
            }),
    {
        let ghost pre = *self;
        if !self.mounted {
            match self.mount() {
                Result::Ok(()) => {},
                Result::Err(e) => {
                    return Result::Err(e);
                },
            }
        }
        if !self.chrooted {
            match self.chroot() {
                Result::Ok(()) => {},
                Result::Err(e) => {
                    proof {
                        assert(self.history@ =~= pre.history@ + setup_ops(
                            pre.mounted,
                            pre.chrooted,
                        ));
                    }
                    return Result::Err(e);
                },
            }
        }
        proof {
            assert(self.history@ =~= pre.history@ + setup_ops(pre.mounted, pre.chrooted));
        }
        let ghost h1 = self.history@;
        let ret = f();
        proof {
            assert(call_ensures(f, (), ret));
        }
        let r1 = self.exit_chroot();
        let r2 = self.umount();
        proof {
            assert(h1 == pre.history@ + setup_ops(pre.mounted, pre.chrooted));
            assert(self.history@ == h1.push(Op::ExitChroot).push(Op::Umount));
            assert(h1 + seq![Op::ExitChroot, Op::Umount] =~= h1.push(Op::ExitChroot).push(
                Op::Umount,
            ));
            assert(self.history@ =~= pre.history@ + setup_ops(pre.mounted, pre.chrooted) + seq![
                Op::ExitChroot,
                Op::Umount,
            ]);
        }
        match r1 {
            Result::Err(e) => Result::Err(e),
            Result::Ok(()) => match r2 {
                Result::Err(e) => Result::Err(e),
                Result::Ok(()) => Result::Ok(ret),
            },
        }
    }
}

/// Writes one line to standard error naming the failed step and its errno.
fn log_error(what: &str, e: &Error)
    opens_invariants none
    no_unwind
{
    match e {
        Error::DirCreate { errno, .. } => log_failure(what, *errno),
        Error::Mount { errno, .. } => log_failure(what, *errno),
        Error::Unmount { errno, .. } => log_failure(what, *errno),
        Error::Chroot { errno } => log_failure(what, *errno),
        Error::Chdir { errno } => log_failure(what, *errno),
        Error::RetryExhausted { errno } => log_failure(what, *errno),
    }
}

impl Drop for Container {
    /// Teardown on scope exit: if still inside the jail, leave it; if still
    /// mounted, release every mount; then close the saved directory
    /// handles. No error channel exists here, so failures are reported on
    /// standard error rather than swallowed.
    fn drop(&mut self)
        ensures
            final(self).history() == old(self).history() + teardown_ops(
                old(self).is_chrooted(),
                old(self).is_mounted(),
            ),
            old(self).is_mounted() ==> final(self).table().live_mounts() == Seq::<
                Seq<char>,
            >::empty(),
            old(self).is_mounted() ==> final(self).table().released() == old(
                self,
            ).table().released() + old(self).table().live_mounts().reverse(),
        opens_invariants none
        no_unwind
    {
        let ghost pre = *self;
        if self.chrooted {
            match self.exit_chroot() {
                Result::Ok(()) => {},
                Result::Err(e) => {
                    log_error("exit-chroot on drop", &e);
                },
            }
        }
        if self.mounted {
            match self.umount() {
                Result::Ok(()) => {},
                Result::Err(e) => {
                    log_error("umount on drop", &e);
                },
            }
        }
        proof {
            assert(self.history@ =~= pre.history@ + teardown_ops(pre.chrooted, pre.mounted));
        }
        let _ = sys_close(self.sysroot);
        let _ = sys_close(self.pwd);
    }
}

} // verus!
