//! The description of a single mount point: where it lands inside the jail,
//! which filesystem type it asks for, its mount flags, and its data string.

use vstd::prelude::*;
use vstd::string::*;
use crate::pathspec::{resolved_target_spec, join, strip_leading};
use crate::errors::Error;
use crate::sys::{sys_mount_at, sys_umount_path, sys_mkdir, sys_unmount_detach};
use crate::ERRNO_EEXIST;

verus! {

/// An owned token for one live kernel mount: releasing it detaches the
/// mount. Its view is the absolute path the mount sits on.
pub struct LiveMount {
    handle: crate::sys::MountHandle,
    target: String,
}

impl View for LiveMount {
    type V = Seq<char>;

    closed spec fn view(&self) -> Seq<char> {
        self.target@
    }
}

impl LiveMount {
    /// The absolute path this mount sits on.
    pub fn target_path(&self) -> (r: &String)
        ensures
            r@ == self@,
    {
        &self.target
    }

    /// Lazily detaches the mount this token stands for, consuming the token;
    /// a busy mount still leaves the namespace at once. Hands back the
    /// target path alongside the outcome.
    pub(crate) fn release(self) -> (r: (String, Result<(), i32>))
        ensures
            r.0@ == self@,
        opens_invariants none
        no_unwind
    {
        let LiveMount { handle, target } = self;
        let res = sys_unmount_detach(handle);
        (target, res)
    }
}

/// Ghost image of a [`MountTarget`]: the same four fields over mathematical
/// sequences.
#[verifier::ext_equal]
pub ghost struct MountTargetView {
    pub target: Seq<char>,
    pub fstype: Option<Seq<char>>,
    pub flags: u64,
    pub data: Option<Seq<char>>,
}

/// What an optional string means in contracts.
pub open spec fn opt_view(o: Option<String>) -> Option<Seq<char>> {
    match o {
        Option::None => Option::None,
        Option::Some(s) => Option::Some(s@),
    }
}

/// Immutable description of one mount point: the target path relative to the
/// jail root (a leading separator is tolerated and stripped on use), an
/// optional filesystem type, a bitset of mount flags, and an optional
/// filesystem-specific data string.
#[derive(Debug)]
pub struct MountTarget {
    pub target: String,
    pub fstype: Option<String>,
    pub flags: u64,
    pub data: Option<String>,
}

impl View for MountTarget {
    type V = MountTargetView;

    open spec fn view(&self) -> MountTargetView {
        MountTargetView {
            target: self.target@,
            fstype: opt_view(self.fstype),
            flags: self.flags,
            data: opt_view(self.data),
        }
    }
}

/// Duplicates an optional string.
fn clone_opt_string(o: &Option<String>) -> (r: Option<String>)
    ensures
        r == *o,
{
    match o {
        Option::None => Option::None,
        Option::Some(s) => Option::Some(s.clone()),
    }
}

impl Clone for MountTarget {
    fn clone(&self) -> (r: Self)
        ensures
            r == *self,
    {
        MountTarget {
            target: self.target.clone(),
            fstype: clone_opt_string(&self.fstype),
            flags: self.flags,
            data: clone_opt_string(&self.data),
        }
    }
}

/// Compares two optional strings by contents.
fn opt_string_eq(a: &Option<String>, b: &Option<String>) -> (r: bool)
    ensures
        r == (opt_view(*a) == opt_view(*b)),
{
    match (a, b) {
        (Option::None, Option::None) => true,
        (Option::Some(x), Option::Some(y)) => x.eq(y),
        _ => false,
    }
}

impl PartialEq for MountTarget {
    /// Two descriptions are equal when all four fields agree.
    fn eq(&self, other: &Self) -> (r: bool) {
        let same = self.target == other.target && opt_string_eq(&self.fstype, &other.fstype)
            && self.flags == other.flags && opt_string_eq(&self.data, &other.data);
        proof {
            if same {
                assert(self@ =~= other@);
            }
        }
        same
    }
}

impl Eq for MountTarget {

}

impl vstd::std_specs::cmp::PartialEqSpecImpl for MountTarget {
    open spec fn obeys_eq_spec() -> bool {
        true
    }

    open spec fn eq_spec(&self, other: &Self) -> bool {
        self@ == other@
    }
}

impl Default for MountTarget {
    /// A mount of nothing: empty target, no filesystem type, no flags, no
    /// data.
    fn default() -> (r: Self)
        ensures
            r@ == (MountTargetView {
                target: Seq::<char>::empty(),
                fstype: Option::None,
                flags: 0,
                data: Option::None,
            }),
    {
        MountTarget { target: String::new(), fstype: Option::None, flags: 0, data: Option::None }
    }
}

impl MountTarget {
    /// Create a new mount description.
    pub fn new(target: String, fstype: Option<String>, flags: u64, data: Option<String>) -> (r:
        Self)
        ensures
            r@ == (MountTargetView {
                target: target@,
                fstype: opt_view(fstype),
                flags: flags,
                data: opt_view(data),
            }),
    {
        MountTarget { target, fstype, flags, data }
    }

    /// The absolute path this mount lands on once applied under `root`: any
    /// leading separator on the target is stripped, so the target is always
    /// interpreted relative to the jail root.
    pub fn resolved_target(&self, root: &str) -> (r: String)
        ensures
            r@ == resolved_target_spec(root@, self.target@),
    {
        let rel = strip_leading(self.target.as_str());
        join(root, rel)
    }

    /// Applies this description: creates the resolved target directory (and
    /// every missing parent) under `root`, then asks the kernel to mount
    /// `source` there. On success the returned handle owns the mount and its
    /// view is the resolved target; each failure identifies that same path
    /// and says whether directory preparation or the mount itself failed.
    pub fn mount(&self, source: &str, root: &str) -> (r: Result<LiveMount, Error>)
        ensures
            (match r {
                Result::Ok(lm) => lm@ == resolved_target_spec(root@, self.target@),
                Result::Err(e) => match e {
                    Error::DirCreate { target, errno } => target@ == resolved_target_spec(
                        root@,
                        self.target@,
                    ) && errno != crate::ERRNO_EEXIST,
                    Error::Mount { target, .. } => target@ == resolved_target_spec(
                        root@,
                        self.target@,
                    ),
                    _ => false,
                },
            }),
    {
        let full = self.resolved_target(root);
        match create_dir_all(&full) {
            Result::Ok(()) => {},
            Result::Err(errno) => {
                return Result::Err(Error::DirCreate { target: full, errno });
            },
        }
        match sys_mount_at(source, full.as_str(), &self.fstype, self.flags, &self.data) {
            Result::Ok(h) => Result::Ok(LiveMount { handle: h, target: full }),
            Result::Err(errno) => Result::Err(Error::Mount { target: full, errno }),
        }
    }

    /// Plainly unmounts whatever sits on this description's resolved target
    /// under `root`: the bare reversal used when no handle is at hand. A
    /// failure identifies that path.
    pub fn umount(&self, root: &str) -> (r: Result<(), Error>)
        ensures
            (match r {
                Result::Ok(_) => true,
                Result::Err(e) => match e {
                    Error::Unmount { target, .. } => target@ == resolved_target_spec(
                        root@,
                        self.target@,
                    ),
                    _ => false,
                },
            }),
    {
        let full = self.resolved_target(root);
        match sys_umount_path(full.as_str()) {
            Result::Ok(()) => Result::Ok(()),
            Result::Err(errno) => Result::Err(Error::Unmount { target: full, errno }),
        }
    }
}

/// Creates `path` and every missing parent directory; a path that already
/// exists is left alone — an already-existing directory is never a failure
/// here. On failure the errno of the `mkdir` that failed is returned.
fn create_dir_all(path: &String) -> (r: Result<(), i32>)
    ensures
        r is Err ==> r->Err_0 != ERRNO_EEXIST,
{
    let len = path.as_str().unicode_len();
    let mut i: usize = 0;
    while i < len
        invariant
            i <= len,
            len == path@.len(),
        decreases len - i,
    {
        if i > 0 && path.as_str().get_char(i) == '/' {
            let prefix = path.as_str().substring_char(0, i);
            match sys_mkdir(prefix) {
                Result::Ok(()) => {},
                Result::Err(e) => {
                    if e != ERRNO_EEXIST {
                        return Result::Err(e);
                    }
                },
            }
        }
        i = i + 1;
    }
    if len > 0 {
        match sys_mkdir(path.as_str()) {
            Result::Ok(()) => Result::Ok(()),
            Result::Err(e) => {
                if e != ERRNO_EEXIST {
                    Result::Err(e)
                } else {
                    Result::Ok(())
                }
            },
        }
    } else {
        Result::Ok(())
    }
}

} // verus!
