//! The mount table: an fstab for the container. Each source path maps to at
//! most one mount description; applying the table mounts every entry in
//! application order and keeps the handles in the order established, so that
//! releasing them backward strictly undoes the mounts newest-first.

use vstd::prelude::*;
use crate::target::{MountTarget, MountTargetView, LiveMount};
use crate::order::{
    EntryView, entry_view, entries_view, apply_order, entry_le_ff, sort_pairs,
};
use crate::pathspec::resolved_target_spec;
use crate::errors::Error;

verus! {

/// The live mount handles as a stack: the most recently established mount
/// sits at the head, so walking the stack visits mounts newest-first.
enum HandleList {
    Nil,
    Cons(LiveMount, Box<HandleList>),
}

/// The targets of a handle stack, oldest mount first.
spec fn list_view(l: HandleList) -> Seq<Seq<char>>
    decreases l,
{
    match l {
        HandleList::Nil => Seq::empty(),
        HandleList::Cons(h, rest) => list_view(*rest).push(h@),
    }
}

/// No source path occurs twice.
pub open spec fn unique_sources(s: Seq<EntryView>) -> bool {
    forall|i: int, j: int|
        0 <= i < j < s.len() ==> (#[trigger] s[i]).source != (#[trigger] s[j]).source
}

/// What a sequence of entries maps `key` to: the last write wins.
pub open spec fn lookup(s: Seq<EntryView>, key: Seq<char>) -> Option<MountTargetView>
    decreases s.len(),
{
    if s.len() == 0 {
        Option::None
    } else if s.last().source == key {
        Option::Some(s.last().mt)
    } else {
        lookup(s.drop_last(), key)
    }
}

/// The resolved targets of `s`'s entries in application order under `root`.
pub open spec fn apply_targets(s: Seq<EntryView>, root: Seq<char>) -> Seq<Seq<char>> {
    apply_order(s).map_values(|e: EntryView| resolved_target_spec(root, e.mt.target))
}

/// What a failed table application leaves behind: some strict prefix of the
/// application order `ts` was established on top of `live0`, and the error
/// names the first target that failed.
pub open spec fn partial_mount_failure(
    e: Error,
    live0: Seq<Seq<char>>,
    live1: Seq<Seq<char>>,
    ts: Seq<Seq<char>>,
) -> bool {
    exists|k: int|
        0 <= k < ts.len() && live1 == live0 + #[trigger] ts.take(k) && (match e {
            Error::DirCreate { target, .. } => target@ == ts[k],
            Error::Mount { target, .. } => target@ == ts[k],
            _ => false,
        })
}

/// In a table with unique sources, the entry at `k` is what its source looks
/// up to.
proof fn lemma_lookup_at(s: Seq<EntryView>, k: int)
    requires
        unique_sources(s),
        0 <= k < s.len(),
    ensures
        lookup(s, s[k].source) == Option::Some(s[k].mt),
    decreases s.len(),
{
    if k < s.len() - 1 {
        assert(s.drop_last()[k] == s[k]);
        lemma_lookup_at(s.drop_last(), k);
    }
}

/// Overwriting the entry whose source is `e.source` changes only that key's
/// image.
proof fn lemma_lookup_update(s: Seq<EntryView>, k: int, e: EntryView, key: Seq<char>)
    requires
        unique_sources(s),
        0 <= k < s.len(),
        s[k].source == e.source,
    ensures
        key == e.source ==> lookup(s.update(k, e), key) == Option::Some(e.mt),
        key != e.source ==> lookup(s.update(k, e), key) == lookup(s, key),
    decreases s.len(),
{
    let t = s.update(k, e);
    if k == s.len() - 1 {
        assert(t.drop_last() =~= s.drop_last());
    } else {
        assert(t.drop_last() =~= s.drop_last().update(k, e));
        assert(s.drop_last()[k] == s[k]);
        lemma_lookup_update(s.drop_last(), k, e, key);
    }
}

/// Appending an entry changes only its own source's image.
proof fn lemma_lookup_push(s: Seq<EntryView>, e: EntryView, key: Seq<char>)
    ensures
        key == e.source ==> lookup(s.push(e), key) == Option::Some(e.mt),
        key != e.source ==> lookup(s.push(e), key) == lookup(s, key),
{
    assert(s.push(e).drop_last() =~= s);
}

/// A mount table: a mapping from source path to mount description (the
/// source is a unique key; the last write for a source wins), plus the list
/// of live mount handles produced by applying the table, in the order they
/// were established.
pub struct MountTable {
    inner: Vec<(String, MountTarget)>,
    live: HandleList,
    released: Ghost<Seq<Seq<char>>>,
}

impl MountTable {
    /// The table's entries, in insertion order.
    pub closed spec fn entries(&self) -> Seq<EntryView> {
        entries_view(self.inner@)
    }

    /// The resolved targets of the mounts this table holds live handles
    /// for, in the order they were established.
    pub closed spec fn live_mounts(&self) -> Seq<Seq<char>> {
        list_view(self.live)
    }

    /// The resolved targets of the mounts this table has released, in the
    /// order their unmounts were issued.
    pub closed spec fn released(&self) -> Seq<Seq<char>> {
        self.released@
    }

    /// A well-formed table maps each source to at most one description.
    /// Constructors establish this and every method preserves it.
    pub open spec fn wf(&self) -> bool {
        unique_sources(self.entries())
    }

    /// An empty table: no entries, no live handles.
    pub fn new() -> (r: Self)
        ensures
            r.wf(),
            r.entries() == Seq::<EntryView>::empty(),
            r.live_mounts() == Seq::<Seq<char>>::empty(),
            r.released() == Seq::<Seq<char>>::empty(),
    {
        let r = MountTable {
            inner: Vec::new(),
            live: HandleList::Nil,
            released: Ghost(Seq::empty()),
        };
        proof {
            assert(entries_view(r.inner@) =~= Seq::<EntryView>::empty());
        }
        r
    }

    /// Adds a mount to the table; the last write for a given source wins.
    pub fn add_mount(&mut self, mount: MountTarget, source: String)
        requires
            old(self).wf(),
        ensures
            final(self).wf(),
            final(self).live_mounts() == old(self).live_mounts(),
            final(self).released() == old(self).released(),
            lookup(final(self).entries(), source@) == Option::Some(mount@),
            forall|key: Seq<char>|
                key != source@ ==> lookup(final(self).entries(), key) == lookup(
                    old(self).entries(),
                    key,
                ),
            (exists|k: int|
                0 <= k < old(self).entries().len() && old(self).entries()[k].source == source@
                    && final(self).entries() == old(self).entries().update(
                    k,
                    (EntryView { source: source@, mt: mount@ }),
                )) || ((forall|k: int|
                0 <= k < old(self).entries().len() ==> (#[trigger] old(
                    self,
                ).entries()[k]).source != source@) && final(self).entries() == old(
                self,
            ).entries().push((EntryView { source: source@, mt: mount@ }))),
    {
        let ghost s0 = self.entries();
        let ghost e = EntryView { source: source@, mt: mount@ };
        let mut j: usize = 0;
        while j < self.inner.len()
            invariant
                *self == *old(self),
                s0 == self.entries(),
                unique_sources(s0),
                e == (EntryView { source: source@, mt: mount@ }),
                j <= s0.len(),
                s0.len() == self.inner@.len(),
                forall|k: int| 0 <= k < j ==> (#[trigger] s0[k]).source != source@,
            decreases s0.len() - j,
        {
            if self.inner[j].0 == source {
                let pair = (source, mount);
                self.inner.set(j, pair);
                proof {
                    assert(self.entries() =~= s0.update(j as int, e));
                    lemma_lookup_at(s0, j as int);
                    lemma_lookup_update(s0, j as int, e, source@);
                    assert forall|key: Seq<char>| key != source@ implies lookup(
                        self.entries(),
                        key,
                    ) == lookup(s0, key) by {
                        lemma_lookup_update(s0, j as int, e, key);
                    }
                    assert forall|a: int, b: int|
                        0 <= a < b < self.entries().len() implies (#[trigger] self.entries()[a])
                        .source != (#[trigger] self.entries()[b]).source by {
                        assert(s0[a].source != s0[b].source);
                    }
                }
                return ;
            }
            j = j + 1;
        }
        self.inner.push((source, mount));
        proof {
            assert(self.entries() =~= s0.push(e));
            lemma_lookup_push(s0, e, source@);
            assert forall|key: Seq<char>| key != source@ implies lookup(self.entries(), key)
                == lookup(s0, key) by {
                lemma_lookup_push(s0, e, key);
            }
        }
    }

    /// Replaces the table's mapping wholesale; a later pair wins over an
    /// earlier one with the same source, as the last write always does.
    pub fn set_table(&mut self, table: Vec<(String, MountTarget)>)
        ensures
            final(self).wf(),
            final(self).live_mounts() == old(self).live_mounts(),
            final(self).released() == old(self).released(),
            forall|key: Seq<char>|
                #[trigger] lookup(final(self).entries(), key) == lookup(
                    entries_view(table@),
                    key,
                ),
    {
        self.inner = Vec::new();
        proof {
            assert(self.entries() =~= Seq::<EntryView>::empty());
        }
        let mut i: usize = 0;
        while i < table.len()
            invariant
                i <= table@.len(),
                self.wf(),
                self.live_mounts() == old(self).live_mounts(),
                self.released() == old(self).released(),
                forall|key: Seq<char>|
                    #[trigger] lookup(self.entries(), key) == lookup(
                        entries_view(table@.take(i as int)),
                        key,
                    ),
            decreases table@.len() - i,
        {
            let p = &table[i];
            let m = p.1.clone();
            let s = p.0.clone();
            let ghost before = self.entries();
            self.add_mount(m, s);
            proof {
                let tv = entries_view(table@.take(i as int + 1));
                assert(tv =~= entries_view(table@.take(i as int)).push(
                    entry_view(table@[i as int]),
                ));
                assert forall|key: Seq<char>| #[trigger] lookup(self.entries(), key) == lookup(
                    tv,
                    key,
                ) by {
                    lemma_lookup_push(entries_view(table@.take(i as int)), entry_view(
                        table@[i as int],
                    ), key);
                }
            }
            i = i + 1;
        }
        proof {
            assert(table@.take(table@.len() as int) =~= table@);
        }
    }

    /// Adds an already-established live mount handle as the newest entry, so
    /// it is released before everything established earlier.
    pub fn add_sysmount(&mut self, mount: LiveMount)
        ensures
            final(self).entries() == old(self).entries(),
            final(self).released() == old(self).released(),
            final(self).live_mounts() == old(self).live_mounts().push(mount@),
    {
        let mut tmp = HandleList::Nil;
        core::mem::swap(&mut self.live, &mut tmp);
        self.live = HandleList::Cons(mount, Box::new(tmp));
    }

    /// A copy of the table's entries in application order: the root-targeted
    /// entry first, then shallower targets before deeper ones, every tie
    /// broken deterministically.
    pub fn sort_mounts(&self) -> (r: Vec<(String, MountTarget)>)
        ensures
            entries_view(r@) == apply_order(self.entries()),
    {
        sort_pairs(&self.inner)
    }

    /// Mounts every entry under `root`, in application order, appending one
    /// live handle per entry as it goes. On the first failure the handles
    /// established so far stay live and the error names the resolved target
    /// that failed; nothing is rolled back here.
    pub fn mount_chroot(&mut self, root: &str) -> (r: Result<(), Error>)
        ensures
            final(self).entries() == old(self).entries(),
            final(self).released() == old(self).released(),
            (match r {
                Result::Ok(_) => final(self).live_mounts() == old(self).live_mounts()
                    + apply_targets(old(self).entries(), root@),
                Result::Err(e) => partial_mount_failure(
                    e,
                    old(self).live_mounts(),
                    final(self).live_mounts(),
                    apply_targets(old(self).entries(), root@),
                ),
            }),
    {
        let order = self.sort_mounts();
        let ghost ts = apply_targets(old(self).entries(), root@);
        proof {
            assert(ts.take(0) =~= Seq::<Seq<char>>::empty());
            assert(self.live_mounts() =~= old(self).live_mounts() + ts.take(0));
        }
        let mut i: usize = 0;
        while i < order.len()
            invariant
                self.entries() == old(self).entries(),
                self.released() == old(self).released(),
                entries_view(order@) == apply_order(old(self).entries()),
                ts == apply_targets(old(self).entries(), root@),
                ts.len() == order@.len(),
                i <= order@.len(),
                self.live_mounts() == old(self).live_mounts() + ts.take(i as int),
            decreases order@.len() - i,
        {
            let p = &order[i];
            proof {
                assert(entries_view(order@)[i as int] == entry_view(order@[i as int]));
                assert(ts[i as int] == resolved_target_spec(root@, order@[i as int].1@.target));
            }
            match p.1.mount(p.0.as_str(), root) {
                Result::Ok(lm) => {
                    let mut tmp = HandleList::Nil;
                    core::mem::swap(&mut self.live, &mut tmp);
                    self.live = HandleList::Cons(lm, Box::new(tmp));
                    proof {
                        assert(self.live_mounts() =~= old(self).live_mounts() + ts.take(
                            i as int + 1,
                        ));
                    }
                },
                Result::Err(e) => {
                    proof {
                        assert(self.live_mounts() == old(self).live_mounts() + ts.take(i as int));
                    }
                    return Result::Err(e);
                },
            }
            i = i + 1;
        }
        proof {
            assert(ts.take(ts.len() as int) =~= ts);
        }
        Result::Ok(())
    }

    /// Releases every live handle in exact reverse of the order the mounts
    /// were established, newest first, using a lazy detach so a busy mount
    /// still leaves the namespace. The handle list is drained as it goes —
    /// a handle is never released twice — and every handle is consumed even
    /// when one release fails; the first failure is reported.
    pub fn umount_chroot(&mut self) -> (r: Result<(), Error>)
        ensures
            final(self).entries() == old(self).entries(),
            final(self).live_mounts() == Seq::<Seq<char>>::empty(),
            final(self).released() == old(self).released() + old(self).live_mounts().reverse(),
            (match r {
                Result::Ok(_) => true,
                Result::Err(e) => match e {
                    Error::Unmount { target, .. } => old(self).live_mounts().contains(target@),
                    _ => false,
                },
            }),
        opens_invariants none
        no_unwind
    {
        let ghost lv = old(self).live_mounts();
        let mut first_err: Option<Error> = Option::None;
        proof {
            assert(lv.take(lv.len() as int) =~= lv);
            assert(lv.skip(lv.len() as int).reverse() =~= Seq::<Seq<char>>::empty());
            assert(self.released() =~= old(self).released() + lv.skip(lv.len() as int).reverse());
        }
        loop
            invariant
                self.entries() == old(self).entries(),
                self.live_mounts().len() <= lv.len(),
                self.live_mounts() == lv.take(self.live_mounts().len() as int),
                self.released() == old(self).released() + lv.skip(
                    self.live_mounts().len() as int,
                ).reverse(),
                (match first_err {
                    Option::None => true,
                    Option::Some(e) => match e {
                        Error::Unmount { target, .. } => lv.contains(target@),
                        _ => false,
                    },
                }),
            ensures
                self.entries() == old(self).entries(),
                self.live_mounts() == Seq::<Seq<char>>::empty(),
                self.released() == old(self).released() + lv.reverse(),
                (match first_err {
                    Option::None => true,
                    Option::Some(e) => match e {
                        Error::Unmount { target, .. } => lv.contains(target@),
                        _ => false,
                    },
                }),
            decreases self.live_mounts().len(),
        {
            let ghost m = self.live_mounts().len() as int;
            let mut cur = HandleList::Nil;
            core::mem::swap(&mut self.live, &mut cur);
            let ghost cv = cur;
            match cur {
                HandleList::Nil => {
                    break ;
                },
                HandleList::Cons(lm, rest) => {
                    let ghost tv = lm@;
                    let ghost rv = *rest;
                    proof {
                        assert(cv == HandleList::Cons(lm, rest));
                        assert(list_view(cv) == list_view(rv).push(tv));
                        assert(list_view(cv) == lv.take(m));
                        assert(m >= 1);
                        assert(list_view(rv) =~= lv.take(m - 1));
                        assert(tv == lv.take(m).last());
                        assert(tv == lv[m - 1]);
                    }
                    self.live = *rest;
                    let (target, res) = lm.release();
                    proof {
                        self.released@ = self.released@.push(tv);
                        assert(self.live_mounts() == lv.take(m - 1));
                        assert(lv.skip(m - 1).reverse() =~= lv.skip(m).reverse().push(tv));
                        assert(lv.contains(tv));
                    }
                    match res {
                        Result::Ok(()) => {},
                        Result::Err(errno) => {
                            match &first_err {
                                Option::None => {
                                    first_err = Option::Some(
                                        Error::Unmount { target, errno },
                                    );
                                },
                                Option::Some(_) => {},
                            }
                        },
                    }
                },
            }
        }
        match first_err {
            Option::None => Result::Ok(()),
            Option::Some(e) => Result::Err(e),
        }
    }
}

impl Default for MountTable {
    /// Same as [`MountTable::new`]: an empty table.
    fn default() -> (r: Self)
        ensures
            r.wf(),
            r.entries() == Seq::<EntryView>::empty(),
            r.live_mounts() == Seq::<Seq<char>>::empty(),
            r.released() == Seq::<Seq<char>>::empty(),
    {
        MountTable::new()
    }
}

} // verus!
