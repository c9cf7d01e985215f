//! The application order of a mount table: the entry whose target is the
//! jail root goes first, shallower targets go before deeper ones, and every
//! remaining tie is broken by the entry's fields, so the order is total and
//! the same set of entries always applies the same way.

use vstd::prelude::*;
use vstd::relations::{total_ordering, sorted_by};
use vstd::seq_lib::{lemma_sorted_unique, lemma_multiset_commutative};
use crate::pathspec::{
    str_lt, depth_of, lemma_str_lt_irrefl, lemma_str_lt_asym, lemma_str_lt_trans,
    lemma_str_lt_total, str_cmp, depth,
};
use crate::target::{MountTarget, MountTargetView, opt_view};

verus! {

/// One mount-table entry as contracts see it: the source path and the mount
/// description it maps to.
#[verifier::ext_equal]
pub ghost struct EntryView {
    pub source: Seq<char>,
    pub mt: MountTargetView,
}

/// The entry a (source, mount) pair stands for.
pub open spec fn entry_view(p: (String, MountTarget)) -> EntryView {
    EntryView { source: p.0@, mt: p.1@ }
}

/// A whole table as a sequence of entries.
pub open spec fn entries_view(s: Seq<(String, MountTarget)>) -> Seq<EntryView> {
    s.map_values(|p: (String, MountTarget)| entry_view(p))
}

/// Order on optional strings: absent sorts before present, and two present
/// strings sort lexicographically.
pub open spec fn opt_lt(a: Option<Seq<char>>, b: Option<Seq<char>>) -> bool {
    match a {
        Option::None => b is Some,
        Option::Some(x) => match b {
            Option::None => false,
            Option::Some(y) => str_lt(x, y),
        },
    }
}

/// The strict order entries are applied in: first by target depth — so the
/// root-targeted entry goes first and a parent directory is always mounted
/// before anything nested beneath it — then lexicographically by target, and
/// then by the remaining fields so that no tie is ever left unresolved.
pub open spec fn entry_lt(a: EntryView, b: EntryView) -> bool {
    if depth_of(a.mt.target) != depth_of(b.mt.target) {
        depth_of(a.mt.target) < depth_of(b.mt.target)
    } else if a.mt.target != b.mt.target {
        str_lt(a.mt.target, b.mt.target)
    } else if a.mt.fstype != b.mt.fstype {
        opt_lt(a.mt.fstype, b.mt.fstype)
    } else if a.mt.flags != b.mt.flags {
        a.mt.flags < b.mt.flags
    } else if a.mt.data != b.mt.data {
        opt_lt(a.mt.data, b.mt.data)
    } else if a.source != b.source {
        str_lt(a.source, b.source)
    } else {
        false
    }
}

/// The reflexive closure of [`entry_lt`].
pub open spec fn entry_le(a: EntryView, b: EntryView) -> bool {
    entry_lt(a, b) || a == b
}

/// [`entry_le`] as a relation value, for vstd's ordering vocabulary.
pub open spec fn entry_le_ff() -> spec_fn(EntryView, EntryView) -> bool {
    |a: EntryView, b: EntryView| entry_le(a, b)
}

/// The order in which a table's entries are applied; reversal walks this
/// backward.
pub open spec fn apply_order(s: Seq<EntryView>) -> Seq<EntryView> {
    s.sort_by(entry_le_ff())
}

proof fn lemma_opt_lt_asym(a: Option<Seq<char>>, b: Option<Seq<char>>)
    ensures
        !(opt_lt(a, b) && opt_lt(b, a)),
{
    if a is Some && b is Some {
        lemma_str_lt_asym(a->0, b->0);
    }
}

proof fn lemma_opt_lt_trans(a: Option<Seq<char>>, b: Option<Seq<char>>, c: Option<Seq<char>>)
    requires
        opt_lt(a, b),
        opt_lt(b, c),
    ensures
        opt_lt(a, c),
{
    if a is Some && b is Some && c is Some {
        lemma_str_lt_trans(a->0, b->0, c->0);
    }
}

proof fn lemma_opt_lt_total(a: Option<Seq<char>>, b: Option<Seq<char>>)
    ensures
        opt_lt(a, b) || opt_lt(b, a) || a == b,
{
    if a is Some && b is Some {
        lemma_str_lt_total(a->0, b->0);
    }
}

pub proof fn lemma_entry_lt_asym(a: EntryView, b: EntryView)
    ensures
        !(entry_lt(a, b) && entry_lt(b, a)),
{
    lemma_str_lt_asym(a.mt.target, b.mt.target);
    lemma_opt_lt_asym(a.mt.fstype, b.mt.fstype);
    lemma_opt_lt_asym(a.mt.data, b.mt.data);
    lemma_str_lt_asym(a.source, b.source);
}

/// Chains one comparison level: if `x` is no later than `y` and `y` no later
/// than `z`, then `x` is no later than `z`, and an outer tie forces inner
/// ties.
proof fn lemma_str_le_step(x: Seq<char>, y: Seq<char>, z: Seq<char>)
    requires
        str_lt(x, y) || x == y,
        str_lt(y, z) || y == z,
    ensures
        str_lt(x, z) || x == z,
        x == z ==> x == y && y == z,
{
    if x == y || y == z {
    } else {
        lemma_str_lt_trans(x, y, z);
        lemma_str_lt_asym(x, y);
        lemma_str_lt_irrefl(x);
        if x == z {
            lemma_str_lt_asym(y, z);
        }
    }
}

proof fn lemma_opt_le_step(x: Option<Seq<char>>, y: Option<Seq<char>>, z: Option<Seq<char>>)
    requires
        opt_lt(x, y) || x == y,
        opt_lt(y, z) || y == z,
    ensures
        opt_lt(x, z) || x == z,
        x == z ==> x == y && y == z,
{
    if x == y || y == z {
    } else {
        lemma_opt_lt_trans(x, y, z);
        lemma_opt_lt_asym(x, y);
        lemma_opt_lt_asym(y, z);
        if x == z {
            lemma_opt_lt_asym(x, y);
        }
    }
}

pub proof fn lemma_entry_lt_trans(a: EntryView, b: EntryView, c: EntryView)
    requires
        entry_lt(a, b),
        entry_lt(b, c),
    ensures
        entry_lt(a, c),
{
    let da = depth_of(a.mt.target);
    let db = depth_of(b.mt.target);
    let dc = depth_of(c.mt.target);
    assert(da <= db);
    assert(db <= dc);
    if da != dc {
        assert(da < dc);
    } else {
        assert(da == db && db == dc);
        lemma_str_le_step(a.mt.target, b.mt.target, c.mt.target);
        if a.mt.target != c.mt.target {
            assert(str_lt(a.mt.target, c.mt.target));
        } else {
            assert(a.mt.target == b.mt.target && b.mt.target == c.mt.target);
            lemma_opt_le_step(a.mt.fstype, b.mt.fstype, c.mt.fstype);
            if a.mt.fstype != c.mt.fstype {
            } else {
                assert(a.mt.fstype == b.mt.fstype && b.mt.fstype == c.mt.fstype);
                assert(a.mt.flags <= b.mt.flags && b.mt.flags <= c.mt.flags);
                if a.mt.flags != c.mt.flags {
                } else {
                    assert(a.mt.flags == b.mt.flags && b.mt.flags == c.mt.flags);
                    lemma_opt_le_step(a.mt.data, b.mt.data, c.mt.data);
                    if a.mt.data != c.mt.data {
                    } else {
                        assert(a.mt.data == b.mt.data && b.mt.data == c.mt.data);
                        lemma_str_le_step(a.source, b.source, c.source);
                        if a.source != c.source {
                        } else {
                            assert(a.source == b.source && b.source == c.source);
                            assert(!entry_lt(a, b));
                        }
                    }
                }
            }
        }
    }
}

pub proof fn lemma_entry_lt_total(a: EntryView, b: EntryView)
    ensures
        entry_lt(a, b) || entry_lt(b, a) || a == b,
{
    if depth_of(a.mt.target) != depth_of(b.mt.target) {
    } else if a.mt.target != b.mt.target {
        lemma_str_lt_total(a.mt.target, b.mt.target);
    } else if a.mt.fstype != b.mt.fstype {
        lemma_opt_lt_total(a.mt.fstype, b.mt.fstype);
    } else if a.mt.flags != b.mt.flags {
    } else if a.mt.data != b.mt.data {
        lemma_opt_lt_total(a.mt.data, b.mt.data);
    } else if a.source != b.source {
        lemma_str_lt_total(a.source, b.source);
    } else {
        assert(a.mt == b.mt);
        assert(a == b);
    }
}

pub proof fn lemma_entry_le_trans(a: EntryView, b: EntryView, c: EntryView)
    requires
        entry_le(a, b),
        entry_le(b, c),
    ensures
        entry_le(a, c),
{
    if a != b && b != c {
        lemma_entry_lt_trans(a, b, c);
    }
}

/// [`entry_le`] is a total order, so the apply order is fully determined:
/// the same entries always apply, and so reverse, the same way.
pub proof fn lemma_entry_le_total_ordering()
    ensures
        total_ordering(entry_le_ff()),
{
    let leq = entry_le_ff();
    assert forall|a: EntryView, b: EntryView| #[trigger] leq(a, b) && #[trigger] leq(b, a)
        implies a == b by {
        lemma_entry_lt_asym(a, b);
    }
    assert forall|a: EntryView, b: EntryView, c: EntryView|
        #[trigger] leq(a, b) && #[trigger] leq(b, c) implies leq(a, c) by {
        lemma_entry_le_trans(a, b, c);
    }
    assert forall|a: EntryView, b: EntryView| true implies #[trigger] leq(a, b) || #[trigger] leq(
        b,
        a,
    ) by {
        lemma_entry_lt_total(a, b);
    }
}

/// The apply order holds exactly the table's entries: one application per
/// entry, no more and no fewer.
pub proof fn lemma_apply_order_len(s: Seq<EntryView>)
    ensures
        apply_order(s).len() == s.len(),
{
    broadcast use vstd::seq_lib::group_to_multiset_ensures;

    lemma_entry_le_total_ordering();
    s.lemma_sort_by_ensures(entry_le_ff());
    assert(s.to_multiset().len() == s.len());
    assert(apply_order(s).to_multiset().len() == apply_order(s).len());
}

/// Depth never decreases along the apply order: for any entry set, the
/// mounts are applied shallow-to-deep, so a parent directory's mount is
/// established before anything nested beneath it.
pub proof fn lemma_apply_order_depth_monotone(s: Seq<EntryView>, i: int, j: int)
    requires
        0 <= i <= j < apply_order(s).len(),
    ensures
        depth_of(apply_order(s)[i].mt.target) <= depth_of(apply_order(s)[j].mt.target),
{
    lemma_entry_le_total_ordering();
    s.lemma_sort_by_ensures(entry_le_ff());
    if i < j {
        assert(entry_le_ff()(apply_order(s)[i], apply_order(s)[j]));
    }
}

/// Whenever some entry targets the jail root itself (zero extra path
/// components), that entry comes first in apply order, wherever it was
/// inserted.
pub proof fn lemma_root_target_first(s: Seq<EntryView>)
    requires
        exists|k: int| 0 <= k < s.len() && depth_of((#[trigger] s[k]).mt.target) == 0,
    ensures
        apply_order(s).len() == s.len(),
        depth_of(apply_order(s)[0].mt.target) == 0,
{
    broadcast use vstd::seq_lib::group_to_multiset_ensures;

    lemma_entry_le_total_ordering();
    s.lemma_sort_by_ensures(entry_le_ff());
    let r = apply_order(s);
    assert(s.to_multiset().len() == s.len());
    assert(r.to_multiset().len() == r.len());
    let k = choose|k: int| 0 <= k < s.len() && depth_of((#[trigger] s[k]).mt.target) == 0;
    assert(s.contains(s[k]));
    assert(s.to_multiset().count(s[k]) > 0);
    assert(r.to_multiset().count(s[k]) > 0);
    assert(r.contains(s[k]));
    let m = choose|m: int| 0 <= m < r.len() && r[m] == s[k];
    if m > 0 {
        assert(entry_le_ff()(r[0], r[m]));
    }
}

/// Two entries at equal depth stand in lexicographic order of their target
/// paths in the apply order.
pub proof fn lemma_equal_depth_lexicographic(s: Seq<EntryView>, i: int, j: int)
    requires
        0 <= i < j < apply_order(s).len(),
        depth_of(apply_order(s)[i].mt.target) == depth_of(apply_order(s)[j].mt.target),
    ensures
        str_lt(apply_order(s)[i].mt.target, apply_order(s)[j].mt.target) || apply_order(
            s,
        )[i].mt.target == apply_order(s)[j].mt.target,
{
    lemma_entry_le_total_ordering();
    s.lemma_sort_by_ensures(entry_le_ff());
    assert(entry_le_ff()(apply_order(s)[i], apply_order(s)[j]));
}

/// The apply order is a function of the entry set alone: any arrangement of
/// the same entries that is sorted by the entry order is the apply order
/// itself. Repeated runs over identical input therefore apply — and so
/// reverse — identically.
pub proof fn lemma_apply_order_unique(s: Seq<EntryView>, t: Seq<EntryView>)
    requires
        sorted_by(t, entry_le_ff()),
        t.to_multiset() == s.to_multiset(),
    ensures
        t == apply_order(s),
{
    lemma_entry_le_total_ordering();
    s.lemma_sort_by_ensures(entry_le_ff());
    lemma_sorted_unique(t, apply_order(s), entry_le_ff());
}

/// Reversal visits the exact reverse permutation: element `i` of the
/// reversed order is element `len - 1 - i` of the original.
pub proof fn lemma_reverse_is_reverse_permutation(ts: Seq<Seq<char>>, i: int)
    requires
        0 <= i < ts.len(),
    ensures
        ts.reverse().len() == ts.len(),
        ts.reverse()[i] == ts[ts.len() - 1 - i],
{
}

/// Three-way comparison of optional strings; `-1`, `0` and `1` mean `a`
/// before, equal, and `b` before.
fn opt_cmp(a: &Option<String>, b: &Option<String>) -> (o: i8)
    ensures
        (o == -1) <==> opt_lt(opt_view(*a), opt_view(*b)),
        (o == 0) <==> opt_view(*a) == opt_view(*b),
        (o == 1) <==> opt_lt(opt_view(*b), opt_view(*a)),
        -1 <= o <= 1,
{
    match (a, b) {
        (Option::None, Option::None) => 0,
        (Option::None, Option::Some(_)) => -1,
        (Option::Some(_), Option::None) => 1,
        (Option::Some(x), Option::Some(y)) => str_cmp(x.as_str(), y.as_str()),
    }
}

/// Three-way comparison of two table entries in application order.
fn entry_cmp(a: &(String, MountTarget), b: &(String, MountTarget)) -> (o: i8)
    ensures
        (o == -1) <==> entry_lt(entry_view(*a), entry_view(*b)),
        (o == 0) <==> entry_view(*a) == entry_view(*b),
        (o == 1) <==> entry_lt(entry_view(*b), entry_view(*a)),
        -1 <= o <= 1,
{
    let ghost av = entry_view(*a);
    let ghost bv = entry_view(*b);
    let da = depth(a.1.target.as_str());
    let db = depth(b.1.target.as_str());
    if da < db {
        return -1;
    }
    if db < da {
        return 1;
    }
    let t = str_cmp(a.1.target.as_str(), b.1.target.as_str());
    if t != 0 {
        return t;
    }
    let f = opt_cmp(&a.1.fstype, &b.1.fstype);
    if f != 0 {
        return f;
    }
    if a.1.flags < b.1.flags {
        return -1;
    }
    if b.1.flags < a.1.flags {
        return 1;
    }
    let d = opt_cmp(&a.1.data, &b.1.data);
    if d != 0 {
        return d;
    }
    let s = str_cmp(a.0.as_str(), b.0.as_str());
    proof {
        if s == 0 {
            assert(av =~= bv);
        }
    }
    s
}

/// Inserting into a sequence adds exactly that element to its multiset.
proof fn lemma_seq_insert_multiset(s: Seq<EntryView>, j: int, x: EntryView)
    requires
        0 <= j <= s.len(),
    ensures
        s.insert(j, x).to_multiset() == s.to_multiset().insert(x),
    decreases s.len() - j,
{
    broadcast use vstd::seq_lib::group_to_multiset_ensures;
    broadcast use vstd::multiset::group_multiset_axioms;

    if j == s.len() {
        assert(s.insert(j, x) =~= s.push(x));
    } else {
        let t = s.insert(j, x);
        s.insert_ensures(j, x);
        assert(t.remove(j) =~= s);
        assert(t.to_multiset().remove(t[j]) =~= t.remove(j).to_multiset());
        assert(t.contains(x));
        assert(t.to_multiset().count(x) > 0);
        assert(t.to_multiset() =~= s.to_multiset().insert(x)) by {
            assert forall|y: EntryView| true implies t.to_multiset().count(y) == s.to_multiset()
                .insert(x).count(y) by {
                if y == x {
                    assert(s.to_multiset().count(x) == t.to_multiset().remove(x).count(x));
                } else {
                    assert(s.to_multiset().count(y) == t.to_multiset().remove(x).count(y));
                }
            }
        }
    }
}

/// Inserts `x` into a sorted vector of entries, keeping it sorted.
fn insert_entry(out: &mut Vec<(String, MountTarget)>, x: (String, MountTarget))
    requires
        sorted_by(entries_view(old(out)@), entry_le_ff()),
    ensures
        sorted_by(entries_view(final(out)@), entry_le_ff()),
        entries_view(final(out)@).to_multiset() == entries_view(old(out)@).to_multiset().insert(
            entry_view(x),
        ),
{
    let ghost xv = entry_view(x);
    let ghost s0 = entries_view(out@);
    let mut j: usize = 0;
    loop
        invariant
            out@ == old(out)@,
            s0 == entries_view(out@),
            sorted_by(s0, entry_le_ff()),
            xv == entry_view(x),
            j <= s0.len(),
            s0.len() == out@.len(),
            forall|k: int| 0 <= k < j ==> entry_lt(#[trigger] s0[k], xv),
        ensures
            out@ == old(out)@,
            j <= s0.len(),
            forall|k: int| 0 <= k < j ==> entry_lt(#[trigger] s0[k], xv),
            j < s0.len() ==> !entry_lt(s0[j as int], xv),
        decreases s0.len() - j,
    {
        if j == out.len() {
            break;
        }
        let o = entry_cmp(&x, &out[j]);
        if o != 1 {
            break;
        }
        j += 1;
    }
    proof {
        if (j as int) < s0.len() {
            lemma_entry_lt_total(xv, s0[j as int]);
            assert(entry_le(xv, s0[j as int]));
        }
    }
    out.insert(j, x);
    proof {
        let jj = j as int;
        let t = s0.insert(jj, xv);
        s0.insert_ensures(jj, xv);
        assert(entries_view(out@) =~= t) by {
            old(out)@.insert_ensures(jj, x);
        }
        lemma_seq_insert_multiset(s0, jj, xv);
        assert forall|p: int, q: int| 0 <= p < q < t.len() implies #[trigger] entry_le_ff()(
            t[p],
            t[q],
        ) by {
            if q < jj {
                assert(entry_le_ff()(s0[p], s0[q]));
            } else if p > jj {
                assert(entry_le_ff()(s0[p - 1], s0[q - 1]));
            } else if p < jj && q == jj {
                assert(entry_lt(s0[p], xv));
            } else if p == jj && q > jj {
                if jj < q - 1 {
                    assert(entry_le_ff()(s0[jj], s0[q - 1]));
                }
                lemma_entry_le_trans(xv, s0[jj], s0[q - 1]);
            } else if p < jj && q > jj {
                if p < q - 1 {
                    assert(entry_le_ff()(s0[p], s0[q - 1]));
                }
            }
        }
    }
}

/// A copy of the given (source, mount) pairs, sorted into application order.
pub(crate) fn sort_pairs(v: &Vec<(String, MountTarget)>) -> (r: Vec<(String, MountTarget)>)
    ensures
        entries_view(r@) == apply_order(entries_view(v@)),
{
    let mut out: Vec<(String, MountTarget)> = Vec::new();
    let mut i: usize = 0;
    proof {
        assert(entries_view(out@) =~= entries_view(v@.take(0)));
    }
    while i < v.len()
        invariant
            i <= v@.len(),
            sorted_by(entries_view(out@), entry_le_ff()),
            entries_view(out@).to_multiset() == entries_view(v@.take(i as int)).to_multiset(),
        decreases v@.len() - i,
    {
        let p = &v[i];
        let x = (p.0.clone(), p.1.clone());
        proof {
            assert(entry_view(x) =~= entry_view(v@[i as int]));
        }
        insert_entry(&mut out, x);
        proof {
            broadcast use vstd::seq_lib::group_to_multiset_ensures;

            assert(v@.take(i as int + 1) =~= v@.take(i as int).push(v@[i as int]));
            assert(entries_view(v@.take(i as int).push(v@[i as int])) =~= entries_view(
                v@.take(i as int),
            ).push(entry_view(v@[i as int])));
        }
        i += 1;
    }
    proof {
        assert(v@.take(v@.len() as int) =~= v@);
        lemma_entry_le_total_ordering();
        entries_view(v@).lemma_sort_by_ensures(entry_le_ff());
        lemma_sorted_unique(entries_view(out@), apply_order(entries_view(v@)), entry_le_ff());
    }
    out
}

} // verus!
