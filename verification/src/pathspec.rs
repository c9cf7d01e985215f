//! Path arithmetic for mount targets: component depth, leading-slash
//! sanitization, joining a relative target under a root, and lexicographic
//! comparison of paths.

use vstd::prelude::*;
use vstd::string::*;

verus! {

/// True when `a` orders strictly before `b` as a code point.
pub open spec fn char_lt(a: char, b: char) -> bool {
    (a as u32) < (b as u32)
}

/// Strict lexicographic order on character sequences: a proper prefix sorts
/// before its extensions, and otherwise the first differing character decides.
pub open spec fn str_lt(a: Seq<char>, b: Seq<char>) -> bool
    decreases a.len(),
{
    if b.len() == 0 {
        false
    } else if a.len() == 0 {
        true
    } else if a[0] == b[0] {
        str_lt(a.drop_first(), b.drop_first())
    } else {
        char_lt(a[0], b[0])
    }
}

pub proof fn lemma_str_lt_irrefl(a: Seq<char>)
    ensures
        !str_lt(a, a),
    decreases a.len(),
{
    if a.len() > 0 {
        lemma_str_lt_irrefl(a.drop_first());
    }
}

pub proof fn lemma_str_lt_asym(a: Seq<char>, b: Seq<char>)
    ensures
        !(str_lt(a, b) && str_lt(b, a)),
    decreases a.len(),
{
    if a.len() > 0 && b.len() > 0 && a[0] == b[0] {
        lemma_str_lt_asym(a.drop_first(), b.drop_first());
    }
}

pub proof fn lemma_str_lt_trans(a: Seq<char>, b: Seq<char>, c: Seq<char>)
    requires
        str_lt(a, b),
        str_lt(b, c),
    ensures
        str_lt(a, c),
    decreases a.len(),
{
    if a.len() > 0 && b.len() > 0 && c.len() > 0 && a[0] == b[0] && b[0] == c[0] {
        lemma_str_lt_trans(a.drop_first(), b.drop_first(), c.drop_first());
    }
}

pub proof fn lemma_str_lt_total(a: Seq<char>, b: Seq<char>)
    ensures
        str_lt(a, b) || str_lt(b, a) || a == b,
    decreases a.len(),
{
    if a.len() == 0 && b.len() == 0 {
        assert(a =~= b);
    } else if a.len() == 0 {
        assert(str_lt(a, b));
    } else if b.len() == 0 {
        assert(str_lt(b, a));
    } else if a[0] == b[0] {
        lemma_str_lt_total(a.drop_first(), b.drop_first());
        if !str_lt(a, b) && !str_lt(b, a) {
            assert(a.drop_first() == b.drop_first());
            assert forall|i: int| 0 <= i < a.len() implies a[i] == b[i] by {
                if i > 0 {
                    assert(a[i] == a.drop_first()[i - 1]);
                    assert(b[i] == b.drop_first()[i - 1]);
                }
            }
            assert(a =~= b);
        }
    } else {
        assert((a[0] as u32) != (b[0] as u32)) by {
            vstd::utf8::char_u32_cast(a[0], a[0] as u32);
            vstd::utf8::char_u32_cast(b[0], b[0] as u32);
        }
        assert(char_lt(a[0], b[0]) || char_lt(b[0], a[0]));
    }
}

/// If `a` and `b` agree on their first `i` characters and either `a` ends
/// there while `b` goes on, or the characters at `i` differ in `a`'s favour,
/// then `a` sorts strictly before `b`.
pub proof fn lemma_str_lt_from_prefix(a: Seq<char>, b: Seq<char>, i: int)
    requires
        0 <= i <= a.len(),
        i <= b.len(),
        forall|j: int| 0 <= j < i ==> a[j] == b[j],
        i == a.len() ==> i < b.len(),
        i < a.len() ==> i < b.len() && char_lt(a[i], b[i]),
    ensures
        str_lt(a, b),
    decreases i,
{
    if i == 0 {
        if a.len() > 0 {
            assert(a[0] != b[0]);
        }
    } else {
        lemma_str_lt_from_prefix(a.drop_first(), b.drop_first(), i - 1);
    }
}

/// Number of path components among the first `n` characters of `s`: a
/// component starts at each non-separator character that begins the string or
/// follows a separator.
pub open spec fn depth_upto(s: Seq<char>, n: int) -> nat
    decreases n,
{
    if n <= 0 {
        0
    } else {
        depth_upto(s, n - 1) + (if s[n - 1] != '/' && (n == 1 || s[n - 2] == '/') {
            1nat
        } else {
            0nat
        })
    }
}

/// Number of path components of `s`, counting as the kernel's path walk does:
/// leading, repeated and trailing separators contribute nothing. The jail
/// root itself has depth zero.
pub open spec fn depth_of(s: Seq<char>) -> nat {
    depth_upto(s, s.len() as int)
}

/// Counts the path components of `s`.
pub fn depth(s: &str) -> (n: usize)
    ensures
        n == depth_of(s@),
{
    let len = s.unicode_len();
    let mut n: usize = 0;
    let mut i: usize = 0;
    while i < len
        invariant
            len == s@.len(),
            i <= len,
            n <= i,
            n == depth_upto(s@, i as int),
        decreases len - i,
    {
        let c = s.get_char(i);
        let starts = c != '/' && (i == 0 || s.get_char(i - 1) == '/');
        if starts {
            n = n + 1;
        }
        i = i + 1;
    }
    n
}

/// `s` with every leading path separator removed.
pub open spec fn strip_slashes(s: Seq<char>) -> Seq<char>
    decreases s.len(),
{
    if s.len() > 0 && s[0] == '/' {
        strip_slashes(s.drop_first())
    } else {
        s
    }
}

proof fn lemma_strip_skip(s: Seq<char>, i: int)
    requires
        0 <= i <= s.len(),
        forall|j: int| 0 <= j < i ==> s[j] == '/',
    ensures
        strip_slashes(s) == strip_slashes(s.skip(i)),
    decreases i,
{
    if i > 0 {
        assert(s.drop_first() =~= s.skip(1));
        lemma_strip_skip(s.skip(1), i - 1);
        assert(s.skip(1).skip(i - 1) =~= s.skip(i));
    } else {
        assert(s.skip(0) =~= s);
    }
}

/// Removes every leading path separator, so the target is interpreted
/// relative to the jail root however the caller wrote it.
pub fn strip_leading(s: &str) -> (r: &str)
    ensures
        r@ == strip_slashes(s@),
{
    let len = s.unicode_len();
    let mut i: usize = 0;
    while i < len && s.get_char(i) == '/'
        invariant
            i <= len,
            len == s@.len(),
            forall|j: int| 0 <= j < i ==> s@[j] == '/',
        decreases len - i,
    {
        i = i + 1;
    }
    proof {
        lemma_strip_skip(s@, i as int);
        if i < len {
            assert(s@.skip(i as int)[0] == s@[i as int]);
        }
        assert(s@.skip(i as int) =~= s@.subrange(i as int, len as int));
    }
    s.substring_char(i, len)
}

/// The target path that `rel` names inside the jail rooted at `root`.
pub open spec fn join_path(root: Seq<char>, rel: Seq<char>) -> Seq<char> {
    if rel.len() == 0 {
        root
    } else {
        root + seq!['/'] + rel
    }
}

/// Joins a relative path under a root directory; an empty relative path
/// names the root itself.
pub fn join(root: &str, rel: &str) -> (r: String)
    ensures
        r@ == join_path(root@, rel@),
{
    let mut out = root.to_owned();
    if !rel.is_empty() {
        out.append("/");
        out.append(rel);
        proof {
            reveal_strlit("/");
            assert(("/")@ =~= seq!['/']);
        }
    }
    out
}

/// Where a mount described by `target` lands once applied under `root`:
/// leading separators are stripped and the remainder joined under the root.
pub open spec fn resolved_target_spec(root: Seq<char>, target: Seq<char>) -> Seq<char> {
    join_path(root, strip_slashes(target))
}

/// Three-way lexicographic comparison; `-1`, `0` and `1` mean `a` before,
/// equal, and `b` before.
pub fn str_cmp(a: &str, b: &str) -> (o: i8)
    ensures
        (o == -1) <==> str_lt(a@, b@),
        (o == 0) <==> a@ == b@,
        (o == 1) <==> str_lt(b@, a@),
        -1 <= o <= 1,
{
    let alen = a.unicode_len();
    let blen = b.unicode_len();
    let mut i: usize = 0;
    while i < alen && i < blen
        invariant
            alen == a@.len(),
            blen == b@.len(),
            i <= alen,
            i <= blen,
            forall|j: int| 0 <= j < i ==> a@[j] == b@[j],
        decreases alen - i,
    {
        let ca = a.get_char(i);
        let cb = b.get_char(i);
        if (ca as u32) < (cb as u32) {
            proof {
                lemma_str_lt_from_prefix(a@, b@, i as int);
                lemma_str_lt_asym(a@, b@);
                lemma_str_lt_irrefl(a@);
            }
            return -1;
        }
        if (cb as u32) < (ca as u32) {
            proof {
                lemma_str_lt_from_prefix(b@, a@, i as int);
                lemma_str_lt_asym(a@, b@);
                lemma_str_lt_irrefl(a@);
            }
            return 1;
        }
        assert(ca == cb);
        i = i + 1;
    }
    if alen == blen {
        proof {
            assert(a@ =~= b@);
            lemma_str_lt_irrefl(a@);
        }
        0
    } else if i == alen {
        proof {
            lemma_str_lt_from_prefix(a@, b@, i as int);
            lemma_str_lt_asym(a@, b@);
            lemma_str_lt_irrefl(a@);
        }
        -1
    } else {
        proof {
            lemma_str_lt_from_prefix(b@, a@, i as int);
            lemma_str_lt_asym(a@, b@);
            lemma_str_lt_irrefl(a@);
        }
        1
    }
}

} // verus!
