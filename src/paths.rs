//! Slash-separated paths: descent, relative paths and joining.

use vstd::prelude::*;

verus! {

/// The prefix every proper descendant of `root` starts with: `root`
/// followed by a separator (a root that already ends in `/` is its own base).
pub open spec fn base_of(root: Seq<char>) -> Seq<char> {
    if root.len() > 0 && root.last() == '/' {
        root
    } else {
        root.push('/')
    }
}

/// A relative path made of non-empty components: it is not empty and has
/// no leading, trailing or doubled separator.
pub open spec fn is_clean_rel(r: Seq<char>) -> bool {
    &&& r.len() > 0
    &&& r[0] != '/'
    &&& r.last() != '/'
    &&& forall|i: int| 0 <= i < r.len() - 1 && #[trigger] r[i] == '/' ==> r[i + 1] != '/'
}

/// `p` lies strictly below `root`, reached through non-empty components.
pub open spec fn is_proper_descendant(root: Seq<char>, p: Seq<char>) -> bool {
    let b = base_of(root);
    &&& b.len() < p.len()
    &&& p.subrange(0, b.len() as int) == b
    &&& is_clean_rel(p.subrange(b.len() as int, p.len() as int))
}

/// The path of a proper descendant `p` relative to `root`.
pub open spec fn rel_to(root: Seq<char>, p: Seq<char>) -> Seq<char> {
    p.subrange(base_of(root).len() as int, p.len() as int)
}

/// `a` is a proper ancestor of the relative path `r`: `r` continues `a`
/// with a separator.
pub open spec fn is_rel_ancestor(a: Seq<char>, r: Seq<char>) -> bool {
    &&& a.len() < r.len()
    &&& r[a.len() as int] == '/'
    &&& r.subrange(0, a.len() as int) == a
}

/// `r` lies strictly below the relative path `top` (every clean path lies
/// below the empty path, which names the root itself).
pub open spec fn is_rel_below(top: Seq<char>, r: Seq<char>) -> bool {
    top.len() == 0 || is_rel_ancestor(top, r)
}

/// Where the part of `r` below `top` starts.
pub open spec fn below_start(top: Seq<char>) -> int {
    if top.len() == 0 {
        0
    } else {
        top.len() as int + 1
    }
}

/// `local` joined with the relative path `rel`, with one separator between.
pub open spec fn joined(local: Seq<char>, rel: Seq<char>) -> Seq<char> {
    if local.len() == 0 || local.last() == '/' {
        local + rel
    } else {
        local.push('/') + rel
    }
}

/// Whether `p` starts with `prefix`, character by character.
fn starts_with(p: &str, prefix: &str) -> (r: bool)
    ensures
        r == (prefix@.len() <= p@.len() && p@.subrange(0, prefix@.len() as int) == prefix@),
{
    let n = prefix.unicode_len();
    let m = p.unicode_len();
    if n > m {
        return false;
    }
    let mut i: usize = 0;
    while i < n
        invariant
            n == prefix@.len(),
            m == p@.len(),
            n <= m,
            i <= n,
            forall|j: int| 0 <= j < i ==> p@[j] == prefix@[j],
        decreases n - i,
    {
        if p.get_char(i) != prefix.get_char(i) {
            assert(p@.subrange(0, n as int)[i as int] != prefix@[i as int]);
            return false;
        }
        i = i + 1;
    }
    assert(p@.subrange(0, n as int) =~= prefix@);
    true
}

/// Whether `r` is a clean relative path.
pub fn clean_rel(r: &str) -> (b: bool)
    ensures
        b == is_clean_rel(r@),
{
    let n = r.unicode_len();
    if n == 0 {
        return false;
    }
    if r.get_char(0) == '/' || r.get_char(n - 1) == '/' {
        return false;
    }
    let mut i: usize = 0;
    while i + 1 < n
        invariant
            n == r@.len(),
            n > 0,
            i < n,
            forall|j: int| 0 <= j < i && #[trigger] r@[j] == '/' ==> r@[j + 1] != '/',
        decreases n - i,
    {
        if r.get_char(i) == '/' && r.get_char(i + 1) == '/' {
            return false;
        }
        i = i + 1;
    }
    true
}

/// The base of `root`: `root` with a trailing separator.
fn base_path(root: &str) -> (b: String)
    ensures
        b@ == base_of(root@),
{
    let n = root.unicode_len();
    let mut b = String::from_str(root);
    if n == 0 || root.get_char(n - 1) != '/' {
        b.append("/");
        proof { reveal_strlit("/"); }
    }
    b
}

/// The path of `p` relative to `root` when `p` is a proper descendant of
/// `root`, and `None` otherwise.
pub fn relative_path(root: &str, p: &str) -> (r: Option<String>)
    ensures
        is_proper_descendant(root@, p@) <==> r is Some,
        r is Some ==> r->0@ == rel_to(root@, p@),
{
    let b = base_path(root);
    let bn = b.as_str().unicode_len();
    let pn = p.unicode_len();
    if bn >= pn || !starts_with(p, b.as_str()) {
        return None;
    }
    let rest = p.substring_char(bn, pn);
    if clean_rel(rest) {
        Some(String::from_str(rest))
    } else {
        None
    }
}

/// `local` joined with `rel`.
pub fn join_path(local: &str, rel: &str) -> (r: String)
    ensures
        r@ == joined(local@, rel@),
{
    let n = local.unicode_len();
    let mut r = String::from_str(local);
    if n > 0 && local.get_char(n - 1) != '/' {
        r.append("/");
        proof { reveal_strlit("/"); }
    }
    r.append(rel);
    r
}

/// Whether the relative path `r` lies strictly below the relative path `top`.
pub fn rel_below(top: &str, r: &str) -> (b: bool)
    ensures
        b == is_rel_below(top@, r@),
{
    let n = top.unicode_len();
    if n == 0 {
        return true;
    }
    let m = r.unicode_len();
    if n >= m || r.get_char(n) != '/' {
        return false;
    }
    starts_with(r, top)
}

/// An ancestor of an ancestor is an ancestor.
pub proof fn lemma_ancestor_trans(a: Seq<char>, b: Seq<char>, c: Seq<char>)
    requires
        is_rel_ancestor(a, b),
        is_rel_ancestor(b, c),
    ensures
        is_rel_ancestor(a, c),
{
    assert(c[a.len() as int] == c.subrange(0, b.len() as int)[a.len() as int]);
    assert(c.subrange(0, a.len() as int) =~= c.subrange(0, b.len() as int).subrange(0, a.len() as int));
}

/// Two ancestors of one path: the shorter is an ancestor of the longer.
pub proof fn lemma_ancestors_nested(a: Seq<char>, b: Seq<char>, c: Seq<char>)
    requires
        is_rel_ancestor(a, c),
        is_rel_ancestor(b, c),
        a.len() < b.len(),
    ensures
        is_rel_ancestor(a, b),
{
    assert(b[a.len() as int] == c.subrange(0, b.len() as int)[a.len() as int]);
    assert(b.subrange(0, a.len() as int) =~= c.subrange(0, a.len() as int));
}

} // verus!
