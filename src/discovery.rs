//! Discovery of the subvolumes and directories below a root subvolume.
//!
//! Discovery queries the tool once per subvolume, so it is kept as a state
//! that the caller drives: [`Discovery::next_query`] says which local path
//! to list next, and [`Discovery::record_children`] takes what that listing
//! named. Paths are kept relative to the discovery root.

use vstd::prelude::*;
use crate::paths::{
    below_start, is_clean_rel, is_proper_descendant, rel_below, rel_to, relative_path, is_rel_ancestor, is_rel_below, join_path, joined, lemma_ancestor_trans,
    lemma_ancestors_nested,
};
use crate::subvolume::FileType;
use crate::tool::views;

verus! {

/// Every proper ancestor of a path in the map is in the map too.
pub open spec fn ancestor_closed(m: Map<Seq<char>, FileType>) -> bool {
    forall|a: Seq<char>, k: Seq<char>|
        #![trigger is_rel_ancestor(a, k), m.dom().contains(k)]
        m.dom().contains(k) && is_rel_ancestor(a, k) ==> m.dom().contains(a)
}

/// The paths strictly between `top` and some path of `subs`: the
/// directories that reaching those subvolumes from `top` passes through.
pub open spec fn between(top: Seq<char>, subs: Set<Seq<char>>) -> Set<Seq<char>> {
    Set::new(|a: Seq<char>| exists|r: Seq<char>| #[trigger] subs.contains(r) && is_rel_ancestor(a, r) && is_rel_below(top, a))
}

/// The merge rule: `m` with the subvolumes `subs` and the directories
/// `dirs` added. A subvolume replaces a directory; a directory never
/// replaces anything.
pub open spec fn merged(
    m: Map<Seq<char>, FileType>,
    subs: Set<Seq<char>>,
    dirs: Set<Seq<char>>,
) -> Map<Seq<char>, FileType> {
    Map::new(
        |k: Seq<char>| m.contains_key(k) || subs.contains(k) || dirs.contains(k),
        |k: Seq<char>|
            if subs.contains(k) || (m.contains_key(k) && m[k] == FileType::Subvolume) {
                FileType::Subvolume
            } else {
                FileType::Directory
            },
    )
}

/// A proper ancestor of a clean path is clean.
proof fn lemma_ancestor_clean(a: Seq<char>, r: Seq<char>)
    requires
        is_clean_rel(r),
        is_rel_ancestor(a, r),
    ensures
        is_clean_rel(a),
{
    assert(a.len() > 0) by {
        if a.len() == 0 {
            assert(r[0] == '/');
        }
    }
    assert(a[0] == r[0]);
    assert(a.last() == r[a.len() - 1]);
    assert forall|i: int| 0 <= i < a.len() - 1 && #[trigger] a[i] == '/' implies a[i + 1] != '/' by {
        assert(a[i] == r[i] && a[i + 1] == r[i + 1]);
    }
}

/// Every proper ancestor of a path in the node list `v` is in `v` too.
pub open spec fn ancestor_closed_list(v: Seq<(String, FileType)>) -> bool {
    forall|i: int, a: Seq<char>| 0 <= i < v.len() && #[trigger] is_rel_ancestor(a, v[i].0@)
        ==> exists|j: int| 0 <= j < v.len() && v[j].0@ == a
}

/// A node list that holds exactly the paths of an ancestor-closed map is
/// ancestor-closed: with every node, the list holds each of its proper
/// ancestors.
pub proof fn lemma_node_list_closed(v: Seq<(String, FileType)>, m: Map<Seq<char>, FileType>)
    requires
        lists_exactly(v, m),
        ancestor_closed(m),
    ensures
        ancestor_closed_list(v),
{
    assert forall|i: int, a: Seq<char>| 0 <= i < v.len() && #[trigger] is_rel_ancestor(a, v[i].0@)
        implies exists|j: int| 0 <= j < v.len() && v[j].0@ == a by {
        assert(m.contains_key(v[i].0@));
        assert(m.dom().contains(a));
    }
}

/// In a node list ordered by depth, an ancestor comes strictly before each
/// of its descendants.
pub proof fn lemma_ancestor_first(v: Seq<(String, FileType)>, i: int, j: int)
    requires
        by_depth(v),
        0 <= i < v.len(),
        0 <= j < v.len(),
        is_rel_ancestor(v[i].0@, v[j].0@),
    ensures
        i < j,
{
    if j <= i {
        assert(v[j].0@.len() <= v[i].0@.len());
    }
}

/// Under the merge rule a subvolume is never demoted: a path listed as a
/// subvolume, or already a subvolume, ends as a subvolume, whether or not
/// it is also inferred as a directory.
pub proof fn lemma_subvolume_wins(
    m: Map<Seq<char>, FileType>,
    subs: Set<Seq<char>>,
    dirs: Set<Seq<char>>,
    k: Seq<char>,
)
    requires
        subs.contains(k) || (m.contains_key(k) && m[k] == FileType::Subvolume),
    ensures
        merged(m, subs, dirs).contains_key(k),
        merged(m, subs, dirs)[k] == FileType::Subvolume,
{
}

/// A listed absolute path `c` is taken while listing `top`: it lies below
/// the discovery root `root` and, relative to it, below `top`.
pub open spec fn accepts(root: Seq<char>, top: Seq<char>, c: Seq<char>) -> bool {
    is_proper_descendant(root, c) && is_rel_below(top, rel_to(root, c))
}

/// The relative paths of the listed paths `cs` that are taken while
/// listing `top`.
pub open spec fn accepted(root: Seq<char>, top: Seq<char>, cs: Seq<Seq<char>>) -> Set<Seq<char>> {
    Set::new(|r: Seq<char>| exists|j: int| 0 <= j < cs.len() && #[trigger] accepts(root, top, cs[j]) && rel_to(root, cs[j]) == r)
}

/// The path `k` is a subvolume in `m`.
pub open spec fn is_sub(m: Map<Seq<char>, FileType>, k: Seq<char>) -> bool {
    m.contains_key(k) && m[k] == FileType::Subvolume
}

/// Shorter paths come first.
pub open spec fn by_depth(v: Seq<(String, FileType)>) -> bool {
    forall|i: int, j: int| 0 <= i < j < v.len() ==> v[i].0@.len() <= v[j].0@.len()
}

/// Listing a path that is not taken adds nothing.
proof fn lemma_unaccepted_step(root: Seq<char>, top: Seq<char>, cs: Seq<Seq<char>>, i: int)
    requires
        0 <= i < cs.len(),
        !accepts(root, top, cs[i]),
    ensures
        accepted(root, top, cs.subrange(0, i + 1)) == accepted(root, top, cs.subrange(0, i)),
{
    let ai = accepted(root, top, cs.subrange(0, i));
    let an = accepted(root, top, cs.subrange(0, i + 1));
    assert forall|x: Seq<char>| ai.contains(x) implies an.contains(x) by {
        let j = choose|j: int| 0 <= j < i && #[trigger] accepts(root, top, cs.subrange(0, i)[j]) && rel_to(root, cs.subrange(0, i)[j]) == x;
        assert(cs.subrange(0, i + 1)[j] == cs.subrange(0, i)[j]);
    }
    assert forall|x: Seq<char>| an.contains(x) implies ai.contains(x) by {
        let j = choose|j: int| 0 <= j < i + 1 && #[trigger] accepts(root, top, cs.subrange(0, i + 1)[j]) && rel_to(root, cs.subrange(0, i + 1)[j]) == x;
        assert(cs.subrange(0, i + 1)[j] == cs.subrange(0, i)[j]);
    }
    assert(an =~= ai);
}

/// `v` holds the first `i` entries of `f`, each once, in some order.
spec fn holds_first(v: Seq<(String, FileType)>, f: Seq<(String, FileType)>, i: int) -> bool {
    &&& v.len() == i
    &&& from_first(v, f, i)
    &&& covers_first(v, f, i)
    &&& distinct_paths(v)
}

#[verifier::opaque]
spec fn from_first(v: Seq<(String, FileType)>, f: Seq<(String, FileType)>, i: int) -> bool {
    forall|x: int| #![trigger v[x]] 0 <= x < v.len() ==> exists|j: int| 0 <= j < i && f[j] == v[x]
}

#[verifier::opaque]
spec fn covers_first(v: Seq<(String, FileType)>, f: Seq<(String, FileType)>, i: int) -> bool {
    forall|j: int| #![trigger f[j]] 0 <= j < i ==> exists|x: int| 0 <= x < v.len() && v[x] == f[j]
}

#[verifier::opaque]
spec fn distinct_paths(v: Seq<(String, FileType)>) -> bool {
    forall|x: int, y: int| 0 <= x < y < v.len() ==> v[x].0@ != v[y].0@
}

proof fn lemma_holds_first_step(f: Seq<(String, FileType)>, i: int, v: Seq<(String, FileType)>, p: int)
    requires
        holds_first(v, f, i),
        0 <= i < f.len(),
        0 <= p <= v.len(),
        forall|a: int, b: int| 0 <= a < b < f.len() ==> f[a].0@ != f[b].0@,
    ensures
        holds_first(v.insert(p, f[i]), f, i + 1),
{
    let w = v.insert(p, f[i]);
    assert(w.len() == i + 1);
    assert(forall|x: int| 0 <= x < p ==> #[trigger] w[x] == v[x]);
    assert(forall|x: int| p < x < w.len() ==> #[trigger] w[x] == v[x - 1]);
    assert(w[p] == f[i]);
    assert(from_first(w, f, i + 1)) by {
        reveal(from_first);
        assert forall|x: int| #![trigger w[x]] 0 <= x < w.len() implies exists|j: int| 0 <= j < i + 1 && f[j] == w[x] by {
            if x < p {
                let j = choose|j: int| 0 <= j < i && f[j] == v[x];
                assert(f[j] == w[x]);
            } else if x > p {
                let j = choose|j: int| 0 <= j < i && f[j] == v[x - 1];
                assert(f[j] == w[x]);
            } else {
                assert(f[i] == w[x]);
            }
        }
    }
    assert(covers_first(w, f, i + 1)) by {
        reveal(covers_first);
        assert forall|j: int| #![trigger f[j]] 0 <= j < i + 1 implies exists|x: int| 0 <= x < w.len() && w[x] == f[j] by {
            if j == i {
                assert(w[p] == f[j]);
            } else {
                let x = choose|x: int| 0 <= x < v.len() && v[x] == f[j];
                if x < p {
                    assert(w[x] == f[j]);
                } else {
                    assert(w[x + 1] == f[j]);
                }
            }
        }
    }
    assert(distinct_paths(w)) by {
        reveal(distinct_paths);
        assert forall|x: int| 0 <= x < v.len() implies v[x].0@ != f[i].0@ by {
            reveal(from_first);
            let j = choose|j: int| 0 <= j < i && f[j] == v[x];
        }
        assert forall|x: int, y: int| 0 <= x < y < w.len() implies w[x].0@ != w[y].0@ by {
            if y < p {
            } else if x < p && y == p {
            } else if x < p {
            } else if x == p {
            } else {
            }
        }
    }
}

proof fn lemma_holds_first_lists(v: Seq<(String, FileType)>, f: Seq<(String, FileType)>, m: Map<Seq<char>, FileType>)
    requires
        holds_first(v, f, f.len() as int),
        lists_exactly(f, m),
        forall|k: Seq<char>| #[trigger] m.contains_key(k) ==> is_clean_rel(k),
    ensures
        lists_exactly(v, m),
        forall|i: int| 0 <= i < v.len() ==> is_clean_rel(#[trigger] v[i].0@),
{
    reveal(from_first);
    reveal(covers_first);
    reveal(distinct_paths);
    assert forall|x: int| 0 <= x < v.len() implies #[trigger] m.contains_key(v[x].0@) && m[v[x].0@] == v[x].1 by {
        let j = choose|j: int| 0 <= j < f.len() && f[j] == v[x];
        assert(m.contains_key(f[j].0@));
    }
    assert forall|x: int| 0 <= x < v.len() implies is_clean_rel(#[trigger] v[x].0@) by {
        assert(m.contains_key(v[x].0@));
    }
    assert forall|k: Seq<char>| #[trigger] m.contains_key(k) implies exists|x: int| 0 <= x < v.len() && v[x].0@ == k by {
        let j = choose|j: int| 0 <= j < f.len() && f[j].0@ == k;
        let x = choose|x: int| 0 <= x < v.len() && v[x] == f[j];
        assert(v[x].0@ == k);
    }
}

/// Inserts `e` into `v` after every entry whose path is no longer than its
/// own; returns where it went.
fn insert_by_depth(v: &mut Vec<(String, FileType)>, e: (String, FileType)) -> (p: usize)
    requires
        by_depth(old(v)@),
    ensures
        p <= old(v)@.len(),
        final(v)@ == old(v)@.insert(p as int, e),
        by_depth(final(v)@),
{
    let len = e.0.as_str().unicode_len();
    let mut p: usize = 0;
    while p < v.len() && v[p].0.as_str().unicode_len() <= len
        invariant
            p <= v@.len(),
            len == e.0@.len(),
            forall|x: int| 0 <= x < p ==> #[trigger] v@[x].0@.len() <= len,
        decreases v@.len() - p,
    {
        p = p + 1;
    }
    let ghost old_v = v@;
    v.insert(p, e);
    proof {
        old_v.insert_ensures(p as int, e);
        assert forall|x: int, y: int| 0 <= x < y < v@.len() implies v@[x].0@.len() <= v@[y].0@.len() by {
            if y < p {
            } else if x < p && y == p {
            } else if x < p {
                assert(v@[y] == old_v[y - 1]);
            } else if x == p {
                assert(v@[y] == old_v[y - 1]);
                assert(old_v[p as int].0@.len() > len);
                if y - 1 > p {
                    assert(old_v[p as int].0@.len() <= old_v[y - 1].0@.len());
                }
            } else {
                assert(v@[y] == old_v[y - 1]);
                assert(v@[x] == old_v[x - 1]);
            }
        }
    }
    p
}

/// The relative paths, as views, of the entries of a node list.
pub open spec fn node_paths(v: Seq<(String, FileType)>) -> Seq<Seq<char>> {
    v.map_values(|e: (String, FileType)| e.0@)
}

/// The node list `v` holds each path of `m` exactly once, with its kind.
pub open spec fn lists_exactly(v: Seq<(String, FileType)>, m: Map<Seq<char>, FileType>) -> bool {
    &&& forall|i: int| 0 <= i < v.len() ==> #[trigger] m.contains_key(v[i].0@) && m[v[i].0@] == v[i].1
    &&& forall|k: Seq<char>| #[trigger] m.contains_key(k) ==> exists|i: int| 0 <= i < v.len() && v[i].0@ == k
    &&& forall|i: int, j: int| 0 <= i < j < v.len() ==> v[i].0@ != v[j].0@
}

/// The state of one discovery.
pub struct Discovery {
    root: String,
    found: Vec<(String, FileType)>,
    pending: Vec<(String, String)>,
    kinds: Ghost<Map<Seq<char>, FileType>>,
}

impl Discovery {
    /// The absolute path of the discovery root.
    pub closed spec fn root_path(&self) -> Seq<char> {
        self.root@
    }

    /// What has been found so far: relative path to kind.
    pub closed spec fn kinds(&self) -> Map<Seq<char>, FileType> {
        self.kinds@
    }

    /// The roots still to be listed, as (local path, path relative to the
    /// discovery root); the last one is listed next.
    pub closed spec fn pending(&self) -> Seq<(Seq<char>, Seq<char>)> {
        self.pending@.map_values(|e: (String, String)| (e.0@, e.1@))
    }

    closed spec fn wf_map(&self) -> bool {
        &&& lists_exactly(self.found@, self.kinds@)
        &&& forall|k: Seq<char>| #[trigger] self.kinds@.contains_key(k) ==> is_clean_rel(k)
    }

    /// The discovery's invariant: paths are clean and relative to the
    /// root, the map is closed under ancestors, and every pending root
    /// other than the discovery root is a found subvolume.
    pub closed spec fn wf(&self) -> bool {
        &&& self.wf_map()
        &&& ancestor_closed(self.kinds@)
        &&& forall|i: int| 0 <= i < self.pending@.len() ==> {
            let r = #[trigger] self.pending@[i].1@;
            r.len() == 0 || (self.kinds@.contains_key(r) && self.kinds@[r] == FileType::Subvolume)
        }
    }

    /// A discovery below the subvolume at `abs_path`, reached through the
    /// local path `local_path`; the root itself is listed first.
    pub fn new(local_path: String, abs_path: String) -> (d: Discovery)
        ensures
            d.wf(),
            d.root_path() == abs_path@,
            d.kinds() == Map::<Seq<char>, FileType>::empty(),
            d.pending() == seq![(local_path@, Seq::<char>::empty())],
    {
        let ghost lv = local_path@;
        let mut pending: Vec<(String, String)> = Vec::new();
        pending.push((local_path, String::new()));
        let d = Discovery { root: abs_path, found: Vec::new(), pending, kinds: Ghost(Map::empty()) };
        assert(d.pending() =~= seq![(lv, Seq::<char>::empty())]);
        d
    }

    /// The local path to list next, or `None` once discovery is complete.
    pub fn next_query(&self) -> (r: Option<String>)
        ensures
            r is None <==> self.pending().len() == 0,
            r is Some ==> r->0@ == self.pending().last().0,
    {
        let n = self.pending.len();
        if n == 0 {
            None
        } else {
            Some(self.pending[n - 1].0.clone())
        }
    }

    /// Whether every subvolume found has been listed.
    pub fn is_complete(&self) -> (b: bool)
        ensures
            b == (self.pending().len() == 0),
    {
        self.pending.len() == 0
    }

    /// Takes the absolute paths `children` that listing the next pending
    /// root printed. Each one below that root is recorded as a subvolume,
    /// the paths between the root and it as directories, and it is queued
    /// to be listed in turn unless it was already a known subvolume. Other
    /// paths are ignored.
    pub fn record_children(&mut self, children: &Vec<String>)
        requires
            old(self).wf(),
            old(self).pending().len() > 0,
        ensures
            final(self).wf(),
            final(self).root_path() == old(self).root_path(),
            ({
                let (local, top) = old(self).pending().last();
                let a = accepted(old(self).root_path(), top, views(children@));
                let p0 = old(self).pending();
                let p = final(self).pending();
                &&& final(self).kinds() == merged(old(self).kinds(), a, between(top, a))
                &&& p.len() >= p0.len() - 1
                &&& p.subrange(0, p0.len() - 1) == p0.drop_last()
                &&& forall|i: int| p0.len() - 1 <= i < p.len() ==> {
                    &&& a.contains(#[trigger] p[i].1)
                    &&& !is_sub(old(self).kinds(), p[i].1)
                    &&& p[i].0 == joined(local, p[i].1.subrange(below_start(top), p[i].1.len() as int))
                }
                &&& forall|r: Seq<char>| #[trigger] a.contains(r) && !is_sub(old(self).kinds(), r)
                    ==> exists|i: int| p0.len() - 1 <= i < p.len() && p[i].1 == r
                &&& forall|i: int, j: int| p0.len() - 1 <= i < j < p.len() ==> p[i].1 != p[j].1
            }),
    {
        let ghost k0 = self.kinds@;
        let ghost p0 = self.pending();
        let ghost cs = views(children@);
        let ghost root = self.root@;
        let (local, top) = self.pending.pop().unwrap();
        let ghost tv = top@;
        let ghost base = (p0.len() - 1) as int;
        proof {
            assert(self.pending() =~= p0.drop_last());
            assert(self.pending@.len() == base);
            assert(tv.len() == 0 || is_sub(k0, tv)) by {
                assert(old(self).pending@[base].1@ == tv);
            }
        }
        let mut i: usize = 0;
        proof {
            assert(self.kinds@ =~= merged(k0, accepted(root, tv, cs.subrange(0, 0)), between(tv, accepted(root, tv, cs.subrange(0, 0)))));
        }
        while i < children.len()
            invariant
                self.wf(),
                self.root@ == root,
                cs == views(children@),
                i <= children@.len(),
                tv == top@,
                p0 == old(self).pending(),
                base == p0.len() - 1,
                p0.len() > 0,
                tv == p0.last().1,
                local@ == p0.last().0,
                tv.len() == 0 || is_sub(k0, tv),
                self.kinds@ == merged(k0, accepted(root, tv, cs.subrange(0, i as int)), between(tv, accepted(root, tv, cs.subrange(0, i as int)))),
                self.pending().len() >= base,
                self.pending().subrange(0, base) == p0.drop_last(),
                forall|q: int| base <= q < self.pending().len() ==> {
                    &&& accepted(root, tv, cs.subrange(0, i as int)).contains(#[trigger] self.pending()[q].1)
                    &&& !is_sub(k0, self.pending()[q].1)
                    &&& self.pending()[q].0 == joined(local@, self.pending()[q].1.subrange(below_start(tv), self.pending()[q].1.len() as int))
                },
                forall|r: Seq<char>| #[trigger] accepted(root, tv, cs.subrange(0, i as int)).contains(r) && !is_sub(k0, r)
                    ==> exists|q: int| base <= q < self.pending().len() && self.pending()[q].1 == r,
                forall|q1: int, q2: int| base <= q1 < q2 < self.pending().len() ==> self.pending()[q1].1 != self.pending()[q2].1,
            decreases children@.len() - i,
        {
            let ghost ai = accepted(root, tv, cs.subrange(0, i as int));
            let ghost an = accepted(root, tv, cs.subrange(0, i + 1));
            let ghost cur = self.kinds@;
            let ghost pc = self.pending();
            let ghost c = cs[i as int];
            assert(children@[i as int]@ == c);
            let rel = relative_path(self.root.as_str(), children[i].as_str());
            match rel {
                Some(r) => {
                    if rel_below(top.as_str(), r.as_str()) {
                        let ghost rv = r@;
                        proof {
                            assert(accepts(root, tv, c));
                            assert(an =~= ai.insert(rv)) by {
                                assert(cs.subrange(0, i + 1)[i as int] == c);
                                assert forall|x: Seq<char>| ai.contains(x) implies an.contains(x) by {
                                    let j = choose|j: int| 0 <= j < i && #[trigger] accepts(root, tv, cs.subrange(0, i as int)[j]) && rel_to(root, cs.subrange(0, i as int)[j]) == x;
                                    assert(cs.subrange(0, i + 1)[j] == cs.subrange(0, i as int)[j]);
                                }
                                assert forall|x: Seq<char>| an.contains(x) implies ai.contains(x) || x == rv by {
                                    let j = choose|j: int| 0 <= j < i + 1 && #[trigger] accepts(root, tv, cs.subrange(0, i + 1)[j]) && rel_to(root, cs.subrange(0, i + 1)[j]) == x;
                                    if j < i {
                                        assert(cs.subrange(0, i + 1)[j] == cs.subrange(0, i as int)[j]);
                                    }
                                }
                            }
                            assert(tv.len() == 0 || is_sub(cur, tv));
                            assert forall|q: int| base <= q < pc.len() implies is_sub(cur, #[trigger] pc[q].1) by {
                                assert(self.pending@[q].1@ == pc[q].1);
                                assert(ai.contains(pc[q].1));
                                let j = choose|j: int| 0 <= j < i && #[trigger] accepts(root, tv, cs.subrange(0, i as int)[j]) && rel_to(root, cs.subrange(0, i as int)[j]) == pc[q].1;
                                assert(pc[q].1.len() > 0);
                            }
                        }
                        self.record_one(&local, &top, r);
                        proof {
                            let m = self.kinds@;
                            assert(between(tv, an) =~= between(tv, ai).union(between(tv, set![rv]))) by {
                                assert forall|x: Seq<char>| between(tv, an).contains(x) implies between(tv, ai).contains(x) || between(tv, set![rv]).contains(x) by {
                                    let q = choose|q: Seq<char>| #[trigger] an.contains(q) && is_rel_ancestor(x, q) && is_rel_below(tv, x);
                                    if q == rv {
                                        assert(set![rv].contains(q));
                                    } else {
                                        assert(ai.contains(q));
                                    }
                                }
                                assert forall|x: Seq<char>| between(tv, ai).contains(x) implies between(tv, an).contains(x) by {
                                    let q = choose|q: Seq<char>| #[trigger] ai.contains(q) && is_rel_ancestor(x, q) && is_rel_below(tv, x);
                                    assert(an.contains(q));
                                }
                                assert forall|x: Seq<char>| between(tv, set![rv]).contains(x) implies between(tv, an).contains(x) by {
                                    let q = choose|q: Seq<char>| #[trigger] set![rv].contains(q) && is_rel_ancestor(x, q) && is_rel_below(tv, x);
                                    assert(an.contains(q));
                                }
                            }
                            assert(m =~= merged(k0, an, between(tv, an)));
                            let pn = self.pending();
                            if is_sub(cur, rv) {
                                assert(pn == pc);
                            } else {
                                assert(pn == pc.push((joined(local@, rv.subrange(below_start(tv), rv.len() as int)), rv)));
                                assert forall|q: int| base <= q < pc.len() implies pc[q].1 != rv by {
                                    assert(is_sub(cur, pc[q].1));
                                }
                            }
                            assert(pn.subrange(0, base) =~= pc.subrange(0, base));
                            assert forall|x: Seq<char>| #[trigger] an.contains(x) && !is_sub(k0, x)
                                implies exists|q: int| base <= q < pn.len() && pn[q].1 == x by {
                                if x == rv && !is_sub(cur, rv) {
                                    assert(pn[pc.len() as int].1 == x);
                                } else if x == rv {
                                    assert(ai.contains(x));
                                    let q = choose|q: int| base <= q < pc.len() && pc[q].1 == x;
                                    assert(pn[q].1 == x);
                                } else {
                                    assert(ai.contains(x));
                                    let q = choose|q: int| base <= q < pc.len() && pc[q].1 == x;
                                    assert(pn[q].1 == x);
                                }
                            }
                        }
                    } else {
                        proof { lemma_unaccepted_step(root, tv, cs, i as int); }
                    }
                },
                None => {
                    proof { lemma_unaccepted_step(root, tv, cs, i as int); }
                },
            }
            i = i + 1;
        }
        proof {
            assert(cs.subrange(0, i as int) =~= cs);
        }
    }

    /// The node list: every path found, relative to the root, with its
    /// kind, shorter paths first.
    pub fn nodes(&self) -> (v: Vec<(String, FileType)>)
        requires
            self.wf(),
        ensures
            lists_exactly(v@, self.kinds()),
            by_depth(v@),
            forall|i: int| 0 <= i < v@.len() ==> is_clean_rel(#[trigger] v@[i].0@),
            ancestor_closed(self.kinds()),
    {
        let mut v: Vec<(String, FileType)> = Vec::new();
        let mut i: usize = 0;
        proof {
            reveal(from_first);
            reveal(covers_first);
            reveal(distinct_paths);
        }
        while i < self.found.len()
            invariant
                self.wf_map(),
                i <= self.found@.len(),
                by_depth(v@),
                holds_first(v@, self.found@, i as int),
            decreases self.found@.len() - i,
        {
            let e = (self.found[i].0.clone(), self.found[i].1);
            assert(e == self.found@[i as int]);
            let ghost old_v = v@;
            let p = insert_by_depth(&mut v, e);
            proof {
                lemma_holds_first_step(self.found@, i as int, old_v, p as int);
            }
            i = i + 1;
        }
        proof {
            lemma_holds_first_lists(v@, self.found@, self.kinds@);
        }
        v
    }

    fn record_one(&mut self, local: &String, top: &String, r: String)
        requires
            old(self).wf(),
            is_clean_rel(r@),
            is_rel_below(top@, r@),
            top@.len() == 0 || (old(self).kinds@.contains_key(top@) && old(self).kinds@[top@]
                == FileType::Subvolume),
        ensures
            final(self).wf(),
            final(self).root == old(self).root,
            final(self).kinds@ == merged(old(self).kinds@, set![r@], between(top@, set![r@])),
            old(self).kinds@.contains_key(r@) && old(self).kinds@[r@] == FileType::Subvolume
                ==> final(self).pending@ == old(self).pending@,
            !(old(self).kinds@.contains_key(r@) && old(self).kinds@[r@] == FileType::Subvolume)
                ==> final(self).pending() == old(self).pending().push(
                (joined(local@, r@.subrange(below_start(top@), r@.len() as int)), r@),
            ),
    {
        let ghost k0 = self.kinds@;
        let ghost rv = r@;
        let ghost tv = top@;
        let ghost d = between(tv, set![rv]);
        let was_sub = match self.find(&r) {
            Some(i) => self.found[i].1 == FileType::Subvolume,
            None => false,
        };
        let n = r.as_str().unicode_len();
        let tn = top.as_str().unicode_len();
        let s0: usize = if tn == 0 { 0 } else { tn + 1 };
        let rest = String::from_str(r.as_str().substring_char(s0, n));
        self.put(r.clone(), FileType::Subvolume);
        let mut j: usize = s0;
        proof {
            assert(self.kinds@ =~= merged(k0, set![rv], Set::new(|a: Seq<char>| d.contains(a) && a.len() < j)));
        }
        while j < n
            invariant
                self.wf_map(),
                self.root == old(self).root,
                self.pending == old(self).pending,
                rv == r@,
                n == rv.len(),
                s0 <= j <= n,
                s0 == below_start(tv),
                is_clean_rel(rv),
                is_rel_below(tv, rv),
                d == between(tv, set![rv]),
                self.kinds@ == merged(k0, set![rv], Set::new(|a: Seq<char>| d.contains(a) && a.len() < j)),
            decreases n - j,
        {
            let ghost before = self.kinds@;
            if r.as_str().get_char(j) == '/' {
                let a = String::from_str(r.as_str().substring_char(0, j));
                proof {
                    assert(is_rel_ancestor(a@, rv));
                    lemma_ancestor_clean(a@, rv);
                    if tv.len() > 0 {
                        assert(a@[tv.len() as int] == rv[tv.len() as int]);
                        assert(a@.subrange(0, tv.len() as int) =~= rv.subrange(0, tv.len() as int));
                    }
                    assert(set![rv].contains(rv));
                    assert(d.contains(a@));
                }
                if self.find(&a).is_none() {
                    self.put(a, FileType::Directory);
                }
                proof {
                    assert(self.kinds@ =~= merged(k0, set![rv], Set::new(|x: Seq<char>| d.contains(x) && x.len() < j + 1)));
                }
            } else {
                proof {
                    assert forall|x: Seq<char>| d.contains(x) implies x.len() != j by {
                        let q = choose|q: Seq<char>| #[trigger] set![rv].contains(q) && is_rel_ancestor(x, q) && is_rel_below(tv, x);
                        assert(q == rv);
                    }
                    assert(self.kinds@ =~= merged(k0, set![rv], Set::new(|x: Seq<char>| d.contains(x) && x.len() < j + 1)));
                }
            }
            j = j + 1;
        }
        proof {
            assert forall|x: Seq<char>| d.contains(x) implies x.len() < n by {
                let q = choose|q: Seq<char>| #[trigger] set![rv].contains(q) && is_rel_ancestor(x, q) && is_rel_below(tv, x);
                assert(q == rv);
            }
            assert(Set::new(|x: Seq<char>| d.contains(x) && x.len() < n) =~= d);
            let m = self.kinds@;
            assert forall|a: Seq<char>| is_rel_ancestor(a, rv) implies #[trigger] m.contains_key(a) by {
                if is_rel_below(tv, a) {
                    assert(set![rv].contains(rv));
                    assert(d.contains(a));
                } else if a.len() < tv.len() {
                    lemma_ancestors_nested(a, tv, rv);
                    assert(k0.contains_key(a));
                } else if a.len() == tv.len() {
                    assert(a =~= tv);
                } else {
                    lemma_ancestors_nested(tv, a, rv);
                }
            }
            assert forall|a: Seq<char>, k: Seq<char>|
                #![trigger is_rel_ancestor(a, k), m.dom().contains(k)]
                m.dom().contains(k) && is_rel_ancestor(a, k) implies m.dom().contains(a) by {
                if k0.contains_key(k) {
                } else if k == rv {
                } else {
                    assert(d.contains(k));
                    let q = choose|q: Seq<char>| #[trigger] set![rv].contains(q) && is_rel_ancestor(k, q) && is_rel_below(tv, k);
                    assert(q == rv);
                    lemma_ancestor_trans(a, k, rv);
                }
            }
        }
        if !was_sub {
            let child = join_path(local.as_str(), rest.as_str());
            self.pending.push((child, r));
            proof {
                assert(self.pending() =~= old(self).pending().push(
                    (joined(local@, rv.subrange(below_start(tv), rv.len() as int)), rv)));
            }
        }
    }

    fn find(&self, r: &String) -> (res: Option<usize>)
        requires
            self.wf_map(),
        ensures
            res is Some <==> self.kinds@.contains_key(r@),
            res is Some ==> res->0 < self.found@.len() && self.found@[res->0 as int].0@ == r@,
    {
        let mut i: usize = 0;
        proof {
            reveal(from_first);
            reveal(covers_first);
            reveal(distinct_paths);
        }
        while i < self.found.len()
            invariant
                self.wf_map(),
                i <= self.found@.len(),
                forall|j: int| 0 <= j < i ==> self.found@[j].0@ != r@,
            decreases self.found@.len() - i,
        {
            if self.found[i].0.eq(r) {
                return Some(i);
            }
            i = i + 1;
        }
        None
    }

    fn put(&mut self, r: String, k: FileType)
        requires
            old(self).wf_map(),
            is_clean_rel(r@),
        ensures
            final(self).wf_map(),
            final(self).kinds@ == old(self).kinds@.insert(r@, k),
            final(self).root == old(self).root,
            final(self).pending == old(self).pending,
    {
        let ghost m = self.kinds@.insert(r@, k);
        let ghost f0 = self.found@;
        let ghost rv = r@;
        match self.find(&r) {
            Some(i) => {
                self.found.set(i, (r, k));
                proof {
                    assert forall|j: int| 0 <= j < self.found@.len() implies #[trigger] m.contains_key(
                        self.found@[j].0@) && m[self.found@[j].0@] == self.found@[j].1 by {
                        if j != i {
                            assert(f0[j].0@ != f0[i as int].0@);
                        }
                    }
                    assert forall|q: Seq<char>| #[trigger] m.contains_key(q) implies exists|j: int|
                        0 <= j < self.found@.len() && self.found@[j].0@ == q by {
                        if q == rv {
                            assert(self.found@[i as int].0@ == q);
                        } else {
                            let j = choose|j: int| 0 <= j < f0.len() && f0[j].0@ == q;
                            assert(self.found@[j].0@ == q);
                        }
                    }
                    assert forall|a: int, b: int| 0 <= a < b < self.found@.len() implies self.found@[a].0@
                        != self.found@[b].0@ by {
                        if a != i && b != i {
                            assert(f0[a].0@ != f0[b].0@);
                        } else if a == i {
                            assert(f0[a].0@ != f0[b].0@);
                        } else {
                            assert(f0[a].0@ != f0[b].0@);
                        }
                    }
                }
            },
            None => {
                self.found.push((r, k));
                proof {
                    assert forall|j: int| 0 <= j < self.found@.len() implies #[trigger] m.contains_key(
                        self.found@[j].0@) && m[self.found@[j].0@] == self.found@[j].1 by {
                        if j < f0.len() {
                            assert(f0[j].0@ == self.found@[j].0@);
                            assert(self.kinds@.contains_key(f0[j].0@));
                        }
                    }
                    assert forall|q: Seq<char>| #[trigger] m.contains_key(q) implies exists|j: int|
                        0 <= j < self.found@.len() && self.found@[j].0@ == q by {
                        if q == rv {
                            assert(self.found@[f0.len() as int].0@ == q);
                        } else {
                            let j = choose|j: int| 0 <= j < f0.len() && f0[j].0@ == q;
                            assert(self.found@[j].0@ == q);
                        }
                    }
                    assert forall|a: int, b: int| 0 <= a < b < self.found@.len() implies self.found@[a].0@
                        != self.found@[b].0@ by {
                        if b == f0.len() {
                            assert(self.kinds@.contains_key(f0[a].0@));
                        } else {
                            assert(f0[a].0@ != f0[b].0@);
                        }
                    }
                }
            },
        }
        self.kinds = Ghost(m);
        assert forall|q: Seq<char>| #[trigger] self.kinds@.contains_key(q) implies is_clean_rel(q) by {
            if q != rv {
                assert(old(self).kinds@.contains_key(q));
            }
        }
        assert(lists_exactly(self.found@, self.kinds@));
    }
}

} // verus!
