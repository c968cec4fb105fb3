//! The crate graph: one node per compilation unit, one edge per declared
//! dependency.
//!
//! The graph must stay acyclic, every dependency edge must point at a
//! registered crate, and no crate may hold the same named dependency twice.
//! Adding an edge that would close a cycle is refused with an error; the
//! driver treats that as a fatal misconfiguration.

use vstd::prelude::*;

use crate::diagnostics::FileId;

verus! {

/// Identifier of a crate registered in the graph.
#[derive(Clone, Copy, PartialEq, Eq, Structural, Debug)]
pub struct CrateId {
    pub idx: usize,
}

/// A named dependency edge from one crate to another.
pub struct Dependency {
    pub name: String,
    pub crate_id: CrateId,
}

/// Mathematical value of a `Dependency`.
#[verifier::ext_equal]
pub ghost struct DependencyV {
    pub name: Seq<char>,
    pub crate_id: CrateId,
}

impl View for Dependency {
    type V = DependencyV;

    open spec fn view(&self) -> DependencyV {
        DependencyV { name: self.name@, crate_id: self.crate_id }
    }
}

/// A node of the crate graph: the crate's root file, whether it is the
/// standard library, and its outgoing dependency edges.
pub struct CrateUnit {
    pub root_file_id: FileId,
    pub is_stdlib: bool,
    pub dependencies: Vec<Dependency>,
}

/// Mathematical value of a `CrateUnit`.
#[verifier::ext_equal]
pub ghost struct CrateUnitV {
    pub root_file_id: FileId,
    pub is_stdlib: bool,
    pub dependencies: Seq<DependencyV>,
}

impl View for CrateUnit {
    type V = CrateUnitV;

    open spec fn view(&self) -> CrateUnitV {
        CrateUnitV {
            root_file_id: self.root_file_id,
            is_stdlib: self.is_stdlib,
            dependencies: self.dependencies@.map_values(|d: Dependency| d@),
        }
    }
}

/// Refusal to add a dependency edge that would close a cycle.
#[derive(Clone, Copy, PartialEq, Eq, Structural, Debug)]
pub enum CrateGraphError {
    CyclicDependency { from: CrateId, to: CrateId },
}

/// The directed graph of crates and their dependencies.
pub struct CrateGraph {
    pub crates: Vec<CrateUnit>,
}

/// Mathematical value of a `CrateGraph`.
#[verifier::ext_equal]
pub ghost struct CrateGraphV {
    pub crates: Seq<CrateUnitV>,
}

impl View for CrateGraph {
    type V = CrateGraphV;

    open spec fn view(&self) -> CrateGraphV {
        CrateGraphV { crates: self.crates@.map_values(|u: CrateUnit| u@) }
    }
}

impl CrateGraphV {
    /// `i` names a registered crate.
    pub open spec fn valid(self, i: int) -> bool {
        0 <= i < self.crates.len()
    }

    /// The dependency edges leaving crate `i`.
    pub open spec fn deps(self, i: int) -> Seq<DependencyV> {
        self.crates[i].dependencies
    }

    /// Crate `a` declares a dependency on crate `b`, under any name.
    pub open spec fn has_edge(self, a: int, b: int) -> bool {
        self.valid(a) && exists|j: int|
            0 <= j < self.deps(a).len() && (#[trigger] self.deps(a)[j]).crate_id.idx == b
    }

    /// Crate `a` declares a dependency on crate `b` under `name`.
    pub open spec fn has_dep(self, a: int, name: Seq<char>, b: int) -> bool {
        self.valid(a) && exists|j: int|
            0 <= j < self.deps(a).len() && (#[trigger] self.deps(a)[j]).name == name
                && self.deps(a)[j].crate_id.idx == b
    }

    /// `p` is a walk through the graph: nonempty, over registered crates,
    /// following dependency edges.
    pub open spec fn is_path(self, p: Seq<int>) -> bool {
        &&& p.len() >= 1
        &&& forall|k: int| 0 <= k < p.len() ==> self.valid(#[trigger] p[k])
        &&& forall|k: int| 0 <= k < p.len() - 1 ==> #[trigger] self.has_edge(p[k], p[k + 1])
    }

    /// Some walk leads from crate `a` to crate `b` (trivially, when they are
    /// the same registered crate).
    pub open spec fn reaches(self, a: int, b: int) -> bool {
        exists|p: Seq<int>| #[trigger] self.is_path(p) && p.first() == a && p.last() == b
    }

    /// Every dependency edge points at a registered crate.
    pub open spec fn targets_valid(self) -> bool {
        forall|a: int, j: int|
            self.valid(a) && 0 <= j < self.deps(a).len()
                ==> self.valid((#[trigger] self.deps(a)[j]).crate_id.idx as int)
    }

    /// No dependency edge closes a cycle.
    pub open spec fn acyclic(self) -> bool {
        forall|a: int, b: int| #[trigger] self.has_edge(a, b) ==> !self.reaches(b, a)
    }

    /// No crate holds the same named dependency twice.
    pub open spec fn dup_free(self) -> bool {
        forall|a: int, j: int, k: int|
            self.valid(a) && 0 <= j < k < self.deps(a).len()
                ==> !((#[trigger] self.deps(a)[j]).name == (#[trigger] self.deps(a)[k]).name
                    && self.deps(a)[j].crate_id == self.deps(a)[k].crate_id)
    }

    /// `i` is a registered crate other than the standard library.
    pub open spec fn plain(self, i: int) -> bool {
        self.valid(i) && !self.crates[i].is_stdlib
    }

    /// At most one crate is the standard library.
    pub open spec fn single_stdlib(self) -> bool {
        forall|i: int, j: int|
            self.valid(i) && self.valid(j) && (#[trigger] self.crates[i]).is_stdlib
                && (#[trigger] self.crates[j]).is_stdlib ==> i == j
    }

    /// Two distinct crates outside the standard library never share a root
    /// file.
    pub open spec fn unique_roots(self) -> bool {
        forall|i: int, j: int|
            self.plain(i) && self.plain(j)
                && (#[trigger] self.crates[i]).root_file_id == (#[trigger] self.crates[j]).root_file_id
                ==> i == j
    }

    /// The graph invariant: edges point at registered crates, the graph is
    /// acyclic, named edges are not duplicated, the standard library is
    /// registered at most once, and root files identify crates.
    pub open spec fn wf(self) -> bool {
        &&& self.targets_valid()
        &&& self.acyclic()
        &&& self.dup_free()
        &&& self.single_stdlib()
        &&& self.unique_roots()
    }

    /// Some registered crate other than the standard library has this root
    /// file.
    pub open spec fn has_plain_crate_with_root(self, file_id: FileId) -> bool {
        exists|i: int| self.plain(i) && (#[trigger] self.crates[i]).root_file_id == file_id
    }

    /// Some registered crate is the standard library.
    pub open spec fn has_stdlib(self) -> bool {
        exists|i: int| self.valid(i) && (#[trigger] self.crates[i]).is_stdlib
    }
}

/// A registered crate reaches itself by the trivial walk.
pub proof fn lemma_reaches_self(g: CrateGraphV, x: int)
    requires
        g.valid(x),
    ensures
        g.reaches(x, x),
{
    let p = seq![x];
    assert(g.is_path(p));
    assert(p.first() == x && p.last() == x);
}

/// A single dependency edge is a walk.
pub proof fn lemma_reaches_step(g: CrateGraphV, a: int, b: int)
    requires
        g.has_edge(a, b),
        g.valid(b),
    ensures
        g.reaches(a, b),
{
    let p = seq![a, b];
    assert(p[0] == a && p[1] == b);
    assert(g.is_path(p));
    assert(p.first() == a && p.last() == b);
}

/// Walks compose: reaching `b` from `a` and `c` from `b` reaches `c` from
/// `a`.
pub proof fn lemma_reaches_trans(g: CrateGraphV, a: int, b: int, c: int)
    requires
        g.reaches(a, b),
        g.reaches(b, c),
    ensures
        g.reaches(a, c),
{
    let p = choose|p: Seq<int>| #[trigger] g.is_path(p) && p.first() == a && p.last() == b;
    let q = choose|q: Seq<int>| #[trigger] g.is_path(q) && q.first() == b && q.last() == c;
    if q.len() == 1 {
        assert(g.reaches(a, c));
    } else {
        let r = p + q.subrange(1, q.len() as int);
        assert(r.len() == p.len() + q.len() - 1);
        assert forall|k: int| 0 <= k < r.len() implies g.valid(#[trigger] r[k]) by {
            if k < p.len() {
                assert(r[k] == p[k]);
            } else {
                assert(r[k] == q[k - p.len() + 1]);
            }
        }
        assert forall|k: int| 0 <= k < r.len() - 1 implies #[trigger] g.has_edge(r[k], r[k + 1]) by {
            if k + 1 < p.len() {
                assert(r[k] == p[k] && r[k + 1] == p[k + 1]);
            } else if k + 1 == p.len() {
                assert(r[k] == p[p.len() - 1] && r[k + 1] == q[1]);
                assert(p[p.len() - 1] == b && q[0] == b);
                assert(g.has_edge(q[0], q[1]));
            } else {
                assert(r[k] == q[k - p.len() + 1] && r[k + 1] == q[k - p.len() + 2]);
                assert(g.has_edge(q[k - p.len() + 1], q[k - p.len() + 2]));
            }
        }
        assert(g.is_path(r));
        assert(r.first() == p.first());
        assert(r.last() == q[q.len() - 1]);
        assert(g.reaches(a, c));
    }
}

/// Appending a crate with no dependencies leaves every walk of the old graph
/// intact and adds none: the invariant is preserved.
pub proof fn lemma_push_node_preserves_wf(g: CrateGraphV, g2: CrateGraphV, unit: CrateUnitV)
    requires
        g.wf(),
        unit.dependencies.len() == 0,
        unit.is_stdlib ==> !g.has_stdlib(),
        !unit.is_stdlib ==> !g.has_plain_crate_with_root(unit.root_file_id),
        g2.crates == g.crates.push(unit),
    ensures
        g2.wf(),
        forall|a: int, b: int| #[trigger] g.reaches(a, b) ==> g2.reaches(a, b),
        !unit.is_stdlib ==> g2.has_stdlib() == g.has_stdlib(),
{
    let n = g.crates.len() as int;
    if !unit.is_stdlib {
        if g2.has_stdlib() {
            let i = choose|i: int| g2.valid(i) && (#[trigger] g2.crates[i]).is_stdlib;
            assert(i < n && g2.crates[i] == g.crates[i]);
            assert(g.has_stdlib());
        }
        if g.has_stdlib() {
            let i = choose|i: int| g.valid(i) && (#[trigger] g.crates[i]).is_stdlib;
            assert(g2.crates[i] == g.crates[i]);
            assert(g2.has_stdlib());
        }
    }
    assert forall|a: int, j: int|
        g2.valid(a) && 0 <= j < g2.deps(a).len() implies g2.valid(
        (#[trigger] g2.deps(a)[j]).crate_id.idx as int,
    ) by {
        if a < n {
            assert(g2.crates[a] == g.crates[a]);
            assert(g.valid(g.deps(a)[j].crate_id.idx as int));
        }
    }
    assert forall|a: int, b: int| #[trigger] g2.has_edge(a, b) implies !g2.reaches(b, a) by {
        if g2.reaches(b, a) {
            assert(a != n) by {
                if a == n {
                    let j = choose|j: int|
                        0 <= j < g2.deps(a).len() && (#[trigger] g2.deps(a)[j]).crate_id.idx == b;
                    assert(false);
                }
            }
            assert(g2.crates[a] == g.crates[a]);
            assert(g.has_edge(a, b)) by {
                let j = choose|j: int|
                    0 <= j < g2.deps(a).len() && (#[trigger] g2.deps(a)[j]).crate_id.idx == b;
                assert(g.deps(a)[j].crate_id.idx == b);
            }
            assert(g.valid(b)) by {
                let j = choose|j: int|
                    0 <= j < g.deps(a).len() && (#[trigger] g.deps(a)[j]).crate_id.idx == b;
                assert(g.valid(g.deps(a)[j].crate_id.idx as int));
            }
            let p = choose|p: Seq<int>| #[trigger] g2.is_path(p) && p.first() == b && p.last() == a;
            assert forall|k: int| 0 <= k < p.len() implies 0 <= #[trigger] p[k] < n by {
                if k < p.len() - 1 {
                    assert(g2.has_edge(p[k], p[k + 1]));
                    if p[k] == n {
                        let j = choose|j: int|
                            0 <= j < g2.deps(p[k]).len() && (#[trigger] g2.deps(p[k])[j]).crate_id.idx
                                == p[k + 1];
                        assert(false);
                    }
                    assert(g2.valid(p[k]));
                } else {
                    // the last node: either the walk is trivial and it is
                    // `b`, or it is the target of the walk's final edge
                    if p.len() == 1 {
                        assert(p[k] == b);
                    } else {
                        assert(g2.has_edge(p[k - 1], p[k - 1 + 1]));
                        assert(g2.has_edge(p[k - 1], p[k]));
                        let j = choose|j: int|
                            0 <= j < g2.deps(p[k - 1]).len()
                                && (#[trigger] g2.deps(p[k - 1])[j]).crate_id.idx == p[k];
                        if p[k - 1] == n {
                            assert(false);
                        } else {
                            assert(g2.crates[p[k - 1]] == g.crates[p[k - 1]]);
                            assert(g.valid(g.deps(p[k - 1])[j].crate_id.idx as int));
                        }
                    }
                }
            }
            assert forall|k: int| 0 <= k < p.len() - 1 implies #[trigger] g.has_edge(
                p[k],
                p[k + 1],
            ) by {
                assert(g2.has_edge(p[k], p[k + 1]));
                assert(g2.crates[p[k]] == g.crates[p[k]]);
                let j = choose|j: int|
                    0 <= j < g2.deps(p[k]).len() && (#[trigger] g2.deps(p[k])[j]).crate_id.idx
                        == p[k + 1];
                assert(g.deps(p[k])[j].crate_id.idx == p[k + 1]);
            }
            assert(g.is_path(p));
            assert(g.reaches(b, a));
            assert(false);
        }
    }
    assert forall|a: int, j: int, k: int|
        g2.valid(a) && 0 <= j < k < g2.deps(a).len() implies !((#[trigger] g2.deps(a)[j]).name
        == (#[trigger] g2.deps(a)[k]).name && g2.deps(a)[j].crate_id == g2.deps(a)[k].crate_id) by {
        if a < n {
            assert(g2.crates[a] == g.crates[a]);
            assert(!(g.deps(a)[j].name == g.deps(a)[k].name && g.deps(a)[j].crate_id == g.deps(
                a,
            )[k].crate_id));
        } else {
            assert(g2.deps(a).len() == 0);
        }
    }
    assert forall|i: int, j: int|
        g2.valid(i) && g2.valid(j) && (#[trigger] g2.crates[i]).is_stdlib
            && (#[trigger] g2.crates[j]).is_stdlib implies i == j by {
        if i < n && j < n {
            assert(g.crates[i].is_stdlib && g.crates[j].is_stdlib);
        } else if i == n && j < n {
            assert(g.crates[j].is_stdlib);
            assert(g.has_stdlib());
            assert(false);
        } else if j == n && i < n {
            assert(g.crates[i].is_stdlib);
            assert(g.has_stdlib());
            assert(false);
        }
    }
    assert forall|i: int, j: int|
        g2.plain(i) && g2.plain(j) && (#[trigger] g2.crates[i]).root_file_id == (
        #[trigger] g2.crates[j]).root_file_id implies i == j by {
        if i < n && j < n {
            assert(g.plain(i) && g.plain(j));
            assert(g.crates[i].root_file_id == g.crates[j].root_file_id);
        } else if i == n && j < n {
            assert(g.plain(j) && g.crates[j].root_file_id == unit.root_file_id);
            assert(g.has_plain_crate_with_root(unit.root_file_id));
            assert(false);
        } else if j == n && i < n {
            assert(g.plain(i) && g.crates[i].root_file_id == unit.root_file_id);
            assert(g.has_plain_crate_with_root(unit.root_file_id));
            assert(false);
        }
    }
    assert forall|a: int, b: int| #[trigger] g.reaches(a, b) implies g2.reaches(a, b) by {
        let p = choose|p: Seq<int>| #[trigger] g.is_path(p) && p.first() == a && p.last() == b;
        assert forall|k: int| 0 <= k < p.len() - 1 implies #[trigger] g2.has_edge(p[k], p[k + 1]) by {
            assert(g.has_edge(p[k], p[k + 1]));
            assert(g2.crates[p[k]] == g.crates[p[k]]);
            let j = choose|j: int|
                0 <= j < g.deps(p[k]).len() && (#[trigger] g.deps(p[k])[j]).crate_id.idx == p[k
                    + 1];
            assert(g2.deps(p[k])[j].crate_id.idx == p[k + 1]);
        }
        assert(g2.is_path(p));
    }
}


/// How many entries of `s` are still unmarked.
pub open spec fn count_unmarked(s: Seq<bool>) -> nat
    decreases s.len(),
{
    if s.len() == 0 {
        0
    } else {
        (if s.last() {
            0nat
        } else {
            1nat
        }) + count_unmarked(s.drop_last())
    }
}

/// Marking an unmarked entry strictly shrinks the unmarked count.
proof fn lemma_count_unmarked_update(s: Seq<bool>, i: int)
    requires
        0 <= i < s.len(),
        !s[i],
    ensures
        count_unmarked(s.update(i, true)) < count_unmarked(s),
    decreases s.len(),
{
    let s2 = s.update(i, true);
    if i == s.len() - 1 {
        assert(s2.drop_last() =~= s.drop_last());
        assert(s2.last() && !s.last());
    } else {
        assert(s2.drop_last() =~= s.drop_last().update(i, true));
        assert(s2.last() == s.last());
        lemma_count_unmarked_update(s.drop_last(), i);
    }
}

/// A set of crates that contains the start of a walk and is closed under
/// dependency edges contains the walk's end.
proof fn lemma_closed_under_edges(g: CrateGraphV, marked: Seq<bool>, p: Seq<int>)
    requires
        marked.len() == g.crates.len(),
        g.is_path(p),
        marked[p.first()],
        forall|a: int, b: int|
            0 <= a < marked.len() && marked[a] && #[trigger] g.has_edge(a, b) && 0 <= b
                < marked.len() ==> marked[b],
        g.targets_valid(),
    ensures
        marked[p.last()],
    decreases p.len(),
{
    if p.len() > 1 {
        assert(g.has_edge(p[0int], p[0int + 1]));
        assert(g.valid(p[1]));
        assert(marked[p[1]]);
        let tail = p.subrange(1, p.len() as int);
        assert forall|k: int| 0 <= k < tail.len() - 1 implies #[trigger] g.has_edge(
            tail[k],
            tail[k + 1],
        ) by {
            assert(tail[k] == p[k + 1] && tail[k + 1] == p[k + 1 + 1]);
            assert(g.has_edge(p[k + 1], p[k + 1 + 1]));
        }
        assert(g.is_path(tail));
        lemma_closed_under_edges(g, marked, tail);
        assert(p.last() == tail.last());
    }
}

/// A walk of the graph with one dependency edge added either already existed
/// or passes through the new edge.
proof fn lemma_new_edge_path_decomposition(
    g: CrateGraphV,
    g2: CrateGraphV,
    from: int,
    to: int,
    dep: DependencyV,
    p: Seq<int>,
)
    requires
        g.valid(from),
        dep.crate_id.idx == to,
        g2.crates == g.crates.update(
            from,
            CrateUnitV {
                root_file_id: g.crates[from].root_file_id,
                is_stdlib: g.crates[from].is_stdlib,
                dependencies: g.crates[from].dependencies.push(dep),
            },
        ),
        g2.is_path(p),
    ensures
        g.reaches(p.first(), p.last()) || (g.reaches(p.first(), from) && g.reaches(to, p.last())),
    decreases p.len(),
{
    let x = p.first();
    if p.len() == 1 {
        assert(g2.valid(x) && g.valid(x));
        lemma_reaches_self(g, x);
    } else {
        let z = p[1];
        assert(g2.has_edge(p[0int], p[0int + 1]));
        assert(g2.valid(z) && g.valid(z));
        let tail = p.subrange(1, p.len() as int);
        assert forall|k: int| 0 <= k < tail.len() - 1 implies #[trigger] g2.has_edge(
            tail[k],
            tail[k + 1],
        ) by {
            assert(tail[k] == p[k + 1] && tail[k + 1] == p[k + 1 + 1]);
            assert(g2.has_edge(p[k + 1], p[k + 1 + 1]));
        }
        assert(g2.is_path(tail));
        lemma_new_edge_path_decomposition(g, g2, from, to, dep, tail);
        assert(tail.first() == z && tail.last() == p.last());
        let j = choose|j: int|
            0 <= j < g2.deps(x).len() && (#[trigger] g2.deps(x)[j]).crate_id.idx == z;
        let old_edge = if x != from {
            assert(g2.crates[x] == g.crates[x]);
            assert(g.deps(x)[j].crate_id.idx == z);
            true
        } else if j < g.deps(from).len() {
            assert(g2.deps(from) == g.deps(from).push(dep));
            assert(g.deps(x)[j].crate_id.idx == z);
            true
        } else {
            assert(g2.deps(from) == g.deps(from).push(dep));
            assert(g2.deps(x)[j] == dep);
            assert(z == to);
            false
        };
        if old_edge {
            assert(g.has_edge(x, z));
            lemma_reaches_step(g, x, z);
            if g.reaches(z, p.last()) {
                lemma_reaches_trans(g, x, z, p.last());
            } else {
                lemma_reaches_trans(g, x, z, from);
            }
        } else {
            // the walk's first step is the new edge itself
            lemma_reaches_self(g, from);
            assert(g.reaches(to, p.last()));
        }
    }
}

/// Pushing the edge `from -> to` keeps the graph invariant, provided `to`
/// does not already reach `from` and the named edge is not a duplicate.
proof fn lemma_add_edge_preserves_wf(
    g: CrateGraphV,
    g2: CrateGraphV,
    from: int,
    to: int,
    dep: DependencyV,
)
    requires
        g.wf(),
        g.valid(from),
        g.valid(to),
        dep.crate_id.idx == to,
        dep.crate_id == (CrateId { idx: to as usize }),
        !g.reaches(to, from),
        !g.has_dep(from, dep.name, to),
        g2.crates == g.crates.update(
            from,
            CrateUnitV {
                root_file_id: g.crates[from].root_file_id,
                is_stdlib: g.crates[from].is_stdlib,
                dependencies: g.crates[from].dependencies.push(dep),
            },
        ),
    ensures
        g2.wf(),
        g2.has_dep(from, dep.name, to),
{
    let n = g.crates.len() as int;
    let old_len = g.deps(from).len() as int;
    assert(g2.deps(from) == g.deps(from).push(dep));
    assert(g2.deps(from)[old_len] == dep);
    assert(g2.has_dep(from, dep.name, to));
    assert forall|a: int, j: int|
        g2.valid(a) && 0 <= j < g2.deps(a).len() implies g2.valid(
        (#[trigger] g2.deps(a)[j]).crate_id.idx as int,
    ) by {
        if a != from {
            assert(g2.crates[a] == g.crates[a]);
            assert(g.valid(g.deps(a)[j].crate_id.idx as int));
        } else if j < old_len {
            assert(g2.deps(a)[j] == g.deps(a)[j]);
            assert(g.valid(g.deps(a)[j].crate_id.idx as int));
        } else {
            assert(g2.deps(a)[j] == dep);
        }
    }
    assert forall|a: int, b: int| #[trigger] g2.has_edge(a, b) implies !g2.reaches(b, a) by {
        if g2.reaches(b, a) {
            let j = choose|j: int|
                0 <= j < g2.deps(a).len() && (#[trigger] g2.deps(a)[j]).crate_id.idx == b;
            let p = choose|p: Seq<int>| #[trigger] g2.is_path(p) && p.first() == b && p.last() == a;
            lemma_new_edge_path_decomposition(g, g2, from, to, dep, p);
            let old_edge = if a != from {
                assert(g2.crates[a] == g.crates[a]);
                assert(g.deps(a)[j].crate_id.idx == b);
                true
            } else if j < old_len {
                assert(g2.deps(from) == g.deps(from).push(dep));
                assert(g.deps(a)[j].crate_id.idx == b);
                true
            } else {
                assert(g2.deps(from) == g.deps(from).push(dep));
                assert(g2.deps(a)[j] == dep);
                assert(a == from && b == to);
                false
            };
            if old_edge {
                assert(g.has_edge(a, b));
                assert(g.valid(b));
                if g.reaches(b, a) {
                    assert(false);
                } else {
                    // the walk needs the new edge: b reaches from, to reaches a
                    assert(g.reaches(b, from) && g.reaches(to, a));
                    lemma_reaches_step(g, a, b);
                    lemma_reaches_trans(g, to, a, b);
                    lemma_reaches_trans(g, to, b, from);
                    assert(false);
                }
            } else {
                assert(g.reaches(to, from));
                assert(false);
            }
        }
    }
    assert forall|a: int, j: int, k: int|
        g2.valid(a) && 0 <= j < k < g2.deps(a).len() implies !((#[trigger] g2.deps(a)[j]).name
        == (#[trigger] g2.deps(a)[k]).name && g2.deps(a)[j].crate_id == g2.deps(a)[k].crate_id) by {
        if a != from {
            assert(g2.crates[a] == g.crates[a]);
            assert(!(g.deps(a)[j].name == g.deps(a)[k].name && g.deps(a)[j].crate_id == g.deps(
                a,
            )[k].crate_id));
        } else {
            assert(g2.deps(from) == g.deps(from).push(dep));
            if k < old_len {
                assert(!(g.deps(a)[j].name == g.deps(a)[k].name && g.deps(a)[j].crate_id == g.deps(
                    a,
                )[k].crate_id));
            } else {
                // `k` names the new edge, which duplicates no older one
                assert(g2.deps(a)[k] == dep);
                assert(g2.deps(a)[j] == g.deps(a)[j]);
                if g.deps(a)[j].name == dep.name && g.deps(a)[j].crate_id == dep.crate_id {
                    assert(g.has_dep(from, dep.name, to));
                    assert(false);
                }
            }
        }
    }
    assert forall|i: int, j: int|
        g2.valid(i) && g2.valid(j) && (#[trigger] g2.crates[i]).is_stdlib
            && (#[trigger] g2.crates[j]).is_stdlib implies i == j by {
        assert(g2.crates[i].is_stdlib == g.crates[i].is_stdlib);
        assert(g2.crates[j].is_stdlib == g.crates[j].is_stdlib);
    }
    assert forall|i: int, j: int|
        g2.plain(i) && g2.plain(j) && (#[trigger] g2.crates[i]).root_file_id == (
        #[trigger] g2.crates[j]).root_file_id implies i == j by {
        assert(g2.crates[i].is_stdlib == g.crates[i].is_stdlib);
        assert(g2.crates[j].is_stdlib == g.crates[j].is_stdlib);
        assert(g2.crates[i].root_file_id == g.crates[i].root_file_id);
        assert(g2.crates[j].root_file_id == g.crates[j].root_file_id);
        assert(g.plain(i) && g.plain(j));
    }
}


/// A crate with no dependency edges reaches no crate but itself.
pub proof fn lemma_no_deps_reaches_only_self(g: CrateGraphV, s: int, x: int)
    requires
        g.valid(s),
        g.deps(s).len() == 0,
        g.reaches(s, x),
    ensures
        x == s,
{
    let p = choose|p: Seq<int>| #[trigger] g.is_path(p) && p.first() == s && p.last() == x;
    if p.len() > 1 {
        assert(g.has_edge(p[0int], p[0int + 1]));
        let j = choose|j: int|
            0 <= j < g.deps(s).len() && (#[trigger] g.deps(s)[j]).crate_id.idx == p[1];
        assert(false);
    }
}

impl CrateGraph {
    /// An empty crate graph.
    pub fn new() -> (result: CrateGraph)
        ensures
            result@.crates.len() == 0,
            result@.wf(),
    {
        let result = CrateGraph { crates: Vec::new() };
        proof {
            assert forall|a: int, b: int| #[trigger] result@.has_edge(a, b) implies !result@.reaches(
                b,
                a,
            ) by {}
        }
        result
    }

    /// How many crates are registered.
    pub fn number_of_crates(&self) -> (result: usize)
        ensures
            result == self@.crates.len(),
    {
        self.crates.len()
    }

    /// Register a crate with the given root file, outside the standard
    /// library. Registering the same root file again yields the crate it
    /// already names, and the graph is unchanged.
    pub fn add_crate_root(&mut self, file_id: FileId) -> (result: CrateId)
        requires
            old(self)@.wf(),
        ensures
            final(self)@.wf(),
            final(self)@.plain(result.idx as int),
            final(self)@.crates[result.idx as int].root_file_id == file_id,
            final(self)@.deps(result.idx as int) == old(self)@.deps(result.idx as int)
                || final(self)@.deps(result.idx as int).len() == 0,
            old(self)@.has_plain_crate_with_root(file_id) ==> final(self)@ == old(self)@
                && old(self)@.plain(result.idx as int) && old(self)@.crates[result.idx as int].root_file_id
                == file_id,
            !old(self)@.has_plain_crate_with_root(file_id) ==> final(self)@.crates =~= old(self)@.crates.push(
                CrateUnitV { root_file_id: file_id, is_stdlib: false, dependencies: Seq::empty() },
            ) && result.idx == old(self)@.crates.len(),
            forall|a: int, b: int| #[trigger] old(self)@.reaches(a, b) ==> final(self)@.reaches(a, b),
            final(self)@.has_stdlib() == old(self)@.has_stdlib(),
            forall|i: int| old(self)@.valid(i) ==> final(self)@.crates[i] == old(self)@.crates[i],
    {
        let ghost g = self@;
        let mut i: usize = 0;
        while i < self.crates.len()
            invariant
                *self == *old(self),
                g == self@,
                g.wf(),
                i <= self.crates.len(),
                forall|k: int|
                    0 <= k < i ==> !(g.plain(k) && (#[trigger] g.crates[k]).root_file_id == file_id),
            decreases self.crates.len() - i,
        {
            if !self.crates[i].is_stdlib && self.crates[i].root_file_id == file_id {
                proof {
                    assert(g.plain(i as int) && g.crates[i as int].root_file_id == file_id);
                }
                return CrateId { idx: i };
            }
            i = i + 1;
        }
        proof {
            assert(!g.has_plain_crate_with_root(file_id));
        }
        let idx = self.crates.len();
        let unit = CrateUnit { root_file_id: file_id, is_stdlib: false, dependencies: Vec::new() };
        proof {
            assert(unit@ == (CrateUnitV {
                root_file_id: file_id,
                is_stdlib: false,
                dependencies: Seq::empty(),
            }));
        }
        self.crates.push(unit);
        proof {
            assert(self@.crates =~= g.crates.push(
                CrateUnitV { root_file_id: file_id, is_stdlib: false, dependencies: Seq::empty() },
            ));
            lemma_push_node_preserves_wf(
                g,
                self@,
                CrateUnitV { root_file_id: file_id, is_stdlib: false, dependencies: Seq::empty() },
            );
        }
        CrateId { idx }
    }

    /// Register a dependency crate. The graph treats it exactly as a root
    /// crate: the distinction matters to the driver, not to the graph.
    pub fn add_crate(&mut self, file_id: FileId) -> (result: CrateId)
        requires
            old(self)@.wf(),
        ensures
            final(self)@.wf(),
            final(self)@.plain(result.idx as int),
            final(self)@.crates[result.idx as int].root_file_id == file_id,
            final(self)@.deps(result.idx as int) == old(self)@.deps(result.idx as int)
                || final(self)@.deps(result.idx as int).len() == 0,
            old(self)@.has_plain_crate_with_root(file_id) ==> final(self)@ == old(self)@,
            !old(self)@.has_plain_crate_with_root(file_id) ==> final(self)@.crates =~= old(self)@.crates.push(
                CrateUnitV { root_file_id: file_id, is_stdlib: false, dependencies: Seq::empty() },
            ) && result.idx == old(self)@.crates.len(),
            forall|a: int, b: int| #[trigger] old(self)@.reaches(a, b) ==> final(self)@.reaches(a, b),
            final(self)@.has_stdlib() == old(self)@.has_stdlib(),
            forall|i: int| old(self)@.valid(i) ==> final(self)@.crates[i] == old(self)@.crates[i],
    {
        self.add_crate_root(file_id)
    }

    /// Register the standard library crate, or return it if it is already
    /// registered; in the latter case its root file is kept as it was.
    pub fn add_stdlib(&mut self, file_id: FileId) -> (result: CrateId)
        requires
            old(self)@.wf(),
        ensures
            final(self)@.wf(),
            final(self)@.valid(result.idx as int),
            final(self)@.crates[result.idx as int].is_stdlib,
            final(self)@.has_stdlib(),
            old(self)@.has_stdlib() ==> final(self)@ == old(self)@ && old(self)@.crates[result.idx as int].is_stdlib,
            !old(self)@.has_stdlib() ==> final(self)@.crates =~= old(self)@.crates.push(
                CrateUnitV { root_file_id: file_id, is_stdlib: true, dependencies: Seq::empty() },
            ) && result.idx == old(self)@.crates.len(),
            forall|a: int, b: int| #[trigger] old(self)@.reaches(a, b) ==> final(self)@.reaches(a, b),
            forall|i: int| old(self)@.valid(i) ==> final(self)@.crates[i] == old(self)@.crates[i],
    {
        let ghost g = self@;
        let mut i: usize = 0;
        while i < self.crates.len()
            invariant
                *self == *old(self),
                g == self@,
                g.wf(),
                i <= self.crates.len(),
                forall|k: int| 0 <= k < i ==> !(#[trigger] g.crates[k]).is_stdlib,
            decreases self.crates.len() - i,
        {
            if self.crates[i].is_stdlib {
                return CrateId { idx: i };
            }
            i = i + 1;
        }
        proof {
            assert(!g.has_stdlib());
        }
        let idx = self.crates.len();
        let unit = CrateUnit { root_file_id: file_id, is_stdlib: true, dependencies: Vec::new() };
        proof {
            assert(unit@ == (CrateUnitV {
                root_file_id: file_id,
                is_stdlib: true,
                dependencies: Seq::empty(),
            }));
        }
        self.crates.push(unit);
        proof {
            assert(self@.crates =~= g.crates.push(
                CrateUnitV { root_file_id: file_id, is_stdlib: true, dependencies: Seq::empty() },
            ));
            lemma_push_node_preserves_wf(
                g,
                self@,
                CrateUnitV { root_file_id: file_id, is_stdlib: true, dependencies: Seq::empty() },
            );
            assert(self@.crates[idx as int].is_stdlib);
        }
        CrateId { idx }
    }

    /// The standard library's identifier, if it is registered.
    pub fn stdlib_crate_id(&self) -> (result: Option<CrateId>)
        ensures
            match result {
                Some(c) => self@.valid(c.idx as int) && self@.crates[c.idx as int].is_stdlib,
                None => !self@.has_stdlib(),
            },
    {
        let mut i: usize = 0;
        while i < self.crates.len()
            invariant
                i <= self.crates.len(),
                forall|k: int| 0 <= k < i ==> !(#[trigger] self@.crates[k]).is_stdlib,
            decreases self.crates.len() - i,
        {
            if self.crates[i].is_stdlib {
                return Some(CrateId { idx: i });
            }
            i = i + 1;
        }
        None
    }

    /// Whether crate `from` reaches crate `target` by following dependency
    /// edges, computed by saturating the set of crates reachable from
    /// `from`.
    pub fn can_reach(&self, from: CrateId, target: CrateId) -> (result: bool)
        requires
            self@.targets_valid(),
            self@.valid(from.idx as int),
            self@.valid(target.idx as int),
        ensures
            result == self@.reaches(from.idx as int, target.idx as int),
    {
        let ghost g = self@;
        let n = self.crates.len();
        let mut marked: Vec<bool> = Vec::new();
        let mut i: usize = 0;
        while i < n
            invariant
                i <= n,
                marked@.len() == i,
                forall|k: int| 0 <= k < i ==> !marked@[k],
            decreases n - i,
        {
            marked.push(false);
            i = i + 1;
        }
        let start = &mut marked[from.idx];
        *start = true;
        proof {
            lemma_reaches_self(g, from.idx as int);
        }
        loop
            invariant
                g == self@,
                g.targets_valid(),
                g.valid(from.idx as int),
                g.valid(target.idx as int),
                n == g.crates.len(),
                marked@.len() == n,
                marked@[from.idx as int],
                forall|k: int|
                    0 <= k < n && marked@[k] ==> g.reaches(from.idx as int, k),
            decreases count_unmarked(marked@),
        {
            let ghost snap = marked@;
            let mut changed = false;
            let mut a: usize = 0;
            while a < n
                invariant
                    g == self@,
                    g.targets_valid(),
                    g.valid(from.idx as int),
                    n == g.crates.len(),
                    a <= n,
                    marked@.len() == n,
                    marked@[from.idx as int],
                    forall|k: int|
                        0 <= k < n && marked@[k] ==> g.reaches(from.idx as int, k),
                    !changed ==> marked@ == snap,
                    changed ==> count_unmarked(marked@) < count_unmarked(snap),
                    !changed ==> forall|x: int, j: int|
                        0 <= x < a && marked@[x] && 0 <= j < g.deps(x).len() ==> marked@[(
                        #[trigger] g.deps(x)[j]).crate_id.idx as int],
                decreases n - a,
            {
                if marked[a] {
                    let deps_len = self.crates[a].dependencies.len();
                    proof {
                        assert(g.deps(a as int).len() == deps_len);
                    }
                    let mut j: usize = 0;
                    while j < deps_len
                        invariant
                            g == self@,
                            g.targets_valid(),
                            g.valid(from.idx as int),
                            n == g.crates.len(),
                            a < n,
                            j <= deps_len,
                            deps_len == g.deps(a as int).len(),
                            marked@.len() == n,
                            marked@[from.idx as int],
                            marked@[a as int],
                            forall|k: int|
                                0 <= k < n && marked@[k] ==> g.reaches(from.idx as int, k),
                            !changed ==> marked@ == snap,
                            changed ==> count_unmarked(marked@) < count_unmarked(snap),
                            !changed ==> forall|x: int, jj: int|
                                0 <= x < a && marked@[x] && 0 <= jj < g.deps(x).len() ==> marked@[(
                                #[trigger] g.deps(x)[jj]).crate_id.idx as int],
                            !changed ==> forall|jj: int|
                                0 <= jj < j ==> marked@[(#[trigger] g.deps(a as int)[jj]).crate_id.idx as int],
                        decreases deps_len - j,
                    {
                        let b = self.crates[a].dependencies[j].crate_id.idx;
                        proof {
                            assert(g.deps(a as int)[j as int].crate_id
                                == self.crates@[a as int].dependencies@[j as int].crate_id);
                            assert(g.valid(b as int));
                        }
                        if !marked[b] {
                            proof {
                                lemma_count_unmarked_update(marked@, b as int);
                                assert(g.has_edge(a as int, b as int));
                                lemma_reaches_step(g, a as int, b as int);
                                lemma_reaches_trans(g, from.idx as int, a as int, b as int);
                            }
                            let slot = &mut marked[b];
                            *slot = true;
                            changed = true;
                        }
                        j = j + 1;
                    }
                }
                a = a + 1;
            }
            if !changed {
                proof {
                    if g.reaches(from.idx as int, target.idx as int) && !marked@[target.idx as int] {
                        assert forall|x: int, b: int|
                            0 <= x < marked@.len() && marked@[x] && #[trigger] g.has_edge(x, b)
                                && 0 <= b < marked@.len() implies marked@[b] by {
                            let j = choose|j: int|
                                0 <= j < g.deps(x).len() && (#[trigger] g.deps(x)[j]).crate_id.idx
                                    == b;
                            assert(marked@[g.deps(x)[j].crate_id.idx as int]);
                        }
                        let p = choose|p: Seq<int>|
                            #[trigger] g.is_path(p) && p.first() == from.idx as int && p.last()
                                == target.idx as int;
                        lemma_closed_under_edges(g, marked@, p);
                        assert(false);
                    }
                }
                return marked[target.idx];
            }
        }
    }

    /// Record that `this_crate` depends on `depends_on` under `name`.
    ///
    /// An edge already present under the same name is not added again; an
    /// edge that would close a cycle is refused and the graph is left as it
    /// was.
    pub fn add_dep(
        &mut self,
        this_crate: CrateId,
        name: String,
        depends_on: CrateId,
    ) -> (result: Result<(), CrateGraphError>)
        requires
            old(self)@.wf(),
            old(self)@.valid(this_crate.idx as int),
            old(self)@.valid(depends_on.idx as int),
        ensures
            final(self)@.wf(),
            final(self)@.crates.len() == old(self)@.crates.len(),
            result matches Ok(_) ==> final(self)@.has_dep(
                this_crate.idx as int,
                name@,
                depends_on.idx as int,
            ),
            old(self)@.has_dep(this_crate.idx as int, name@, depends_on.idx as int) ==> (result
                matches Ok(_) && final(self)@ == old(self)@),
            !old(self)@.has_dep(this_crate.idx as int, name@, depends_on.idx as int) && old(
                self,
            )@.reaches(depends_on.idx as int, this_crate.idx as int) ==> (result matches Err(e)
                && e == (CrateGraphError::CyclicDependency { from: this_crate, to: depends_on })
                && final(self)@ == old(self)@),
            !old(self)@.has_dep(this_crate.idx as int, name@, depends_on.idx as int) && !old(
                self,
            )@.reaches(depends_on.idx as int, this_crate.idx as int) ==> (result matches Ok(_)
                && final(self)@.crates =~= old(self)@.crates.update(
                this_crate.idx as int,
                CrateUnitV {
                    root_file_id: old(self)@.crates[this_crate.idx as int].root_file_id,
                    is_stdlib: old(self)@.crates[this_crate.idx as int].is_stdlib,
                    dependencies: old(self)@.deps(this_crate.idx as int).push(
                        DependencyV { name: name@, crate_id: depends_on },
                    ),
                },
            )),
            forall|i: int|
                old(self)@.valid(i) && i != this_crate.idx as int ==> final(self)@.crates[i] == old(
                    self,
                )@.crates[i],
            forall|i: int|
                old(self)@.valid(i) ==> (#[trigger] final(self)@.crates[i]).is_stdlib == old(
                    self,
                )@.crates[i].is_stdlib && final(self)@.crates[i].root_file_id == old(
                    self,
                )@.crates[i].root_file_id,
    {
        let ghost g = self@;
        let ghost namev = name@;
        let deps_len = self.crates[this_crate.idx].dependencies.len();
        let mut j: usize = 0;
        while j < deps_len
            invariant
                *self == *old(self),
                g == self@,
                g.wf(),
                g.valid(this_crate.idx as int),
                g.valid(depends_on.idx as int),
                namev == name@,
                j <= deps_len,
                deps_len == g.deps(this_crate.idx as int).len(),
                forall|k: int|
                    0 <= k < j ==> !((#[trigger] g.deps(this_crate.idx as int)[k]).name == namev
                        && g.deps(this_crate.idx as int)[k].crate_id.idx == depends_on.idx),
            decreases deps_len - j,
        {
            let d = &self.crates[this_crate.idx].dependencies[j];
            proof {
                assert(g.deps(this_crate.idx as int)[j as int]
                    == self.crates@[this_crate.idx as int].dependencies@[j as int]@);
            }
            if d.name == name && d.crate_id.idx == depends_on.idx {
                proof {
                    assert(g.has_dep(this_crate.idx as int, namev, depends_on.idx as int));
                }
                return Ok(());
            }
            j = j + 1;
        }
        proof {
            if g.has_dep(this_crate.idx as int, namev, depends_on.idx as int) {
                let k = choose|k: int|
                    0 <= k < g.deps(this_crate.idx as int).len() && (#[trigger] g.deps(
                        this_crate.idx as int,
                    )[k]).name == namev && g.deps(this_crate.idx as int)[k].crate_id.idx
                        == depends_on.idx;
                assert(false);
            }
        }
        if self.can_reach(depends_on, this_crate) {
            return Err(CrateGraphError::CyclicDependency { from: this_crate, to: depends_on });
        }
        let unit = &mut self.crates[this_crate.idx];
        unit.dependencies.push(Dependency { name, crate_id: depends_on });
        proof {
            let idx = this_crate.idx as int;
            let dv = DependencyV { name: namev, crate_id: depends_on };
            let unit2 = CrateUnitV {
                root_file_id: g.crates[idx].root_file_id,
                is_stdlib: g.crates[idx].is_stdlib,
                dependencies: g.deps(idx).push(dv),
            };
            assert forall|k: int| 0 <= k < g.crates.len() && k != idx implies self@.crates[k]
                == g.crates[k] by {
                assert(self.crates@[k] == old(self).crates@[k]);
            }
            assert(self.crates@[idx].dependencies@.last()@ == dv);
            assert(self@.crates[idx].dependencies =~= g.deps(idx).push(dv));
            assert(self@.crates[idx] =~= unit2);
            assert(self@.crates =~= g.crates.update(this_crate.idx as int, unit2));
            lemma_add_edge_preserves_wf(
                g,
                self@,
                this_crate.idx as int,
                depends_on.idx as int,
                DependencyV { name: namev, crate_id: depends_on },
            );
        }
        Ok(())
    }
}

} // verus!
