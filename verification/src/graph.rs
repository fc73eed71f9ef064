//! Dependency graphs: a topological order or a node that depends on itself, and
//! an order of any graph that is topological away from its cycles.
//!
//! A graph over the nodes `0..n` lists the nodes that each node depends on.

use vstd::prelude::*;

verus! {

/// Every dependency is a node of the graph.
pub open spec fn closed_graph(g: Seq<Vec<usize>>) -> bool {
    forall|u: int, k: int|
        #![trigger g[u]@[k]]
        0 <= u < g.len() && 0 <= k < g[u]@.len() ==> g[u]@[k] < g.len()
}

/// Node `u` depends on node `v` directly.
pub open spec fn depends(g: Seq<Vec<usize>>, u: int, v: int) -> bool {
    &&& 0 <= u < g.len()
    &&& exists|k: int| 0 <= k < g[u]@.len() && #[trigger] g[u]@[k] == v
}

/// Each node of `p` depends on the one after it.
pub open spec fn walk(g: Seq<Vec<usize>>, p: Seq<int>) -> bool {
    forall|i: int| #![trigger p[i]] 0 <= i < p.len() - 1 ==> depends(g, p[i], p[i + 1])
}

/// Following dependencies from `v` leads back to `v`.
pub open spec fn on_cycle(g: Seq<Vec<usize>>, v: int) -> bool {
    exists|p: Seq<int>| #[trigger] walk(g, p) && p.len() >= 2 && p[0] == v && p.last() == v
}

/// No node depends on itself, directly or through others.
pub open spec fn acyclic(g: Seq<Vec<usize>>) -> bool {
    forall|v: int| !#[trigger] on_cycle(g, v)
}

/// Whatever `order[i]` depends on stands before position `i`.
pub open spec fn dependencies_first(g: Seq<Vec<usize>>, order: Seq<usize>) -> bool {
    forall|i: int, v: int|
        #![trigger depends(g, order[i] as int, v)]
        0 <= i < order.len() && depends(g, order[i] as int, v) ==> exists|j: int|
            0 <= j < i && #[trigger] order[j] == v
}

/// Node `v` stands somewhere in `order`.
pub open spec fn listed(order: Seq<usize>, v: int) -> bool {
    exists|i: int| 0 <= i < order.len() && #[trigger] order[i] == v
}

/// `order` lists every node once, each after the nodes that it depends on.
pub open spec fn topological(g: Seq<Vec<usize>>, order: Seq<usize>) -> bool {
    &&& order.len() == g.len()
    &&& order.no_duplicates()
    &&& forall|i: int| 0 <= i < order.len() ==> #[trigger] order[i] < g.len()
    &&& forall|v: int| 0 <= v < g.len() ==> #[trigger] listed(order, v)
    &&& dependencies_first(g, order)
}

/// Where a topological order exists, nothing depends on itself.
pub proof fn topological_is_acyclic(g: Seq<Vec<usize>>, order: Seq<usize>)
    requires
        closed_graph(g),
        topological(g, order),
    ensures
        acyclic(g),
{
    assert forall|v: int| !#[trigger] on_cycle(g, v) by {
        if on_cycle(g, v) {
            let p = choose|p: Seq<int>| #[trigger] walk(g, p) && p.len() >= 2 && p[0] == v && p.last() == v;
            assert(depends(g, p[0], p[1]));
            assert(listed(order, v));
            let i = choose|i: int| 0 <= i < order.len() && #[trigger] order[i] == v;
            lemma_walk_descends(g, order, p, i, p.len() - 1);
            let j = choose|j: int| 0 <= j < i && #[trigger] order[j] == p.last();
            assert(order[i] == order[j]);
        }
    }
}

proof fn lemma_walk_descends(g: Seq<Vec<usize>>, order: Seq<usize>, p: Seq<int>, i: int, n: int)
    requires
        dependencies_first(g, order),
        walk(g, p),
        0 <= i < order.len(),
        1 <= n < p.len(),
        order[i] == p[0],
    ensures
        exists|j: int| 0 <= j < i && #[trigger] order[j] == p[n],
    decreases n,
{
    if n == 1 {
        assert(depends(g, p[0], p[1]));
        assert(depends(g, order[i] as int, p[1]));
    } else {
        lemma_walk_descends(g, order, p, i, n - 1);
        let m = choose|j: int| 0 <= j < i && #[trigger] order[j] == p[n - 1];
        assert(depends(g, p[n - 1], p[n - 1 + 1]));
        assert(depends(g, order[m] as int, p[n]));
        let j = choose|j: int| 0 <= j < m && #[trigger] order[j] == p[n];
        assert(order[j] == p[n]);
    }
}

const UNSEEN: u8 = 0;

const OPEN: u8 = 1;

const DONE: u8 = 2;

/// The state of a depth-first search: `path` holds the open nodes from the
/// root on, `order` the finished ones.
spec fn searching(g: Seq<Vec<usize>>, mark: Seq<u8>, order: Seq<usize>, path: Seq<int>) -> bool {
    &&& closed_graph(g)
    &&& mark.len() == g.len()
    &&& order.no_duplicates()
    &&& forall|i: int| #![trigger order[i]] 0 <= i < order.len() ==> order[i] < g.len() && mark[order[i] as int] == DONE
    &&& forall|v: int| 0 <= v < g.len() && #[trigger] mark[v] == DONE ==> exists|i: int|
        0 <= i < order.len() && #[trigger] order[i] == v
    &&& dependencies_first(g, order)
    &&& walk(g, path)
    &&& path.no_duplicates()
    &&& forall|i: int| #![trigger path[i]] 0 <= i < path.len() ==> 0 <= path[i] < g.len() && mark[path[i]] == OPEN
    &&& forall|v: int| 0 <= v < g.len() && #[trigger] mark[v] == OPEN ==> path.contains(v)
    &&& forall|v: int| 0 <= v < g.len() ==> #[trigger] mark[v] == UNSEEN || mark[v] == OPEN || mark[v] == DONE
}

proof fn lemma_path_is_short(path: Seq<int>, n: int)
    requires
        n >= 0,
        path.no_duplicates(),
        forall|i: int| #![trigger path[i]] 0 <= i < path.len() ==> 0 <= path[i] < n,
    ensures
        path.len() <= n,
{
    path.unique_seq_to_set();
    let whole = vstd::set_lib::set_int_range(0, n);
    vstd::set_lib::lemma_int_range(0, n);
    assert(path.to_set().subset_of(whole)) by {
        assert forall|v: int| path.to_set().contains(v) implies whole.contains(v) by {
            assert(path.contains(v));
        }
    }
    vstd::set_lib::lemma_len_subset(path.to_set(), whole);
}

fn visit(
    g: &Vec<Vec<usize>>,
    u: usize,
    mark: &mut Vec<u8>,
    order: &mut Vec<usize>,
    Ghost(path): Ghost<Seq<int>>,
) -> (r: Result<(), usize>)
    requires
        searching(g@, old(mark)@, old(order)@, path),
        u < g@.len(),
        path.len() > 0 ==> depends(g@, path.last(), u as int),
    ensures
        r is Ok ==> searching(g@, final(mark)@, final(order)@, path) && final(mark)@[u as int] == DONE && forall|
            v: int,
        |
            0 <= v < g@.len() && old(mark)@[v] == DONE ==> #[trigger] final(mark)@[v] == DONE,
        r matches Err(v) ==> v < g@.len() && on_cycle(g@, v as int),
    decreases g@.len() - path.len(),
{
    if mark[u] == OPEN {
        proof {
            assert(path.contains(u as int));
            let i = choose|i: int| 0 <= i < path.len() && path[i] == u;
            let p = path.skip(i).push(u as int);
            assert(walk(g@, p)) by {
                assert forall|k: int| #![trigger p[k]] 0 <= k < p.len() - 1 implies depends(g@, p[k], p[k + 1]) by {
                    assert(p[k] == path[i + k]);
                    if k + 1 < p.len() - 1 {
                        assert(p[k + 1] == path[i + k + 1]);
                    }
                }
            }
            assert(p[0] == u && p.last() == u && p.len() >= 2);
        }
        return Err(u);
    }
    if mark[u] == DONE {
        return Ok(());
    }
    let ghost mark0 = mark@;
    let ghost inner = path.push(u as int);
    mark.set(u, OPEN);
    proof {
        assert(!path.contains(u as int)) by {
            if path.contains(u as int) {
                let i = choose|i: int| 0 <= i < path.len() && path[i] == u;
                assert(mark0[path[i]] == OPEN);
            }
        }
        assert(walk(g@, inner)) by {
            assert forall|k: int| #![trigger inner[k]] 0 <= k < inner.len() - 1 implies depends(
                g@,
                inner[k],
                inner[k + 1],
            ) by {
                assert(inner[k] == path[k]);
                if k + 1 < inner.len() - 1 {
                    assert(inner[k + 1] == path[k + 1]);
                }
            }
        }
        assert forall|v: int| 0 <= v < g@.len() && #[trigger] mark@[v] == OPEN implies inner.contains(v) by {
            if v == u {
                assert(inner[path.len() as int] == v);
            } else {
                assert(mark0[v] == OPEN);
                let i = choose|i: int| 0 <= i < path.len() && path[i] == v;
                assert(inner[i] == v);
            }
        }
        lemma_path_is_short(inner, g@.len() as int);
    }
    let mut k: usize = 0;
    while k < g[u].len()
        invariant
            u < g@.len(),
            k <= g@[u as int]@.len(),
            inner == path.push(u as int),
            path.len() < g@.len(),
            searching(g@, mark@, order@, inner),
            forall|v: int| 0 <= v < g@.len() && mark0[v] == DONE ==> #[trigger] mark@[v] == DONE,
            forall|j: int| 0 <= j < k ==> mark@[#[trigger] g@[u as int]@[j] as int] == DONE,
        decreases g@[u as int]@.len() - k,
    {
        let w: usize = g[u][k];
        let ghost before = mark@;
        assert(g@[u as int]@[k as int] == w);
        assert(inner.last() == u);
        match visit(g, w, mark, order, Ghost(inner)) {
            Ok(()) => {
                assert forall|j: int| 0 <= j < k + 1 implies mark@[#[trigger] g@[u as int]@[j] as int] == DONE by {
                    if j < k {
                        let d = g@[u as int]@[j] as int;
                        assert(before[d] == DONE);
                        assert(mark@[d] == DONE);
                    }
                }
            },
            Err(v) => {
                return Err(v);
            },
        }
        k = k + 1;
    }
    let ghost mark1 = mark@;
    let ghost order1 = order@;
    proof {
        assert(inner[path.len() as int] == u);
        assert(mark1[u as int] == OPEN);
    }
    mark.set(u, DONE);
    order.push(u);
    proof {
        assert forall|i: int| #![trigger order@[i]] 0 <= i < order@.len() implies order@[i] < g@.len() && mark@[order@[i] as int]
            == DONE by {
            if i < order1.len() {
                assert(order@[i] == order1[i]);
            }
        }
        assert(order@.no_duplicates()) by {
            assert forall|i: int, j: int| 0 <= i < j < order@.len() implies order@[i] != order@[j] by {
                assert(order@[i] == order1[i]);
                assert(mark1[order1[i] as int] == DONE);
                if j < order1.len() {
                    assert(order@[j] == order1[j]);
                }
            }
        }
        assert forall|v: int| 0 <= v < g@.len() && #[trigger] mark@[v] == DONE implies exists|i: int|
            0 <= i < order@.len() && #[trigger] order@[i] == v by {
            if v == u {
                assert(order@[order1.len() as int] == v);
            } else {
                assert(mark1[v] == DONE);
                let i = choose|i: int| 0 <= i < order1.len() && #[trigger] order1[i] == v;
                assert(order@[i] == v);
            }
        }
        assert forall|i: int, v: int|
            #![trigger depends(g@, order@[i] as int, v)]
            0 <= i < order@.len() && depends(g@, order@[i] as int, v) implies exists|j: int|
            0 <= j < i && #[trigger] order@[j] == v by {
            if i < order1.len() {
                assert(order@[i] == order1[i]);
                assert(depends(g@, order1[i] as int, v));
                let j = choose|j: int| 0 <= j < i && #[trigger] order1[j] == v;
                assert(order@[j] == v);
            } else {
                let k = choose|k: int| 0 <= k < g@[u as int]@.len() && #[trigger] g@[u as int]@[k] == v;
                assert(mark1[v] == DONE);
                let j = choose|j: int| 0 <= j < order1.len() && #[trigger] order1[j] == v;
                assert(order@[j] == v);
            }
        }
        assert forall|i: int| #![trigger path[i]] 0 <= i < path.len() implies 0 <= path[i] < g@.len() && mark@[path[i]]
            == OPEN by {
            assert(inner[i] == path[i]);
            assert(mark1[path[i]] == OPEN);
            assert(inner[path.len() as int] == u);
            assert(path[i] != u);
        }
        assert forall|v: int| 0 <= v < g@.len() && #[trigger] mark@[v] == OPEN implies path.contains(v) by {
            assert(v != u);
            assert(mark1[v] == OPEN);
            let i = choose|i: int| 0 <= i < inner.len() && inner[i] == v;
            assert(path[i] == v);
        }
        assert forall|v: int| 0 <= v < g@.len() && mark0[v] == DONE implies #[trigger] mark@[v] == DONE by {
            assert(mark1[v] == DONE);
        }
        assert(path.no_duplicates()) by {
            assert forall|i: int, j: int| 0 <= i < j < path.len() implies path[i] != path[j] by {
                assert(inner[i] == path[i] && inner[j] == path[j]);
            }
        }
    }
    Ok(())
}

/// A topological order of the graph, or a node that depends on itself.
pub fn topological_order(g: &Vec<Vec<usize>>) -> (r: Result<Vec<usize>, usize>)
    requires
        closed_graph(g@),
    ensures
        r is Ok <==> acyclic(g@),
        r matches Ok(order) ==> topological(g@, order@),
        r matches Err(v) ==> v < g@.len() && on_cycle(g@, v as int),
{
    let n: usize = g.len();
    let mut mark: Vec<u8> = Vec::new();
    let mut i: usize = 0;
    while i < n
        invariant
            i <= n,
            mark@.len() == i,
            forall|v: int| 0 <= v < i ==> #[trigger] mark@[v] == UNSEEN,
        decreases n - i,
    {
        mark.push(UNSEEN);
        i = i + 1;
    }
    let mut order: Vec<usize> = Vec::new();
    let mut u: usize = 0;
    while u < n
        invariant
            u <= n,
            n == g@.len(),
            searching(g@, mark@, order@, Seq::<int>::empty()),
            forall|v: int| 0 <= v < u ==> #[trigger] mark@[v] == DONE,
        decreases n - u,
    {
        match visit(g, u, &mut mark, &mut order, Ghost(Seq::<int>::empty())) {
            Ok(()) => {},
            Err(v) => {
                return Err(v);
            },
        }
        u = u + 1;
    }
    proof {
        assert forall|v: int| 0 <= v < g@.len() implies #[trigger] listed(order@, v) by {
            assert(mark@[v] == DONE);
        }
        lemma_order_is_whole(order@, n as int);
        topological_is_acyclic(g@, order@);
    }
    Ok(order)
}

proof fn lemma_order_is_whole(order: Seq<usize>, n: int)
    requires
        n >= 0,
        order.no_duplicates(),
        forall|i: int| #![trigger order[i]] 0 <= i < order.len() ==> order[i] < n,
        forall|v: int| 0 <= v < n ==> #[trigger] listed(order, v),
    ensures
        order.len() == n,
{
    let s = order.map_values(|x: usize| x as int);
    assert(s.no_duplicates());
    assert forall|i: int| #![trigger s[i]] 0 <= i < s.len() implies 0 <= s[i] < n by {
        assert(order[i] < n);
    }
    lemma_path_is_short(s, n);
    s.unique_seq_to_set();
    let whole = vstd::set_lib::set_int_range(0, n);
    vstd::set_lib::lemma_int_range(0, n);
    assert(whole.subset_of(s.to_set())) by {
        assert forall|v: int| whole.contains(v) implies s.to_set().contains(v) by {
            assert(listed(order, v));
            let i = choose|i: int| 0 <= i < order.len() && #[trigger] order[i] == v;
            assert(s[i] == v);
        }
    }
    vstd::set_lib::lemma_len_subset(whole, s.to_set());
}

// ---- orders of any graph ----

/// The dependency of `u` on `v` lies on a cycle: following dependencies from `v`
/// leads to `u`.
#[verifier::opaque]
pub open spec fn leads_back(g: Seq<Vec<usize>>, u: int, v: int) -> bool {
    exists|p: Seq<int>| #[trigger] walk(g, p) && p.len() >= 1 && p[0] == v && p.last() == u
}

/// Whatever `order[i]` depends on stands before position `i`, unless that
/// dependency lies on a cycle.
pub open spec fn dependencies_mostly_first(g: Seq<Vec<usize>>, order: Seq<usize>) -> bool {
    forall|i: int, v: int|
        #![trigger depends(g, order[i] as int, v)]
        0 <= i < order.len() && depends(g, order[i] as int, v) ==> leads_back(g, order[i] as int, v) || exists|j: int|
            0 <= j < i && #[trigger] order[j] == v
}

/// `order` lists every node once, each after the nodes that it depends on and
/// that do not depend on it.
pub open spec fn finishing(g: Seq<Vec<usize>>, order: Seq<usize>) -> bool {
    &&& order.len() == g.len()
    &&& order.no_duplicates()
    &&& forall|i: int| 0 <= i < order.len() ==> #[trigger] order[i] < g.len()
    &&& forall|v: int| 0 <= v < g.len() ==> #[trigger] listed(order, v)
    &&& dependencies_mostly_first(g, order)
}

/// Of a graph in which no node depends on itself, such an order is topological.
pub proof fn finishing_is_topological(g: Seq<Vec<usize>>, order: Seq<usize>)
    requires
        acyclic(g),
        finishing(g, order),
    ensures
        topological(g, order),
{
    assert forall|i: int, v: int|
        #![trigger depends(g, order[i] as int, v)]
        0 <= i < order.len() && depends(g, order[i] as int, v) implies exists|j: int|
        0 <= j < i && #[trigger] order[j] == v by {
        let u = order[i] as int;
        if leads_back(g, u, v) {
            reveal(leads_back);
            let p = choose|p: Seq<int>| #[trigger] walk(g, p) && p.len() >= 1 && p[0] == v && p.last() == u;
            let q = seq![u] + p;
            assert(walk(g, q)) by {
                assert forall|k: int| #![trigger q[k]] 0 <= k < q.len() - 1 implies depends(g, q[k], q[k + 1]) by {
                    if k == 0 {
                        assert(q[1] == p[0]);
                    } else {
                        assert(q[k] == p[k - 1] && q[k + 1] == p[k - 1 + 1]);
                        assert(depends(g, p[k - 1], p[k - 1 + 1]));
                    }
                }
            }
            assert(q[0] == u && q.last() == u && q.len() >= 2);
            assert(on_cycle(g, u));
        }
    }
}

/// The state of a depth-first search that passes over open nodes.
#[verifier::opaque]
spec fn finishing_up(g: Seq<Vec<usize>>, mark: Seq<u8>, order: Seq<usize>, path: Seq<int>) -> bool {
    &&& closed_graph(g)
    &&& mark.len() == g.len()
    &&& order.no_duplicates()
    &&& forall|i: int| #![trigger order[i]] 0 <= i < order.len() ==> order[i] < g.len() && mark[order[i] as int] == DONE
    &&& forall|v: int| 0 <= v < g.len() && #[trigger] mark[v] == DONE ==> listed(order, v)
    &&& dependencies_mostly_first(g, order)
    &&& walk(g, path)
    &&& path.no_duplicates()
    &&& forall|i: int| #![trigger path[i]] 0 <= i < path.len() ==> 0 <= path[i] < g.len() && mark[path[i]] == OPEN
    &&& forall|v: int| 0 <= v < g.len() && #[trigger] mark[v] == OPEN ==> path.contains(v)
    &&& forall|v: int| 0 <= v < g.len() ==> #[trigger] mark[v] == UNSEEN || mark[v] == OPEN || mark[v] == DONE
}

proof fn lemma_open_leads_back(g: Seq<Vec<usize>>, path: Seq<int>, w: int)
    requires
        walk(g, path),
        path.contains(w),
    ensures
        leads_back(g, path.last(), w),
{
    reveal(leads_back);
    let i = choose|i: int| 0 <= i < path.len() && path[i] == w;
    let p = path.skip(i);
    assert(walk(g, p)) by {
        assert forall|m: int| #![trigger p[m]] 0 <= m < p.len() - 1 implies depends(g, p[m], p[m + 1]) by {
            assert(p[m] == path[i + m] && p[m + 1] == path[i + m + 1]);
            assert(depends(g, path[i + m], path[i + m + 1]));
        }
    }
    assert(p[0] == w && p.last() == path.last());
}

/// The dependencies of a node are nodes.
proof fn lemma_next(g: Seq<Vec<usize>>, mark: Seq<u8>, order: Seq<usize>, path: Seq<int>, u: int, k: int)
    requires
        finishing_up(g, mark, order, path),
        0 <= u < g.len(),
        0 <= k < g[u]@.len(),
    ensures
        g[u]@[k] < g.len(),
        depends(g, u, g[u]@[k] as int),
{
    reveal(finishing_up);
}

/// A dependency that was seen is done or lies on a cycle.
proof fn lemma_seen(g: Seq<Vec<usize>>, mark: Seq<u8>, order: Seq<usize>, path: Seq<int>, w: int)
    requires
        finishing_up(g, mark, order, path),
        0 <= w < g.len(),
        mark[w] != UNSEEN,
    ensures
        mark[w] == DONE || leads_back(g, path.last(), w),
{
    reveal(finishing_up);
    if mark[w] == OPEN {
        lemma_open_leads_back(g, path, w);
    }
}

fn finish(g: &Vec<Vec<usize>>, u: usize, mark: &mut Vec<u8>, order: &mut Vec<usize>, Ghost(path): Ghost<Seq<int>>)
    requires
        finishing_up(g@, old(mark)@, old(order)@, path),
        u < g@.len(),
        path.len() > 0 ==> depends(g@, path.last(), u as int),
    ensures
        finishing_up(g@, final(mark)@, final(order)@, path),
        final(mark)@[u as int] != UNSEEN,
        path.len() == 0 ==> final(mark)@[u as int] == DONE,
        forall|v: int| 0 <= v < g@.len() && old(mark)@[v] == DONE ==> #[trigger] final(mark)@[v] == DONE,
    decreases g@.len() - path.len(),
{
    reveal(finishing_up);
    if mark[u] != UNSEEN {
        proof {
            if mark@[u as int] == OPEN {
                assert(path.contains(u as int));
            }
        }
        return;
    }
    let ghost mark0 = mark@;
    let ghost inner = path.push(u as int);
    mark.set(u, OPEN);
    proof {
        assert(!path.contains(u as int)) by {
            if path.contains(u as int) {
                let i = choose|i: int| 0 <= i < path.len() && path[i] == u;
                assert(mark0[path[i]] == OPEN);
            }
        }
        assert(walk(g@, inner)) by {
            assert forall|k: int| #![trigger inner[k]] 0 <= k < inner.len() - 1 implies depends(
                g@,
                inner[k],
                inner[k + 1],
            ) by {
                assert(inner[k] == path[k]);
                if k + 1 < inner.len() - 1 {
                    assert(inner[k + 1] == path[k + 1]);
                }
            }
        }
        assert forall|v: int| 0 <= v < g@.len() && #[trigger] mark@[v] == OPEN implies inner.contains(v) by {
            if v == u {
                assert(inner[path.len() as int] == v);
            } else {
                assert(mark0[v] == OPEN);
                let i = choose|i: int| 0 <= i < path.len() && path[i] == v;
                assert(inner[i] == v);
            }
        }
        lemma_path_is_short(inner, g@.len() as int);
    }
    let mut k: usize = 0;
    while k < g[u].len()
        invariant
            u < g@.len(),
            k <= g@[u as int]@.len(),
            inner == path.push(u as int),
            path.len() < g@.len(),
            finishing_up(g@, mark@, order@, inner),
            forall|v: int| 0 <= v < g@.len() && mark0[v] == DONE ==> #[trigger] mark@[v] == DONE,
            forall|j: int|
                0 <= j < k ==> mark@[#[trigger] g@[u as int]@[j] as int] == DONE || leads_back(
                    g@,
                    u as int,
                    g@[u as int]@[j] as int,
                ),
        decreases g@[u as int]@.len() - k,
    {
        let w: usize = g[u][k];
        let ghost before = mark@;
        assert(inner.last() == u);
        proof {
            lemma_next(g@, mark@, order@, inner, u as int, k as int);
        }
        finish(g, w, mark, order, Ghost(inner));
        proof {
            lemma_seen(g@, mark@, order@, inner, w as int);
            assert forall|j: int| 0 <= j < k + 1 implies mark@[#[trigger] g@[u as int]@[j] as int] == DONE || leads_back(
                g@,
                u as int,
                g@[u as int]@[j] as int,
            ) by {
                if j < k {
                    let d = g@[u as int]@[j] as int;
                    lemma_next(g@, mark@, order@, inner, u as int, j);
                    if before[d] == DONE {
                        assert(mark@[d] == DONE);
                    }
                }
            }
        }
        k = k + 1;
    }
    let ghost mark1 = mark@;
    let ghost order1 = order@;
    proof {
        assert(inner[path.len() as int] == u);
        assert(mark1[u as int] == OPEN);
    }
    mark.set(u, DONE);
    order.push(u);
    proof {
        assert forall|i: int| #![trigger order@[i]] 0 <= i < order@.len() implies order@[i] < g@.len() && mark@[order@[i] as int]
            == DONE by {
            if i < order1.len() {
                assert(order@[i] == order1[i]);
            }
        }
        assert(order@.no_duplicates()) by {
            assert forall|i: int, j: int| 0 <= i < j < order@.len() implies order@[i] != order@[j] by {
                assert(order@[i] == order1[i]);
                assert(mark1[order1[i] as int] == DONE);
                if j < order1.len() {
                    assert(order@[j] == order1[j]);
                }
            }
        }
        assert forall|v: int| 0 <= v < g@.len() && #[trigger] mark@[v] == DONE implies listed(order@, v) by {
            if v == u {
                assert(order@[order1.len() as int] == v);
            } else {
                assert(mark1[v] == DONE);
                assert(listed(order1, v));
                let i = choose|i: int| 0 <= i < order1.len() && #[trigger] order1[i] == v;
                assert(order@[i] == v);
            }
        }
        assert forall|i: int, v: int|
            #![trigger depends(g@, order@[i] as int, v)]
            0 <= i < order@.len() && depends(g@, order@[i] as int, v) implies leads_back(g@, order@[i] as int, v)
            || exists|j: int| 0 <= j < i && #[trigger] order@[j] == v by {
            if i < order1.len() {
                assert(order@[i] == order1[i]);
                assert(depends(g@, order1[i] as int, v));
                if !leads_back(g@, order1[i] as int, v) {
                    let j = choose|j: int| 0 <= j < i && #[trigger] order1[j] == v;
                    assert(order@[j] == v);
                }
            } else {
                let k = choose|k: int| 0 <= k < g@[u as int]@.len() && #[trigger] g@[u as int]@[k] == v;
                if mark1[v] == DONE {
                    assert(listed(order1, v));
                    let j = choose|j: int| 0 <= j < order1.len() && #[trigger] order1[j] == v;
                    assert(order@[j] == v);
                }
            }
        }
        assert forall|i: int| #![trigger path[i]] 0 <= i < path.len() implies 0 <= path[i] < g@.len() && mark@[path[i]]
            == OPEN by {
            assert(inner[i] == path[i]);
            assert(mark1[path[i]] == OPEN);
            assert(inner[path.len() as int] == u);
            assert(path[i] != u);
        }
        assert forall|v: int| 0 <= v < g@.len() && #[trigger] mark@[v] == OPEN implies path.contains(v) by {
            assert(v != u);
            assert(mark1[v] == OPEN);
            let i = choose|i: int| 0 <= i < inner.len() && inner[i] == v;
            assert(path[i] == v);
        }
        assert forall|v: int| 0 <= v < g@.len() && mark0[v] == DONE implies #[trigger] mark@[v] == DONE by {
            assert(mark1[v] == DONE);
        }
        assert(path.no_duplicates()) by {
            assert forall|i: int, j: int| 0 <= i < j < path.len() implies path[i] != path[j] by {
                assert(inner[i] == path[i] && inner[j] == path[j]);
            }
        }
    }
}

/// An order of all nodes, each after those that it depends on and that do not
/// depend on it.
pub fn finishing_order(g: &Vec<Vec<usize>>) -> (order: Vec<usize>)
    requires
        closed_graph(g@),
    ensures
        finishing(g@, order@),
{
    let n: usize = g.len();
    let mut mark: Vec<u8> = Vec::new();
    let mut i: usize = 0;
    while i < n
        invariant
            i <= n,
            mark@.len() == i,
            forall|k: int| 0 <= k < i ==> #[trigger] mark@[k] == UNSEEN,
        decreases n - i,
    {
        mark.push(UNSEEN);
        i = i + 1;
    }
    let mut order: Vec<usize> = Vec::new();
    let ghost path: Seq<int> = Seq::empty();
    reveal(finishing_up);
    let mut u: usize = 0;
    while u < n
        invariant
            u <= n,
            n == g@.len(),
            path == Seq::<int>::empty(),
            finishing_up(g@, mark@, order@, path),
            forall|v: int| 0 <= v < u ==> #[trigger] mark@[v] == DONE,
        decreases n - u,
    {
        finish(g, u, &mut mark, &mut order, Ghost(path));
        u = u + 1;
    }
    proof {
        assert forall|v: int| 0 <= v < g@.len() implies #[trigger] listed(order@, v) by {
            assert(mark@[v] == DONE);
        }
        lemma_order_is_whole(order@, n as int);
    }
    order
}

} // verus!
