//! Navigation-graph pockets: waypoints whose group (the waypoints joined to
//! them by links in either direction) is too small to matter, such as
//! fixture tops and sealed nooks. Positions never snap to them.
use vstd::prelude::*;

verus! {

/// Groups of fewer waypoints than this are pockets.
pub const POCKET_SIZE: usize = 30;

/// Waypoints `a` and `b` share a link, in either direction.
pub open spec fn linked(edges: Seq<Vec<u32>>, a: int, b: int) -> bool {
    (0 <= a < edges.len() && edges[a]@.contains(b as u32)) || (0 <= b < edges.len() && edges[b]@.contains(
        a as u32,
    ))
}

/// A walk through the graph, link by link.
pub open spec fn is_walk(edges: Seq<Vec<u32>>, p: Seq<int>) -> bool {
    &&& p.len() > 0
    &&& forall|i: int| 0 <= i < p.len() ==> 0 <= #[trigger] p[i] < edges.len()
    &&& forall|i: int| 0 <= i < p.len() - 1 ==> linked(edges, #[trigger] p[i], p[i + 1])
}

/// `a` and `b` are in one group: some walk leads from one to the other.
pub open spec fn connected(edges: Seq<Vec<u32>>, a: int, b: int) -> bool {
    exists|p: Seq<int>| is_walk(edges, p) && p[0] == a && #[trigger] p.last() == b
}

/// Waypoints below `k` in the group of `a`.
pub open spec fn group_count(edges: Seq<Vec<u32>>, a: int, k: int) -> nat
    decreases k,
{
    if k <= 0 {
        0
    } else {
        group_count(edges, a, k - 1) + (if connected(edges, a, k - 1) {
            1nat
        } else {
            0nat
        })
    }
}

/// The size of `a`'s group.
pub open spec fn group_size(edges: Seq<Vec<u32>>, a: int) -> nat {
    group_count(edges, a, edges.len() as int)
}

/// Every link leads to a waypoint of the graph.
pub open spec fn links_in_range(edges: Seq<Vec<u32>>) -> bool {
    forall|a: int, j: int| 0 <= a < edges.len() && 0 <= j < edges[a]@.len() ==> #[trigger] edges[a]@[j] < edges.len()
}

proof fn lemma_walk_one(edges: Seq<Vec<u32>>, a: int)
    requires
        0 <= a < edges.len(),
    ensures
        connected(edges, a, a),
{
    let p = seq![a];
    assert(is_walk(edges, p));
    assert(p.last() == a);
}

proof fn lemma_walk_extend(edges: Seq<Vec<u32>>, a: int, b: int, c: int)
    requires
        connected(edges, a, b),
        linked(edges, b, c),
        0 <= c < edges.len(),
    ensures
        connected(edges, a, c),
{
    let p = choose|p: Seq<int>| is_walk(edges, p) && p[0] == a && #[trigger] p.last() == b;
    let q = p.push(c);
    assert forall|i: int| 0 <= i < q.len() - 1 implies linked(edges, #[trigger] q[i], q[i + 1]) by {
        if i < p.len() - 1 {
            assert(q[i] == p[i] && q[i + 1] == p[i + 1]);
        }
    }
    assert(is_walk(edges, q));
    assert(q.last() == c);
}

proof fn lemma_walk_reverse(edges: Seq<Vec<u32>>, a: int, b: int)
    requires
        connected(edges, a, b),
    ensures
        connected(edges, b, a),
{
    let p = choose|p: Seq<int>| is_walk(edges, p) && p[0] == a && #[trigger] p.last() == b;
    let n = p.len();
    let q = Seq::new(n, |i: int| p[n - 1 - i]);
    assert forall|i: int| 0 <= i < q.len() implies 0 <= #[trigger] q[i] < edges.len() by {
        assert(q[i] == p[n - 1 - i]);
    }
    assert forall|i: int| 0 <= i < q.len() - 1 implies linked(edges, #[trigger] q[i], q[i + 1]) by {
        let j = n - 2 - i;
        assert(linked(edges, p[j], p[j + 1]));
    }
    assert(is_walk(edges, q));
    assert(q.last() == a);
}

proof fn lemma_walk_join(edges: Seq<Vec<u32>>, a: int, b: int, c: int)
    requires
        connected(edges, a, b),
        connected(edges, b, c),
    ensures
        connected(edges, a, c),
{
    let p = choose|p: Seq<int>| is_walk(edges, p) && p[0] == a && #[trigger] p.last() == b;
    let r = choose|r: Seq<int>| is_walk(edges, r) && r[0] == b && #[trigger] r.last() == c;
    let q = p + r.drop_first();
    assert forall|i: int| 0 <= i < q.len() implies 0 <= #[trigger] q[i] < edges.len() by {
        if i >= p.len() {
            assert(q[i] == r[i - p.len() + 1]);
        }
    }
    assert forall|i: int| 0 <= i < q.len() - 1 implies linked(edges, #[trigger] q[i], q[i + 1]) by {
        if i < p.len() - 1 {
            assert(q[i] == p[i] && q[i + 1] == p[i + 1]);
        } else if i == p.len() - 1 {
            assert(q[i] == r[0]);
            assert(q[i + 1] == r[1]);
            assert(linked(edges, r[0], r[1]));
        } else {
            let j = i - p.len() + 1;
            assert(q[i] == r[j] && q[i + 1] == r[j + 1]);
            assert(linked(edges, r[j], r[j + 1]));
        }
    }
    assert(is_walk(edges, q));
    if r.len() == 1 {
        assert(q =~= p);
    } else {
        assert(q.last() == r.last());
    }
}

/// With labels equal across every link, a walk keeps its label.
proof fn lemma_label_along(edges: Seq<Vec<u32>>, label: Seq<u32>, p: Seq<int>, k: int)
    requires
        label.len() == edges.len(),
        is_walk(edges, p),
        0 <= k < p.len(),
        forall|x: int, y: int| 0 <= x < edges.len() && 0 <= y < edges.len() && #[trigger] linked(edges, x, y)
            ==> label[x] == label[y],
    ensures
        label[p[k]] == label[p[0]],
    decreases k,
{
    if k > 0 {
        lemma_label_along(edges, label, p, k - 1);
        assert(linked(edges, p[k - 1], p[k]));
    }
}

/// The labels below `k` equal to `l`.
pub open spec fn label_count(label: Seq<u32>, l: int, k: int) -> nat
    decreases k,
{
    if k <= 0 {
        0
    } else {
        label_count(label, l, k - 1) + (if label[k - 1] as int == l {
            1nat
        } else {
            0nat
        })
    }
}

proof fn lemma_counts_agree(edges: Seq<Vec<u32>>, label: Seq<u32>, a: int, k: int)
    requires
        0 <= k <= edges.len(),
        0 <= a < edges.len(),
        label.len() == edges.len(),
        forall|v: int| 0 <= v < edges.len() ==> (label[v] == label[a] <==> #[trigger] connected(edges, a, v)),
    ensures
        label_count(label, label[a] as int, k) == group_count(edges, a, k),
    decreases k,
{
    if k > 0 {
        lemma_counts_agree(edges, label, a, k - 1);
        assert(label[k - 1] == label[a] <==> connected(edges, a, k - 1));
    }
}

pub open spec fn label_sum(label: Seq<u32>) -> nat
    decreases label.len(),
{
    if label.len() == 0 {
        0
    } else {
        label_sum(label.drop_last()) + label.last() as nat
    }
}

proof fn lemma_sum_update(label: Seq<u32>, i: int, x: u32)
    requires
        0 <= i < label.len(),
    ensures
        label_sum(label.update(i, x)) + label[i] == label_sum(label) + x,
    decreases label.len(),
{
    if i < label.len() - 1 {
        assert(label.update(i, x).drop_last() =~= label.drop_last().update(i, x));
        lemma_sum_update(label.drop_last(), i, x);
    } else {
        assert(label.update(i, x).drop_last() =~= label.drop_last());
    }
}

/// Which waypoints lie in pockets: groups of fewer than POCKET_SIZE
/// waypoints, where a group is everything joined by links in either
/// direction. `edges[a]` lists the waypoints `a` links to.
pub fn pockets(edges: &Vec<Vec<u32>>) -> (r: Vec<bool>)
    requires
        edges@.len() <= u32::MAX,
        links_in_range(edges@),
    ensures
        r@.len() == edges@.len(),
        forall|a: int| 0 <= a < edges@.len() ==> #[trigger] r@[a] == (group_size(edges@, a) < POCKET_SIZE),
{
    let n = edges.len();
    let ghost g = edges@;
    // Each waypoint starts as its own label; labels then flow down links
    // until every link joins equal labels.
    let mut label: Vec<u32> = Vec::new();
    let mut i: usize = 0;
    while i < n
        invariant
            n == g.len(),
            n <= u32::MAX,
            i <= n,
            label@.len() == i,
            forall|v: int| 0 <= v < i ==> #[trigger] label@[v] == v,
        decreases n - i,
    {
        label.push(i as u32);
        i = i + 1;
    }
    proof {
        assert forall|v: int| 0 <= v < n implies #[trigger] label@[v] < n && connected(g, label@[v] as int, v) by {
            lemma_walk_one(g, v);
        }
    }
    loop
        invariant
            n == g.len(),
            g == edges@,
            n <= u32::MAX,
            links_in_range(g),
            label@.len() == n,
            forall|v: int| 0 <= v < n ==> #[trigger] label@[v] < n && connected(g, label@[v] as int, v),
        ensures
            label@.len() == n,
            forall|v: int| 0 <= v < n ==> #[trigger] label@[v] < n && connected(g, label@[v] as int, v),
            forall|x: int, y: int| 0 <= x < n && 0 <= y < n && #[trigger] linked(g, x, y) ==> label@[x] == label@[y],
        decreases label_sum(label@),
    {
        let ghost start = label@;
        let mut changed = false;
        let mut a: usize = 0;
        while a < n
            invariant
                n == g.len(),
                g == edges@,
                n <= u32::MAX,
                links_in_range(g),
                a <= n,
                label@.len() == n,
                forall|v: int| 0 <= v < n ==> #[trigger] label@[v] < n && connected(g, label@[v] as int, v),
                changed ==> label_sum(label@) < label_sum(start),
                !changed ==> label@ == start,
                !changed ==> forall|x: int, j: int|
                    0 <= x < a && 0 <= j < g[x]@.len() ==> label@[x] == label@[#[trigger] g[x]@[j] as int],
            decreases n - a,
        {
            let mut k: usize = 0;
            while k < edges[a].len()
                invariant
                    n == g.len(),
                    g == edges@,
                    n <= u32::MAX,
                    links_in_range(g),
                    a < n,
                    k <= g[a as int]@.len(),
                    label@.len() == n,
                    forall|v: int| 0 <= v < n ==> #[trigger] label@[v] < n && connected(g, label@[v] as int, v),
                    changed ==> label_sum(label@) < label_sum(start),
                    !changed ==> label@ == start,
                    !changed ==> forall|x: int, j: int|
                        0 <= x < a && 0 <= j < g[x]@.len() ==> label@[x] == label@[#[trigger] g[x]@[j] as int],
                    !changed ==> forall|j: int|
                        0 <= j < k ==> label@[a as int] == label@[#[trigger] g[a as int]@[j] as int],
                decreases g[a as int]@.len() - k,
            {
                let b = edges[a][k];
                proof {
                    assert(g[a as int]@[k as int] == b);
                    assert(b < n);
                    assert(g[a as int]@.contains(b));
                    assert(linked(g, a as int, b as int));
                    assert(linked(g, b as int, a as int));
                }
                let la = label[a];
                let lb = label[b as usize];
                if la < lb {
                    let ghost before = label@;
                    label.set(b as usize, la);
                    proof {
                        lemma_sum_update(before, b as int, la);
                        assert forall|v: int| 0 <= v < n implies #[trigger] label@[v] < n && connected(
                            g,
                            label@[v] as int,
                            v,
                        ) by {
                            if v == b as int {
                                assert(connected(g, la as int, a as int));
                                lemma_walk_extend(g, la as int, a as int, b as int);
                            } else {
                                assert(label@[v] == before[v]);
                            }
                        }
                    }
                    changed = true;
                } else if lb < la {
                    let ghost before = label@;
                    label.set(a, lb);
                    proof {
                        lemma_sum_update(before, a as int, lb);
                        assert forall|v: int| 0 <= v < n implies #[trigger] label@[v] < n && connected(
                            g,
                            label@[v] as int,
                            v,
                        ) by {
                            if v == a as int {
                                assert(connected(g, lb as int, b as int));
                                lemma_walk_extend(g, lb as int, b as int, a as int);
                            } else {
                                assert(label@[v] == before[v]);
                            }
                        }
                    }
                    changed = true;
                }
                k = k + 1;
            }
            a = a + 1;
        }
        if !changed {
            proof {
                assert forall|x: int, y: int| 0 <= x < n && 0 <= y < n && #[trigger] linked(g, x, y) implies label@[x]
                    == label@[y] by {
                    if g[x]@.contains(y as u32) {
                        let j = choose|j: int| 0 <= j < g[x]@.len() && g[x]@[j] == y as u32;
                        assert(label@[x] == label@[g[x]@[j] as int]);
                    } else {
                        let j = choose|j: int| 0 <= j < g[y]@.len() && g[y]@[j] == x as u32;
                        assert(label@[y] == label@[g[y]@[j] as int]);
                    }
                }
            }
            break;
        }
    }
    // A group is exactly the waypoints that share a label.
    proof {
        assert forall|a: int, v: int| 0 <= a < n && 0 <= v < n implies (label@[v] == label@[a] <==> #[trigger] connected(
            g,
            a,
            v,
        )) by {
            if label@[v] == label@[a] {
                let l = label@[a] as int;
                lemma_walk_reverse(g, l, a);
                lemma_walk_join(g, a, l, v);
            }
            if connected(g, a, v) {
                let p = choose|p: Seq<int>| is_walk(g, p) && p[0] == a && #[trigger] p.last() == v;
                lemma_label_along(g, label@, p, p.len() - 1);
            }
        }
    }
    let mut sizes: Vec<usize> = Vec::new();
    let mut i: usize = 0;
    while i < n
        invariant
            i <= n,
            sizes@.len() == i,
            forall|l: int| 0 <= l < i ==> #[trigger] sizes@[l] == 0,
        decreases n - i,
    {
        sizes.push(0);
        i = i + 1;
    }
    let mut v: usize = 0;
    while v < n
        invariant
            n == g.len(),
            label@.len() == n,
            v <= n,
            sizes@.len() == n,
            forall|x: int| 0 <= x < n ==> #[trigger] label@[x] < n,
            forall|l: int| 0 <= l < n ==> #[trigger] sizes@[l] == label_count(label@, l, v as int),
            forall|l: int| 0 <= l < n ==> #[trigger] sizes@[l] <= v,
        decreases n - v,
    {
        let l = label[v] as usize;
        let s = sizes[l];
        let ghost before = sizes@;
        sizes.set(l, s + 1);
        proof {
            assert forall|m: int| 0 <= m < n implies #[trigger] sizes@[m] == label_count(
                label@,
                m,
                v + 1,
            ) by {
                assert(label_count(label@, m, v + 1) == label_count(label@, m, v as int) + (if label@[v as int] as int
                    == m {
                    1nat
                } else {
                    0nat
                }));
                if m != l as int {
                    assert(sizes@[m] == before[m]);
                }
            }
        }
        v = v + 1;
    }
    let mut out: Vec<bool> = Vec::new();
    let mut a: usize = 0;
    while a < n
        invariant
            n == g.len(),
            label@.len() == n,
            sizes@.len() == n,
            a <= n,
            out@.len() == a,
            forall|x: int| 0 <= x < n ==> #[trigger] label@[x] < n,
            forall|l: int| 0 <= l < n ==> #[trigger] sizes@[l] == label_count(label@, l, n as int),
            forall|x: int, w: int| 0 <= x < n && 0 <= w < n ==> (label@[w] == label@[x] <==> #[trigger] connected(g, x, w)),
            forall|x: int| 0 <= x < a ==> #[trigger] out@[x] == (group_size(g, x) < POCKET_SIZE),
        decreases n - a,
    {
        proof {
            assert forall|w: int| 0 <= w < g.len() implies (label@[w] == label@[a as int] <==> #[trigger] connected(
                g,
                a as int,
                w,
            )) by {}
            lemma_counts_agree(g, label@, a as int, n as int);
        }
        out.push(sizes[label[a] as usize] < POCKET_SIZE);
        a = a + 1;
    }
    out
}

} // verus!
