use vstd::prelude::*;
use crate::grid::{
    Grid, VertexIndex, adjacent, all_edges, canonical, edge_count, flat_index, grid_edge,
    lemma_all_edges, lemma_flat_index_bound, lemma_flat_index_injective, on_grid, vertex_count,
};

verus! {

/// The edges of a list, each as a pair of lattice positions.
pub open spec fn edge_views(s: Seq<(VertexIndex, VertexIndex)>) -> Seq<((int, int), (int, int))> {
    s.map_values(|e: (VertexIndex, VertexIndex)| (e.0@, e.1@))
}

/// How many entries of `s` are set.
pub open spec fn count_true(s: Seq<bool>) -> nat
    decreases s.len(),
{
    if s.len() == 0 {
        0
    } else {
        count_true(s.drop_last()) + if s.last() {
            1nat
        } else {
            0nat
        }
    }
}

proof fn lemma_count_bound(s: Seq<bool>)
    ensures
        count_true(s) <= s.len(),
    decreases s.len(),
{
    if s.len() > 0 {
        lemma_count_bound(s.drop_last());
    }
}

proof fn lemma_count_update(s: Seq<bool>, i: int)
    requires
        0 <= i < s.len(),
        !s[i],
    ensures
        count_true(s.update(i, true)) == count_true(s) + 1,
    decreases s.len(),
{
    let t = s.update(i, true);
    if i == s.len() - 1 {
        assert(t.drop_last() =~= s.drop_last());
    } else {
        assert(t.drop_last() =~= s.drop_last().update(i, true));
        lemma_count_update(s.drop_last(), i);
    }
}

/// A vertex set that holds the top-left corner and every neighbour of its members holds every
/// vertex of the grid.
proof fn lemma_closed_set_is_whole(xp: int, yp: int, s: Seq<bool>, v: (int, int))
    requires
        1 <= xp,
        1 <= yp,
        s.len() == vertex_count(xp, yp),
        s[0],
        forall|a: (int, int), b: (int, int)|
            on_grid(xp, yp, a) && on_grid(xp, yp, b) && #[trigger] adjacent(a, b) && s[flat_index(
                xp,
                a,
            )] ==> s[flat_index(xp, b)],
        on_grid(xp, yp, v),
    ensures
        s[flat_index(xp, v)],
    decreases v.0 + v.1,
{
    if v.0 > 0 {
        let u = (v.0 - 1, v.1);
        lemma_closed_set_is_whole(xp, yp, s, u);
        assert(adjacent(u, v));
    } else if v.1 > 0 {
        let u = (v.0, v.1 - 1);
        lemma_closed_set_is_whole(xp, yp, s, u);
        assert(adjacent(u, v));
    } else {
        assert(flat_index(xp, v) == 0);
    }
}

proof fn lemma_views_push(s: Seq<(VertexIndex, VertexIndex)>, e: (VertexIndex, VertexIndex))
    ensures
        edge_views(s.push(e)) == edge_views(s).push((e.0@, e.1@)),
        forall|t: ((int, int), (int, int))| #[trigger]
            edge_views(s.push(e)).contains(t) <==> edge_views(s).contains(t) || t == (e.0@, e.1@),
{
    assert(edge_views(s.push(e)) =~= edge_views(s).push((e.0@, e.1@)));
    let u = edge_views(s).push((e.0@, e.1@));
    assert forall|t: ((int, int), (int, int))| #[trigger]
        u.contains(t) implies edge_views(s).contains(t) || t == (e.0@, e.1@) by {
        let i = choose|i: int| 0 <= i < u.len() && u[i] == t;
        if i < edge_views(s).len() {
            assert(edge_views(s)[i] == t);
        }
    }
    assert forall|t: ((int, int), (int, int))|
        edge_views(s).contains(t) || t == (e.0@, e.1@) implies #[trigger] u.contains(t) by {
        if t == (e.0@, e.1@) {
            assert(u[u.len() - 1] == t);
        } else {
            let i = choose|i: int| 0 <= i < edge_views(s).len() && edge_views(s)[i] == t;
            assert(u[i] == t);
        }
    }
}

fn ordered(a: VertexIndex, b: VertexIndex) -> (r: (VertexIndex, VertexIndex))
    ensures
        (r.0@, r.1@) == canonical(a@, b@),
{
    if a.precedes(&b) {
        (a, b)
    } else {
        (b, a)
    }
}

/// Every edge of the grid exactly once, each written with its row-major smaller end first.
///
/// The edges are met by a walk that starts at the top-left corner, takes a vertex off its
/// frontier, emits an edge to each neighbour not yet finished and puts that neighbour on the
/// frontier.
pub fn gen_edges(grid: &Grid) -> (r: Vec<(VertexIndex, VertexIndex)>)
    requires
        grid.wf(),
    ensures
        forall|i: int|
            0 <= i < r.len() ==> grid_edge(grid.xp(), grid.yp(), (#[trigger] r@[i]).0@, r@[i].1@),
        forall|a: (int, int), b: (int, int)| #[trigger]
            grid_edge(grid.xp(), grid.yp(), a, b) ==> edge_views(r@).contains((a, b)),
        edge_views(r@).no_duplicates(),
        r.len() == edge_count(grid.xp(), grid.yp()),
{
    let ghost xp = grid.xp();
    let ghost yp = grid.yp();
    let n = grid.vertex_count();
    proof {
        crate::grid::lemma_sizes(xp, yp);
    }
    let mut done: Vec<bool> = Vec::new();
    let mut queued: Vec<bool> = Vec::new();
    let mut k: usize = 0;
    while k < n
        invariant
            k <= n,
            n == vertex_count(xp, yp),
            n >= 4,
            done@.len() == k,
            queued@.len() == k,
            forall|i: int| 0 <= i < k ==> !done@[i] && !queued@[i],
        decreases n - k,
    {
        done.push(false);
        queued.push(false);
        k = k + 1;
    }
    // Seed the frontier with the upper-left vertex.

    queued[0] = true;
    let mut todo: Vec<VertexIndex> = Vec::new();
    todo.push(VertexIndex::new(0, 0));
    let mut edges: Vec<(VertexIndex, VertexIndex)> = Vec::new();
    proof {
        lemma_count_bound(done@);
        assert forall|v: (int, int)|
            on_grid(xp, yp, v) && #[trigger] done@[flat_index(xp, v)] implies queued@[flat_index(
                xp,
                v,
            )] by {
            lemma_flat_index_bound(xp, yp, v);
        }
        assert forall|a: (int, int), b: (int, int)|
            on_grid(xp, yp, a) && on_grid(xp, yp, b) && #[trigger] adjacent(a, b)
                && done@[flat_index(xp, a)] implies queued@[flat_index(xp, b)] by {
            lemma_flat_index_bound(xp, yp, a);
        }
        assert forall|a: (int, int), b: (int, int)|
            #[trigger] grid_edge(xp, yp, a, b) && (done@[flat_index(xp, a)] || done@[flat_index(
                xp,
                b,
            )]) implies edge_views(edges@).contains((a, b)) by {
            lemma_flat_index_bound(xp, yp, a);
            lemma_flat_index_bound(xp, yp, b);
        }
        assert forall|v: (int, int)|
            on_grid(xp, yp, v) && queued@[flat_index(xp, v)] && !done@[flat_index(
                xp,
                v,
            )] implies exists|k: int| 0 <= k < todo.len() && (#[trigger] todo@[k])@ == v by {
            lemma_flat_index_bound(xp, yp, v);
            lemma_flat_index_injective(xp, yp, v, (0, 0));
            assert(todo@[0]@ == v);
        }
    }
    while todo.len() > 0
        invariant
            grid.wf(),
            xp == grid.xp(),
            yp == grid.yp(),
            n == vertex_count(xp, yp),
            done@.len() == n,
            queued@.len() == n,
            count_true(done@) <= n,
            queued@[0],
            forall|v: (int, int)|
                on_grid(xp, yp, v) && #[trigger] done@[flat_index(xp, v)] ==> queued@[flat_index(
                    xp,
                    v,
                )],
            forall|k: int|
                0 <= k < todo.len() ==> on_grid(xp, yp, (#[trigger] todo@[k])@) && queued@[flat_index(
                    xp,
                    todo@[k]@,
                )] && !done@[flat_index(xp, todo@[k]@)],
            forall|v: (int, int)|
                on_grid(xp, yp, v) && #[trigger] queued@[flat_index(xp, v)] && !done@[flat_index(
                    xp,
                    v,
                )] ==> exists|k: int| 0 <= k < todo.len() && (#[trigger] todo@[k])@ == v,
            forall|i: int, j: int| 0 <= i < j < todo.len() ==> todo@[i]@ != todo@[j]@,
            forall|a: (int, int), b: (int, int)|
                on_grid(xp, yp, a) && on_grid(xp, yp, b) && #[trigger] adjacent(a, b) && done@[flat_index(
                    xp,
                    a,
                )] ==> queued@[flat_index(xp, b)],
            forall|i: int|
                0 <= i < edges.len() ==> grid_edge(xp, yp, (#[trigger] edges@[i]).0@, edges@[i].1@)
                    && (done@[flat_index(xp, edges@[i].0@)] || done@[flat_index(xp, edges@[i].1@)]),
            forall|a: (int, int), b: (int, int)|
                #[trigger] grid_edge(xp, yp, a, b) && (done@[flat_index(xp, a)] || done@[flat_index(
                    xp,
                    b,
                )]) ==> edge_views(edges@).contains((a, b)),
            edge_views(edges@).no_duplicates(),
        decreases n - count_true(done@),
    {
        let ghost todo_before = todo@;
        let current = todo.pop().unwrap();
        let ghost done0 = done@;
        let ghost queued0 = queued@;
        let ghost edges0 = edges@;
        let ci = grid.index_of_vertex(current);
        assert(todo_before[todo_before.len() - 1] == current);
        assert(!done@[ci as int]);
        let neighbors = grid.neighbors(&current);
        proof {
            assert(queued@[ci as int]);
            assert forall|v: (int, int)|
                on_grid(xp, yp, v) && #[trigger] queued@[flat_index(xp, v)] && !done@[flat_index(
                    xp,
                    v,
                )] implies v == current@ || exists|k: int|
                0 <= k < todo.len() && (#[trigger] todo@[k])@ == v by {
                let k = choose|k: int| 0 <= k < todo_before.len() && (#[trigger] todo_before[k])@ == v;
                if k < todo.len() {
                    assert(todo@[k] == todo_before[k]);
                }
            }
            assert forall|k: int| 0 <= k < todo.len() implies (#[trigger] todo@[k])@ != current@ by {
                assert(todo_before[k] == todo@[k]);
            }
        }
        let mut j: usize = 0;
        while j < neighbors.len()
            invariant
                grid.wf(),
                xp == grid.xp(),
                yp == grid.yp(),
                n == vertex_count(xp, yp),
                done@ == done0,
                done@.len() == n,
                queued@.len() == n,
                on_grid(xp, yp, current@),
                ci == flat_index(xp, current@),
                ci < n,
                !done@[ci as int],
                queued@[ci as int],
                j <= neighbors.len(),
                forall|i: int|
                    0 <= i < neighbors.len() ==> on_grid(xp, yp, (#[trigger] neighbors@[i])@)
                        && adjacent(current@, neighbors@[i]@),
                forall|i: int, i2: int|
                    0 <= i < i2 < neighbors.len() ==> neighbors@[i]@ != neighbors@[i2]@,
                forall|i: int| 0 <= i < j ==> queued@[flat_index(xp, (#[trigger] neighbors@[i])@)],
                forall|w: (int, int)|
                    on_grid(xp, yp, w) && #[trigger] adjacent(current@, w) ==> exists|i: int|
                        0 <= i < neighbors.len() && (#[trigger] neighbors@[i])@ == w,
                forall|i: int| 0 <= i < n && queued0[i] ==> #[trigger] queued@[i],
                queued@[0],
                forall|v: (int, int)|
                    on_grid(xp, yp, v) && #[trigger] done@[flat_index(xp, v)] ==> queued@[flat_index(
                        xp,
                        v,
                    )],
                forall|k: int|
                    0 <= k < todo.len() ==> on_grid(xp, yp, (#[trigger] todo@[k])@)
                        && queued@[flat_index(xp, todo@[k]@)] && !done@[flat_index(xp, todo@[k]@)]
                        && todo@[k]@ != current@,
                forall|v: (int, int)|
                    on_grid(xp, yp, v) && #[trigger] queued@[flat_index(xp, v)] && !done@[flat_index(
                        xp,
                        v,
                    )] ==> v == current@ || exists|k: int|
                        0 <= k < todo.len() && (#[trigger] todo@[k])@ == v,
                forall|i: int, i2: int| 0 <= i < i2 < todo.len() ==> todo@[i]@ != todo@[i2]@,
                forall|a: (int, int), b: (int, int)|
                    on_grid(xp, yp, a) && on_grid(xp, yp, b) && #[trigger] adjacent(a, b)
                        && done@[flat_index(xp, a)] ==> queued@[flat_index(xp, b)],
                forall|i: int|
                    0 <= i < edges.len() ==> grid_edge(
                        xp,
                        yp,
                        (#[trigger] edges@[i]).0@,
                        edges@[i].1@,
                    ) && ((done@[flat_index(xp, edges@[i].0@)] || done@[flat_index(
                        xp,
                        edges@[i].1@,
                    )]) || exists|i2: int|
                        0 <= i2 < j && (edges@[i].0@, edges@[i].1@) == canonical(
                            current@,
                            #[trigger] neighbors@[i2]@,
                        ) && !done@[flat_index(xp, neighbors@[i2]@)]),
                forall|a: (int, int), b: (int, int)|
                    #[trigger] grid_edge(xp, yp, a, b) && (done@[flat_index(xp, a)]
                        || done@[flat_index(xp, b)]) ==> edge_views(edges@).contains((a, b)),
                forall|i: int|
                    0 <= i < j && !done@[flat_index(xp, (#[trigger] neighbors@[i])@)]
                        ==> edge_views(edges@).contains(canonical(current@, neighbors@[i]@)),
                edge_views(edges@).no_duplicates(),
            decreases neighbors.len() - j,
        {
            let neighbor = neighbors[j];
            let ni = grid.index_of_vertex(neighbor);
            let ghost eb = edges@;
            let ghost qb = queued@;
            let ghost tb = todo@;
            assert(neighbors@[j as int] == neighbor);
            if !done[ni] {
                if !queued[ni] {
                    queued[ni] = true;
                    todo.push(neighbor);
                    proof {
                        assert(queued@ == qb.update(ni as int, true));
                        assert(adjacent(current@, neighbor@));
                        assert(todo@ == tb.push(neighbor));
                        assert forall|v: (int, int)|
                            on_grid(xp, yp, v) && #[trigger] done@[flat_index(xp, v)] implies queued@[flat_index(
                                xp,
                                v,
                            )] by {
                            lemma_flat_index_bound(xp, yp, v);
                            assert(qb[flat_index(xp, v)]);
                        }
                        assert forall|k: int| 0 <= k < todo.len() implies on_grid(xp, yp, (#[trigger] todo@[k])@)
                            && queued@[flat_index(xp, todo@[k]@)] && !done@[flat_index(xp, todo@[k]@)]
                            && todo@[k]@ != current@ by {
                            lemma_flat_index_bound(xp, yp, todo@[k]@);
                            if k < tb.len() {
                                assert(todo@[k] == tb[k]);
                                assert(qb[flat_index(xp, tb[k]@)]);
                            }
                        }
                        assert forall|v: (int, int)|
                            on_grid(xp, yp, v) && #[trigger] queued@[flat_index(xp, v)]
                                && !done@[flat_index(xp, v)] implies v == current@ || exists|k: int|
                            0 <= k < todo.len() && (#[trigger] todo@[k])@ == v by {
                            lemma_flat_index_bound(xp, yp, v);
                            if flat_index(xp, v) == ni {
                                lemma_flat_index_injective(xp, yp, v, neighbor@);
                                assert(todo@[todo.len() - 1]@ == v);
                            } else {
                                assert(qb[flat_index(xp, v)]);
                                if v != current@ {
                                    let k = choose|k: int| 0 <= k < tb.len() && (#[trigger] tb[k])@ == v;
                                    assert(todo@[k]@ == v);
                                }
                            }
                        }
                        assert forall|k: int, k2: int| 0 <= k < k2 < todo.len() implies todo@[k]@
                            != todo@[k2]@ by {
                            if k2 == todo.len() - 1 {
                                assert(qb[flat_index(xp, tb[k]@)]);
                            }
                        }
                    }
                }
                let e = ordered(current, neighbor);
                edges.push(e);
                proof {
                    lemma_views_push(eb, e);
                    let ev = (e.0@, e.1@);
                    let ov = edge_views(eb);
                    let nv = edge_views(edges@);
                    assert forall|i: int| 0 <= i < ov.len() implies ov[i] != ev by {
                        assert(ov[i] == (eb[i].0@, eb[i].1@));
                        assert(grid_edge(xp, yp, eb[i].0@, eb[i].1@));
                    }
                    assert forall|x: int, y: int| 0 <= x < nv.len() && 0 <= y < nv.len() && x
                        != y implies nv[x] != nv[y] by {
                        if y == ov.len() {
                            assert(ov[x] != ev);
                        } else if x == ov.len() {
                            assert(ov[y] != ev);
                        } else {
                            assert(ov[x] != ov[y]);
                        }
                    }
                    assert(edges@[edges.len() - 1] == e);
                    assert(neighbors@[j as int] == neighbor);
                }
            } else {
                proof {
                    assert(queued@[flat_index(xp, neighbor@)]);
                    assert(grid_edge(xp, yp, canonical(current@, neighbor@).0, canonical(current@, neighbor@).1));
                }
            }
            proof {
                assert(forall|i: int| 0 <= i < n && qb[i] ==> queued@[i]);
                assert(queued@[ni as int]);
                assert(qb[ci as int]);
                assert forall|a: (int, int), b: (int, int)|
                    on_grid(xp, yp, a) && on_grid(xp, yp, b) && #[trigger] adjacent(a, b)
                        && done@[flat_index(xp, a)] implies queued@[flat_index(xp, b)] by {
                    lemma_flat_index_bound(xp, yp, b);
                    assert(qb[flat_index(xp, b)]);
                }
                assert forall|i: int| 0 <= i <= j implies queued@[flat_index(
                    xp,
                    (#[trigger] neighbors@[i])@,
                )] by {
                    if i < j {
                        lemma_flat_index_bound(xp, yp, neighbors@[i]@);
                        assert(qb[flat_index(xp, neighbors@[i]@)]);
                    }
                }
            }
            j = j + 1;
        }
        done[ci] = true;
        proof {
            lemma_count_update(done0, ci as int);
            lemma_count_bound(done@);
            assert forall|v: (int, int)| on_grid(xp, yp, v) && flat_index(xp, v) == ci implies v
                == current@ by {
                lemma_flat_index_injective(xp, yp, v, current@);
            }
            assert forall|v: (int, int)|
                on_grid(xp, yp, v) && #[trigger] done@[flat_index(xp, v)] implies queued@[flat_index(
                    xp,
                    v,
                )] by {
                lemma_flat_index_bound(xp, yp, v);
            }
            assert forall|k: int| 0 <= k < todo.len() implies on_grid(xp, yp, (#[trigger] todo@[k])@)
                && queued@[flat_index(xp, todo@[k]@)] && !done@[flat_index(xp, todo@[k]@)] by {
                lemma_flat_index_bound(xp, yp, todo@[k]@);
            }
            assert forall|v: (int, int)|
                on_grid(xp, yp, v) && #[trigger] queued@[flat_index(xp, v)] && !done@[flat_index(
                    xp,
                    v,
                )] implies exists|k: int| 0 <= k < todo.len() && (#[trigger] todo@[k])@ == v by {
                lemma_flat_index_bound(xp, yp, v);
            }
            assert forall|a: (int, int), b: (int, int)|
                on_grid(xp, yp, a) && on_grid(xp, yp, b) && #[trigger] adjacent(a, b)
                    && done@[flat_index(xp, a)] implies queued@[flat_index(xp, b)] by {
                lemma_flat_index_bound(xp, yp, a);
                lemma_flat_index_bound(xp, yp, b);
                if flat_index(xp, a) == ci {
                    let i = choose|i: int| 0 <= i < neighbors.len() && (#[trigger] neighbors@[i])@ == b;
                    assert(queued@[flat_index(xp, neighbors@[i]@)]);
                } else {
                    assert(queued0[flat_index(xp, b)]);
                }
            }
            assert forall|i: int| 0 <= i < edges.len() implies grid_edge(
                xp,
                yp,
                (#[trigger] edges@[i]).0@,
                edges@[i].1@,
            ) && (done@[flat_index(xp, edges@[i].0@)] || done@[flat_index(xp, edges@[i].1@)]) by {
                lemma_flat_index_bound(xp, yp, edges@[i].0@);
                lemma_flat_index_bound(xp, yp, edges@[i].1@);
            }
            assert forall|a: (int, int), b: (int, int)|
                #[trigger] grid_edge(xp, yp, a, b) && (done@[flat_index(xp, a)] || done@[flat_index(
                    xp,
                    b,
                )]) implies edge_views(edges@).contains((a, b)) by {
                lemma_flat_index_bound(xp, yp, a);
                lemma_flat_index_bound(xp, yp, b);
                if !done0[flat_index(xp, a)] && !done0[flat_index(xp, b)] {
                    if flat_index(xp, a) == ci {
                        assert(adjacent(current@, b));
                        let i = choose|i: int| 0 <= i < neighbors.len() && (#[trigger] neighbors@[i])@ == b;
                        assert(canonical(current@, neighbors@[i]@) == (a, b));
                    } else {
                        assert(adjacent(current@, a));
                        let i = choose|i: int| 0 <= i < neighbors.len() && (#[trigger] neighbors@[i])@ == a;
                        assert(canonical(current@, neighbors@[i]@) == (a, b));
                    }
                }
            }
        }
    }
    proof {
        lemma_all_edges(xp, yp);
        let s = edge_views(edges@);
        let all = all_edges(xp, yp);
        assert forall|v: (int, int)| on_grid(xp, yp, v) implies #[trigger] done@[flat_index(
            xp,
            v,
        )] by {
            lemma_closed_set_is_whole(xp, yp, queued@, v);
        }
        assert(s.to_set() =~= all.to_set());
        s.unique_seq_to_set();
        all.unique_seq_to_set();
    }
    edges
}

} // verus!
