//! Triangles and edges of indexed meshes.

use std::collections::HashSet;

use vstd::prelude::*;

use crate::folds::{lemma_push_contains, lemma_take_next};

verus! {

broadcast use vstd::std_specs::hash::group_hash_axioms;

/// The `k`-th triangle of an index list: its indices at 3k, 3k + 1 and 3k + 2.
pub open spec fn triangle(indices: Seq<u32>, k: int) -> (u32, u32, u32) {
    (indices[3 * k], indices[3 * k + 1], indices[3 * k + 2])
}

/// The triangles of an index list; one or two indices left over make none.
pub open spec fn triangle_list(indices: Seq<u32>) -> Seq<(u32, u32, u32)> {
    Seq::new((indices.len() / 3) as nat, |k: int| triangle(indices, k))
}

/// The triangles of an index list.
pub fn triangles(indices: &Vec<u32>) -> (r: Vec<(u32, u32, u32)>)
    ensures
        r@ == triangle_list(indices@),
{
    let count: usize = indices.len() / 3;
    let mut r: Vec<(u32, u32, u32)> = Vec::new();
    let mut k: usize = 0;
    while k < count
        invariant
            k <= count,
            count == indices.len() / 3,
            r@ == triangle_list(indices@).take(k as int),
        decreases count - k,
    {
        let i: usize = 3 * k;
        r.push((indices[i], indices[i + 1], indices[i + 2]));
        proof {
            let all = triangle_list(indices@);
            assert(all.take(k + 1) =~= all.take(k as int).push(all[k as int]));
        }
        k = k + 1;
    }
    assert(triangle_list(indices@).take(count as int) =~= triangle_list(indices@));
    r
}

/// The triangles of a mesh without an index list, as the first of their three
/// vertices: every third vertex that two more follow.
pub fn unindexed_triangles(vertices: usize) -> (r: Vec<usize>)
    ensures
        r.len() == vertices / 3,
        forall|k: int| 0 <= k < r.len() ==> #[trigger] r@[k] == 3 * k,
{
    let mut r: Vec<usize> = Vec::new();
    let mut k: usize = 0;
    while k < vertices / 3
        invariant
            k <= vertices / 3,
            r.len() == k,
            forall|j: int| 0 <= j < k ==> #[trigger] r@[j] == 3 * j,
        decreases vertices / 3 - k,
    {
        r.push(3 * k);
        k = k + 1;
    }
    r
}

/// Every vertex of every triangle is one of the mesh.
pub fn in_range(indices: &Vec<u32>, vertices: usize) -> (r: bool)
    ensures
        r == forall|i: int| 0 <= i < indices.len() ==> #[trigger] indices@[i] < vertices,
{
    let mut i: usize = 0;
    while i < indices.len()
        invariant
            i <= indices.len(),
            forall|j: int| 0 <= j < i ==> #[trigger] indices@[j] < vertices,
        decreases indices.len() - i,
    {
        if indices[i] as u64 >= vertices as u64 {
            return false;
        }
        i = i + 1;
    }
    true
}

/// An edge with its smaller vertex first.
pub open spec fn edge(i: u32, j: u32) -> (u32, u32) {
    if i < j {
        (i, j)
    } else {
        (j, i)
    }
}

/// `drawn` with the edge at its end, unless it is there already.
pub open spec fn with_edge(drawn: Seq<(u32, u32)>, e: (u32, u32)) -> Seq<(u32, u32)> {
    if drawn.contains(e) {
        drawn
    } else {
        drawn.push(e)
    }
}

/// The edges of the triangles, each once, in the order of first occurrence.
pub open spec fn edge_list(tris: Seq<(u32, u32, u32)>) -> Seq<(u32, u32)>
    decreases tris.len(),
{
    if tris.len() == 0 {
        Seq::empty()
    } else {
        let t = tris.last();
        with_edge(
            with_edge(with_edge(edge_list(tris.drop_last()), edge(t.0, t.1)), edge(t.1, t.2)),
            edge(t.2, t.0),
        )
    }
}

/// A number for each edge.
pub open spec fn edge_key(e: (u32, u32)) -> u64 {
    (e.0 as u64 * 0x1_0000_0000 + e.1 as u64) as u64
}

/// Edges in order, and their numbers, by which they are found again.
struct EdgeSet {
    drawn: Vec<(u32, u32)>,
    seen: HashSet<u64>,
}

impl EdgeSet {
    spec fn wf(self) -> bool {
        forall|e: (u32, u32)| #[trigger]
            self.seen@.contains(edge_key(e)) <==> self.drawn@.contains(e)
    }

    fn add_edge(&mut self, i: u32, j: u32)
        requires
            old(self).wf(),
        ensures
            final(self).wf(),
            final(self).drawn@ == with_edge(old(self).drawn@, edge(i, j)),
    {
        let e: (u32, u32) = if i < j {
            (i, j)
        } else {
            (j, i)
        };
        let key: u64 = e.0 as u64 * 0x1_0000_0000 + e.1 as u64;
        assert(key == edge_key(e));
        if self.seen.contains(&key) {
            return;
        }
        let ghost before = self.drawn@;
        let ghost known = self.seen@;
        self.drawn.push(e);
        self.seen.insert(key);
        proof {
            assert forall|d: (u32, u32)| #[trigger]
                self.seen@.contains(edge_key(d)) <==> self.drawn@.contains(d) by {
                assert(edge_key(d) == edge_key(e) ==> d == e);
                assert(known.contains(edge_key(d)) <==> before.contains(d));
                if before.contains(d) {
                    let k = choose|k: int| 0 <= k < before.len() && before[k] == d;
                    assert(self.drawn@[k] == d);
                }
                assert(self.drawn@[before.len() as int] == e);
                if self.drawn@.contains(d) && d != e {
                    let k = choose|k: int| 0 <= k < self.drawn@.len() && self.drawn@[k] == d;
                    assert(before[k] == d);
                }
            }
        }
    }
}

/// The edges that a wire frame draws: those of all triangles, each once.
pub fn wireframe_edges(indices: &Vec<u32>) -> (r: Vec<(u32, u32)>)
    ensures
        r@ == edge_list(triangle_list(indices@)),
{
    let tris = triangles(indices);
    let mut edges = EdgeSet { drawn: Vec::new(), seen: HashSet::new() };
    let mut k: usize = 0;
    assert(tris@.take(0) =~= Seq::<(u32, u32, u32)>::empty());
    while k < tris.len()
        invariant
            k <= tris.len(),
            edges.wf(),
            edges.drawn@ == edge_list(tris@.take(k as int)),
        decreases tris.len() - k,
    {
        proof {
            lemma_take_next(tris@, k as int);
        }
        let t: (u32, u32, u32) = tris[k];
        edges.add_edge(t.0, t.1);
        edges.add_edge(t.1, t.2);
        edges.add_edge(t.2, t.0);
        k = k + 1;
    }
    assert(tris@.take(tris.len() as int) =~= tris@);
    edges.drawn
}

proof fn lemma_with_edge(drawn: Seq<(u32, u32)>, e: (u32, u32))
    requires
        drawn.no_duplicates(),
    ensures
        with_edge(drawn, e).no_duplicates(),
        with_edge(drawn, e).contains(e),
        forall|d: (u32, u32)| drawn.contains(d) ==> #[trigger] with_edge(drawn, e).contains(d),
{
    let r = with_edge(drawn, e);
    if !drawn.contains(e) {
        assert(r[drawn.len() as int] == e);
        assert forall|i: int, j: int| 0 <= i < r.len() && 0 <= j < r.len() && i != j implies r[i]
            != r[j] by {
            if i == drawn.len() {
                assert(drawn.contains(drawn[j]));
            } else if j == drawn.len() {
                assert(drawn.contains(drawn[i]));
            }
        }
        assert forall|d: (u32, u32)| drawn.contains(d) implies #[trigger] r.contains(d) by {
            let i = choose|i: int| 0 <= i < drawn.len() && drawn[i] == d;
            assert(r[i] == d);
        }
    }
}

/// No edge is drawn twice, in either direction, and every edge of every
/// triangle is drawn.
pub proof fn law_edges_once(tris: Seq<(u32, u32, u32)>)
    ensures
        edge_list(tris).no_duplicates(),
        forall|k: int|
            0 <= k < tris.len() ==> {
                let t = #[trigger] tris[k];
                &&& edge_list(tris).contains(edge(t.0, t.1))
                &&& edge_list(tris).contains(edge(t.1, t.2))
                &&& edge_list(tris).contains(edge(t.2, t.0))
            },
    decreases tris.len(),
{
    if tris.len() > 0 {
        let t = tris.last();
        let front = tris.drop_last();
        law_edges_once(front);
        let a = edge_list(front);
        let b = with_edge(a, edge(t.0, t.1));
        let c = with_edge(b, edge(t.1, t.2));
        lemma_with_edge(a, edge(t.0, t.1));
        lemma_with_edge(b, edge(t.1, t.2));
        lemma_with_edge(c, edge(t.2, t.0));
        let all = edge_list(tris);
        assert forall|k: int| 0 <= k < tris.len() implies ({
            let u = #[trigger] tris[k];
            &&& all.contains(edge(u.0, u.1))
            &&& all.contains(edge(u.1, u.2))
            &&& all.contains(edge(u.2, u.0))
        }) by {
            let u = tris[k];
            if k < front.len() {
                assert(front[k] == u);
                assert(b.contains(edge(u.0, u.1)) && c.contains(edge(u.0, u.1)));
                assert(b.contains(edge(u.1, u.2)) && c.contains(edge(u.1, u.2)));
                assert(b.contains(edge(u.2, u.0)) && c.contains(edge(u.2, u.0)));
            } else {
                assert(c.contains(edge(t.0, t.1)));
            }
        }
    }
}

/// Triangle number `k` has the indices 3k, 3k + 1 and 3k + 2, and there are as
/// many as the indices allow; without indices they are the vertices in threes.
pub proof fn law_triangles(
    indices: &Vec<u32>,
    r: Vec<(u32, u32, u32)>,
    vertices: usize,
    q: Vec<usize>,
    k: int,
)
    requires
        call_ensures(triangles, (indices,), r),
        call_ensures(unindexed_triangles, (vertices,), q),
    ensures
        3 * r@.len() <= indices@.len() < 3 * r@.len() + 3,
        0 <= k < r@.len() ==> r@[k].0 == indices@[3 * k] && r@[k].1 == indices@[3 * k + 1]
            && r@[k].2 == indices@[3 * k + 2],
        3 * q@.len() <= vertices < 3 * q@.len() + 3,
        0 <= k < q@.len() ==> q@[k] == 3 * k,
{
    if 0 <= k < q@.len() {
        let first = q@[k];
        assert(first == 3 * k);
    }
}

/// Indices are in range where each is below the number of vertices.
pub proof fn law_in_range(indices: &Vec<u32>, vertices: usize, r: bool, i: int)
    requires
        call_ensures(in_range, (indices, vertices), r),
    ensures
        r && 0 <= i < indices@.len() ==> indices@[i] < vertices,
        (forall|j: int| 0 <= j < indices@.len() ==> #[trigger] indices@[j] < vertices) ==> r,
{
    let args = (indices, vertices);
    if r && 0 <= i < indices@.len() {
        assert(args.0@[i] < vertices);
    }
}

proof fn lemma_edges_come_from(tris: Seq<(u32, u32, u32)>, e: (u32, u32))
    requires
        edge_list(tris).contains(e),
    ensures
        exists|k: int|
            0 <= k < tris.len() && (edge((#[trigger] tris[k]).0, tris[k].1) == e || edge(
                tris[k].1,
                tris[k].2,
            ) == e || edge(tris[k].2, tris[k].0) == e),
    decreases tris.len(),
{
    if tris.len() > 0 {
        let front = tris.drop_last();
        let t = tris.last();
        let a = edge_list(front);
        let b = with_edge(a, edge(t.0, t.1));
        let c = with_edge(b, edge(t.1, t.2));
        lemma_push_contains(a, edge(t.0, t.1), e);
        lemma_push_contains(b, edge(t.1, t.2), e);
        lemma_push_contains(c, edge(t.2, t.0), e);
        if a.contains(e) {
            lemma_edges_come_from(front, e);
            let k = choose|k: int|
                0 <= k < front.len() && (edge((#[trigger] front[k]).0, front[k].1) == e || edge(
                    front[k].1,
                    front[k].2,
                ) == e || edge(front[k].2, front[k].0) == e);
            assert(tris[k] == front[k]);
        } else {
            assert(edge(tris[tris.len() - 1].0, t.1) == e || edge(t.1, t.2) == e || edge(t.2, t.0)
                == e);
        }
    } else {
        assert(false);
    }
}

/// A wire frame draws every side of every triangle, each once whichever way round
/// it is given, and nothing else.
pub proof fn law_wireframe(
    indices: &Vec<u32>,
    tris: Vec<(u32, u32, u32)>,
    r: Vec<(u32, u32)>,
    k: int,
    i: int,
)
    requires
        call_ensures(wireframe_edges, (indices,), r),
        call_ensures(triangles, (indices,), tris),
    ensures
        0 <= k < tris@.len() ==> {
            let t = tris@[k];
            &&& r@.contains((t.0, t.1)) || r@.contains((t.1, t.0))
            &&& r@.contains((t.1, t.2)) || r@.contains((t.2, t.1))
            &&& r@.contains((t.2, t.0)) || r@.contains((t.0, t.2))
        },
        r@.no_duplicates(),
        0 <= i < r@.len() ==> r@[i].0 <= r@[i].1 && exists|j: int|
            0 <= j < tris@.len() && is_side(#[trigger] tris@[j], r@[i].0, r@[i].1),
{
    law_edges_once(tris@);
    if 0 <= k < tris@.len() {
        let t = tris@[k];
        assert(r@.contains(edge(t.0, t.1)));
    }
    if 0 <= i < r@.len() {
        assert(r@.contains(r@[i]));
        lemma_edges_come_from(tris@, r@[i]);
        let j = choose|j: int|
            0 <= j < tris@.len() && (edge((#[trigger] tris@[j]).0, tris@[j].1) == r@[i] || edge(
                tris@[j].1,
                tris@[j].2,
            ) == r@[i] || edge(tris@[j].2, tris@[j].0) == r@[i]);
        assert(is_side(tris@[j], r@[i].0, r@[i].1));
    }
}

/// The two vertices are the ends of a side of the triangle.
pub open spec fn is_side(t: (u32, u32, u32), a: u32, b: u32) -> bool {
    ||| (t.0 == a && t.1 == b) || (t.0 == b && t.1 == a)
    ||| (t.1 == a && t.2 == b) || (t.1 == b && t.2 == a)
    ||| (t.2 == a && t.0 == b) || (t.2 == b && t.0 == a)
}

} // verus!
