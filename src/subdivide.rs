use vstd::prelude::*;

use crate::clipmap::GeoClipMap;
use crate::geometry::{
    area2, dist2, distance_squared, even_xz, lemma_midpoint_inside, midpoint, midpoint_of, BoundingBox,
    Vertex,
};
use crate::winding::{tri_area2, winding_positive};
use crate::weld::{dedup, lemma_dedup_elements, lemma_dedup_push, push_unique, WeldTable};

verus! {

/// The position of corner `k` of triangle `t`.
pub open spec fn corner(vs: Seq<Vertex>, idx: Seq<u32>, t: int, k: int) -> Vertex {
    vs[idx[3 * t + k] as int]
}

/// The corners `a b c` rotated so that the edge to split runs from the first
/// to the second: the longest edge, ties going to `ab`, then `bc`, then `ca`.
pub open spec fn split_order(a: Vertex, b: Vertex, c: Vertex) -> (Vertex, Vertex, Vertex) {
    if dist2(a, b) >= dist2(b, c) && dist2(a, b) >= dist2(c, a) {
        (a, b, c)
    } else if dist2(b, c) >= dist2(a, b) && dist2(b, c) >= dist2(c, a) {
        (b, c, a)
    } else {
        (c, a, b)
    }
}

/// Triangle `t` in split order.
pub open spec fn split_corners(vs: Seq<Vertex>, idx: Seq<u32>, t: int) -> (
    Vertex,
    Vertex,
    Vertex,
) {
    split_order(corner(vs, idx, t, 0), corner(vs, idx, t, 1), corner(vs, idx, t, 2))
}

/// The position that index `j` of the refined index buffer refers to.
/// Triangle `t` with split order `p q r` becomes `p m r` and `m q r`, where
/// `m` is the midpoint of `p q`.
pub open spec fn refined_corner(vs: Seq<Vertex>, idx: Seq<u32>, j: int) -> Vertex {
    let (p, q, r) = split_corners(vs, idx, j / 6);
    let m = midpoint_of(p, q);
    let k = j % 6;
    if k == 0 {
        p
    } else if k == 1 || k == 3 {
        m
    } else if k == 4 {
        q
    } else {
        r
    }
}

/// The positions in the order the welder meets them: for each of the first
/// `t` triangles, its three corners and then the midpoint of its split edge.
pub open spec fn weld_order(vs: Seq<Vertex>, idx: Seq<u32>, t: int) -> Seq<Vertex>
    decreases t,
{
    if t <= 0 {
        Seq::empty()
    } else {
        let (p, q, r) = split_corners(vs, idx, t - 1);
        weld_order(vs, idx, t - 1).push(corner(vs, idx, t - 1, 0)).push(
            corner(vs, idx, t - 1, 1),
        ).push(corner(vs, idx, t - 1, 2)).push(midpoint_of(p, q))
    }
}

/// An index buffer of whole triangles whose indices all fall inside a vertex
/// buffer of `n` entries.
pub open spec fn indices_valid(n: int, idx: Seq<u32>) -> bool {
    &&& idx.len() % 3 == 0
    &&& forall|j: int| 0 <= j < idx.len() ==> (#[trigger] idx[j] as int) < n
}

/// `new_vs`, `new_idx` is one pass of longest-edge bisection of `vs`, `idx`:
/// the welded positions in the order first met, and two triangles for each
/// triangle of the input.
pub open spec fn is_refinement(
    vs: Seq<Vertex>,
    idx: Seq<u32>,
    new_vs: Seq<Vertex>,
    new_idx: Seq<u32>,
) -> bool {
    &&& new_vs == dedup(weld_order(vs, idx, (idx.len() / 3) as int))
    &&& new_idx.len() == 2 * idx.len()
    &&& forall|j: int|
        0 <= j < new_idx.len() ==> {
            &&& (#[trigger] new_idx[j] as int) < new_vs.len()
            &&& new_vs[new_idx[j] as int] == refined_corner(vs, idx, j)
        }
}

/// An edge as an unordered pair of vertex indices.
pub open spec fn edge(i: u32, j: u32) -> (u32, u32) {
    if i <= j {
        (i, j)
    } else {
        (j, i)
    }
}

/// The distinct edges of the first `t` triangles.
pub open spec fn edges_upto(idx: Seq<u32>, t: int) -> Set<(u32, u32)>
    decreases t,
{
    if t <= 0 {
        Set::empty()
    } else {
        let a = idx[3 * (t - 1)];
        let b = idx[3 * (t - 1) + 1];
        let c = idx[3 * (t - 1) + 2];
        edges_upto(idx, t - 1).insert(edge(a, b)).insert(edge(b, c)).insert(edge(c, a))
    }
}

/// The number of distinct edges of a triangle list.
pub open spec fn distinct_edge_count(idx: Seq<u32>) -> nat {
    edges_upto(idx, (idx.len() / 3) as int).len()
}

pub proof fn lemma_edges_finite(idx: Seq<u32>, t: int)
    ensures
        edges_upto(idx, t).finite(),
    decreases t,
{
    if t > 0 {
        lemma_edges_finite(idx, t - 1);
    }
}

pub proof fn lemma_edges_grow(idx: Seq<u32>, t: int, u: int)
    requires
        0 <= t <= u,
    ensures
        edges_upto(idx, t).subset_of(edges_upto(idx, u)),
    decreases u,
{
    if t < u {
        lemma_edges_grow(idx, t, u - 1);
    }
}

proof fn lemma_push_unique_keeps(s: Seq<Vertex>, v: Vertex)
    ensures
        push_unique(s, v).contains(v),
        forall|w: Vertex| s.contains(w) ==> #[trigger] push_unique(s, v).contains(w),
        s.contains(v) ==> push_unique(s, v).len() == s.len(),
        !s.contains(v) ==> push_unique(s, v).len() == s.len() + 1,
{
    if !s.contains(v) {
        assert(s.push(v)[s.len() as int] == v);
        assert forall|w: Vertex| s.contains(w) implies #[trigger] push_unique(s, v).contains(w) by {
            let k = choose|k: int| 0 <= k < s.len() && s[k] == w;
            assert(s.push(v)[k] == w);
        }
    }
}

proof fn lemma_count_step<A>(s: Seq<Vertex>, v: Vertex, used: Set<A>, x: A, extra: int)
    requires
        used.finite(),
        !s.contains(v) ==> !used.contains(x),
        s.len() <= used.len() + extra,
    ensures
        push_unique(s, v).len() <= used.insert(x).len() + extra,
{
    lemma_push_unique_keeps(s, v);
    if used.contains(x) {
        assert(used.insert(x) =~= used);
    }
}

/// The edge that triangle `t` is split along, as an unordered index pair.
pub open spec fn split_edge(vs: Seq<Vertex>, idx: Seq<u32>, t: int) -> (u32, u32) {
    let i0 = idx[3 * t];
    let i1 = idx[3 * t + 1];
    let i2 = idx[3 * t + 2];
    let a = vs[i0 as int];
    let b = vs[i1 as int];
    let c = vs[i2 as int];
    if dist2(a, b) >= dist2(b, c) && dist2(a, b) >= dist2(c, a) {
        edge(i0, i1)
    } else if dist2(b, c) >= dist2(a, b) && dist2(b, c) >= dist2(c, a) {
        edge(i1, i2)
    } else {
        edge(i2, i0)
    }
}

/// The vertex indices that the first `t` triangles use.
pub open spec fn used_upto(idx: Seq<u32>, t: int) -> Set<int>
    decreases t,
{
    if t <= 0 {
        Set::empty()
    } else {
        used_upto(idx, t - 1).insert(idx[3 * (t - 1)] as int).insert(
            idx[3 * (t - 1) + 1] as int,
        ).insert(idx[3 * (t - 1) + 2] as int)
    }
}

/// The edges that the first `t` triangles are split along.
pub open spec fn split_upto(vs: Seq<Vertex>, idx: Seq<u32>, t: int) -> Set<(u32, u32)>
    decreases t,
{
    if t <= 0 {
        Set::empty()
    } else {
        split_upto(vs, idx, t - 1).insert(split_edge(vs, idx, t - 1))
    }
}

/// Each welded position is a used corner or the midpoint of a split edge, so
/// there are no more of them than used corners and split edges together.
proof fn lemma_weld_count(vs: Seq<Vertex>, idx: Seq<u32>, t: int)
    requires
        indices_valid(vs.len() as int, idx),
        0 <= t <= idx.len() / 3,
    ensures
        used_upto(idx, t).finite(),
        split_upto(vs, idx, t).finite(),
        split_upto(vs, idx, t).subset_of(edges_upto(idx, t)),
        forall|i: int| #[trigger]
            used_upto(idx, t).contains(i) ==> 0 <= i < vs.len() && dedup(
                weld_order(vs, idx, t),
            ).contains(vs[i]),
        forall|e: (u32, u32)| #[trigger]
            split_upto(vs, idx, t).contains(e) ==> dedup(weld_order(vs, idx, t)).contains(
                midpoint_of(vs[e.0 as int], vs[e.1 as int]),
            ),
        dedup(weld_order(vs, idx, t)).len() <= used_upto(idx, t).len() + split_upto(
            vs,
            idx,
            t,
        ).len(),
    decreases t,
{
    if t > 0 {
        let u = t - 1;
        lemma_weld_count(vs, idx, u);
        lemma_edges_grow(idx, u, t);
        let i0 = idx[3 * u];
        let i1 = idx[3 * u + 1];
        let i2 = idx[3 * u + 2];
        let a = corner(vs, idx, u, 0);
        let b = corner(vs, idx, u, 1);
        let c = corner(vs, idx, u, 2);
        let (p, q, r) = split_corners(vs, idx, u);
        let m = midpoint_of(p, q);
        let w0 = weld_order(vs, idx, u);
        lemma_dedup_push(w0, a);
        lemma_dedup_push(w0.push(a), b);
        lemma_dedup_push(w0.push(a).push(b), c);
        lemma_dedup_push(w0.push(a).push(b).push(c), m);
        let s0 = dedup(w0);
        let s1 = push_unique(s0, a);
        let s2 = push_unique(s1, b);
        let s3 = push_unique(s2, c);
        let s4 = push_unique(s3, m);
        assert(dedup(weld_order(vs, idx, t)) == s4);
        let u0 = used_upto(idx, u);
        let u1 = u0.insert(i0 as int);
        let u2 = u1.insert(i1 as int);
        let e0 = split_upto(vs, idx, u);
        let e = split_edge(vs, idx, u);
        lemma_push_unique_keeps(s0, a);
        lemma_push_unique_keeps(s1, b);
        lemma_push_unique_keeps(s2, c);
        lemma_push_unique_keeps(s3, m);
        lemma_count_step(s0, a, u0, i0 as int, e0.len() as int);
        lemma_count_step(s1, b, u1, i1 as int, e0.len() as int);
        lemma_count_step(s2, c, u2, i2 as int, e0.len() as int);
        assert(midpoint_of(vs[e.0 as int], vs[e.1 as int]) == m);
        lemma_count_step(s3, m, e0, e, used_upto(idx, t).len() as int);
    }
}

/// The weld bound: one refinement pass has at most as many vertices as the
/// input plus its distinct edges.
pub proof fn lemma_weld_bound(vs: Seq<Vertex>, idx: Seq<u32>)
    requires
        indices_valid(vs.len() as int, idx),
    ensures
        dedup(weld_order(vs, idx, (idx.len() / 3) as int)).len() <= vs.len()
            + distinct_edge_count(idx),
{
    let n = (idx.len() / 3) as int;
    lemma_weld_count(vs, idx, n);
    lemma_edges_finite(idx, n);
    vstd::set_lib::lemma_len_subset(split_upto(vs, idx, n), edges_upto(idx, n));
    vstd::set_lib::lemma_int_range(0, vs.len() as int);
    vstd::set_lib::lemma_len_subset(
        used_upto(idx, n),
        vstd::set_lib::set_int_range(0, vs.len() as int),
    );
}

/// A refinement has at most as many vertices as its input plus the input's
/// distinct edges: an edge that two triangles share is split once.
pub proof fn lemma_refinement_weld_bound(
    vs: Seq<Vertex>,
    idx: Seq<u32>,
    new_vs: Seq<Vertex>,
    new_idx: Seq<u32>,
)
    requires
        indices_valid(vs.len() as int, idx),
        is_refinement(vs, idx, new_vs, new_idx),
    ensures
        new_vs.len() <= vs.len() + distinct_edge_count(idx),
{
    lemma_weld_bound(vs, idx);
}

/// A refined index buffer is again whole triangles inside its vertex buffer.
pub proof fn lemma_refinement_indices_valid(
    vs: Seq<Vertex>,
    idx: Seq<u32>,
    new_vs: Seq<Vertex>,
    new_idx: Seq<u32>,
)
    requires
        indices_valid(vs.len() as int, idx),
        is_refinement(vs, idx, new_vs, new_idx),
    ensures
        indices_valid(new_vs.len() as int, new_idx),
{
    assert forall|j: int| 0 <= j < new_idx.len() implies (#[trigger] new_idx[j] as int)
        < new_vs.len() by {}
}

/// The positions that the welder meets all lie in any box that holds the
/// input positions.
proof fn lemma_weld_order_inside(vs: Seq<Vertex>, idx: Seq<u32>, b: BoundingBox, t: int)
    requires
        indices_valid(vs.len() as int, idx),
        0 <= t <= idx.len() / 3,
        forall|i: int| 0 <= i < vs.len() ==> b.contains(#[trigger] vs[i]),
    ensures
        forall|i: int|
            0 <= i < weld_order(vs, idx, t).len() ==> b.contains(#[trigger] weld_order(vs, idx, t)[i]),
    decreases t,
{
    if t > 0 {
        lemma_weld_order_inside(vs, idx, b, t - 1);
        let u = t - 1;
        let a = corner(vs, idx, u, 0);
        let bb = corner(vs, idx, u, 1);
        let c = corner(vs, idx, u, 2);
        assert(b.contains(vs[idx[3 * u] as int]));
        assert(b.contains(vs[idx[3 * u + 1] as int]));
        assert(b.contains(vs[idx[3 * u + 2] as int]));
        let (p, q, r) = split_corners(vs, idx, u);
        lemma_midpoint_inside(b, p, q);
        let prev = weld_order(vs, idx, u);
        let cur = weld_order(vs, idx, t);
        assert forall|i: int| 0 <= i < cur.len() implies b.contains(#[trigger] cur[i]) by {
            if i < prev.len() {
                assert(cur[i] == prev[i]);
            }
        }
    }
}

/// One refinement pass keeps every position inside any box that held the
/// input: corners stay and midpoints fall between them.
pub proof fn lemma_refinement_inside(
    vs: Seq<Vertex>,
    idx: Seq<u32>,
    new_vs: Seq<Vertex>,
    new_idx: Seq<u32>,
    b: BoundingBox,
)
    requires
        indices_valid(vs.len() as int, idx),
        is_refinement(vs, idx, new_vs, new_idx),
        forall|i: int| 0 <= i < vs.len() ==> b.contains(#[trigger] vs[i]),
    ensures
        forall|i: int| 0 <= i < new_vs.len() ==> b.contains(#[trigger] new_vs[i]),
{
    let order = weld_order(vs, idx, (idx.len() / 3) as int);
    lemma_weld_order_inside(vs, idx, b, (idx.len() / 3) as int);
    lemma_dedup_elements(order);
    assert forall|i: int| 0 <= i < new_vs.len() implies b.contains(#[trigger] new_vs[i]) by {
        assert(order.contains(new_vs[i]));
        let k = choose|k: int| 0 <= k < order.len() && order[k] == new_vs[i];
    }
}

/// Rotating the corners of a triangle keeps its signed area.
pub proof fn lemma_area2_rotate(a: Vertex, b: Vertex, c: Vertex)
    ensures
        area2(b, c, a) == area2(a, b, c),
{
    assert(area2(b, c, a) == area2(a, b, c)) by (nonlinear_arith);
}

/// Splitting at an exact midpoint halves the signed area of both parts.
pub proof fn lemma_split_halves(p: Vertex, q: Vertex, r: Vertex)
    requires
        even_xz(p),
        even_xz(q),
    ensures
        2 * area2(p, midpoint_of(p, q), r) == area2(p, q, r),
        2 * area2(midpoint_of(p, q), q, r) == area2(p, q, r),
{
    let m = midpoint_of(p, q);
    assert(2 * m.x == p.x + q.x);
    assert(2 * m.z == p.z + q.z);
    assert(2 * area2(p, m, r) == area2(p, q, r)) by (nonlinear_arith)
        requires
            2 * m.x == p.x + q.x,
            2 * m.z == p.z + q.z,
    ;
    assert(2 * area2(m, q, r) == area2(p, q, r)) by (nonlinear_arith)
        requires
            2 * m.x == p.x + q.x,
            2 * m.z == p.z + q.z,
    ;
}

/// Refining a mesh whose triangles all turn the same way, with positions on
/// even coordinates so that midpoints are exact, keeps them turning that way.
pub proof fn lemma_refinement_winding(
    vs: Seq<Vertex>,
    idx: Seq<u32>,
    new_vs: Seq<Vertex>,
    new_idx: Seq<u32>,
)
    requires
        indices_valid(vs.len() as int, idx),
        is_refinement(vs, idx, new_vs, new_idx),
        winding_positive(vs, idx),
        forall|i: int| 0 <= i < vs.len() ==> even_xz(#[trigger] vs[i]),
    ensures
        winding_positive(new_vs, new_idx),
{
    assert forall|t: int| 0 <= t < new_idx.len() / 3 implies #[trigger] tri_area2(
        new_vs,
        new_idx,
        t,
    ) > 0 by {
        let c = t / 2;
        let h = t % 2;
        vstd::arithmetic::div_mod::lemma_fundamental_div_mod_converse(3 * t, 6, c, 3 * h);
        vstd::arithmetic::div_mod::lemma_fundamental_div_mod_converse(3 * t + 1, 6, c, 3 * h + 1);
        vstd::arithmetic::div_mod::lemma_fundamental_div_mod_converse(3 * t + 2, 6, c, 3 * h + 2);
        assert(0 <= c < idx.len() / 3);
        assert(tri_area2(vs, idx, c) > 0);
        let a = corner(vs, idx, c, 0);
        let b = corner(vs, idx, c, 1);
        let cc = corner(vs, idx, c, 2);
        assert(even_xz(vs[idx[3 * c] as int]));
        assert(even_xz(vs[idx[3 * c + 1] as int]));
        assert(even_xz(vs[idx[3 * c + 2] as int]));
        lemma_area2_rotate(a, b, cc);
        lemma_area2_rotate(b, cc, a);
        let (p, q, r) = split_corners(vs, idx, c);
        assert(area2(p, q, r) > 0);
        lemma_split_halves(p, q, r);
        assert(new_vs[new_idx[3 * t] as int] == refined_corner(vs, idx, 3 * t));
        assert(new_vs[new_idx[3 * t + 1] as int] == refined_corner(vs, idx, 3 * t + 1));
        assert(new_vs[new_idx[3 * t + 2] as int] == refined_corner(vs, idx, 3 * t + 2));
    }
}

impl GeoClipMap {
    /// One pass of longest-edge bisection: each triangle is split in two at
    /// the midpoint of its longest edge, and midpoints that neighbouring
    /// triangles share are welded into one vertex. At most four vertices come
    /// from each triangle, so the triangle count is bounded to keep them
    /// addressable by `u32` indices.
    pub fn subdivide_half(vertices: &mut Vec<Vertex>, indices: &mut Vec<u32>)
        requires
            indices_valid(old(vertices)@.len() as int, old(indices)@),
            old(indices)@.len() <= 3_000_000_000,
        ensures
            is_refinement(old(vertices)@, old(indices)@, final(vertices)@, final(indices)@),
            final(vertices)@.len() <= old(vertices)@.len() + distinct_edge_count(old(indices)@),
            final(vertices)@.len() <= 4 * (old(indices)@.len() / 3),
    {
        let ghost vs = vertices@;
        let ghost idx = indices@;
        let ntri: usize = indices.len() / 3;
        let mut table = WeldTable::new();
        let mut new_indices: Vec<u32> = Vec::new();
        let mut t: usize = 0;
        while t < ntri
            invariant
                vertices@ == vs,
                indices@ == idx,
                indices_valid(vs.len() as int, idx),
                ntri == idx.len() / 3,
                idx.len() <= 3_000_000_000,
                t <= ntri,
                table.wf(),
                table@ == dedup(weld_order(vs, idx, t as int)),
                table@.len() <= 4 * t,
                new_indices@.len() == 6 * t,
                forall|j: int|
                    0 <= j < new_indices@.len() ==> {
                        &&& (#[trigger] new_indices@[j] as int) < table@.len()
                        &&& table@[new_indices@[j] as int] == refined_corner(vs, idx, j)
                    },
            decreases ntri - t,
        {
            let i0 = indices[3 * t];
            let i1 = indices[3 * t + 1];
            let i2 = indices[3 * t + 2];
            let a = vertices[i0 as usize];
            let b = vertices[i1 as usize];
            let c = vertices[i2 as usize];
            let length_ab = distance_squared(a, b);
            let length_bc = distance_squared(b, c);
            let length_ca = distance_squared(c, a);
            let ghost ti = t as int;
            assert(a == corner(vs, idx, ti, 0));
            assert(b == corner(vs, idx, ti, 1));
            assert(c == corner(vs, idx, ti, 2));

            let a_id = table.find_or_add(a);
            let b_id = table.find_or_add(b);
            let c_id = table.find_or_add(c);
            let ghost p: Vertex;
            let ghost q: Vertex;
            let m_id;
            if length_ab >= length_bc && length_ab >= length_ca {
                let m = midpoint(a, b);
                proof {
                    p = a;
                    q = b;
                }
                m_id = table.find_or_add(m);
                new_indices.push(a_id);
                new_indices.push(m_id);
                new_indices.push(c_id);
                new_indices.push(m_id);
                new_indices.push(b_id);
                new_indices.push(c_id);
            } else if length_bc >= length_ab && length_bc >= length_ca {
                let m = midpoint(b, c);
                proof {
                    p = b;
                    q = c;
                }
                m_id = table.find_or_add(m);
                new_indices.push(b_id);
                new_indices.push(m_id);
                new_indices.push(a_id);
                new_indices.push(m_id);
                new_indices.push(c_id);
                new_indices.push(a_id);
            } else {
                let m = midpoint(c, a);
                proof {
                    p = c;
                    q = a;
                }
                m_id = table.find_or_add(m);
                new_indices.push(c_id);
                new_indices.push(m_id);
                new_indices.push(b_id);
                new_indices.push(m_id);
                new_indices.push(a_id);
                new_indices.push(b_id);
            }
            proof {
                let m = midpoint_of(p, q);
                lemma_dedup_push(weld_order(vs, idx, ti), a);
                lemma_dedup_push(weld_order(vs, idx, ti).push(a), b);
                lemma_dedup_push(weld_order(vs, idx, ti).push(a).push(b), c);
                lemma_dedup_push(weld_order(vs, idx, ti).push(a).push(b).push(c), m);
                assert(split_corners(vs, idx, ti).0 == p);
                assert(split_corners(vs, idx, ti).1 == q);
                assert forall|j: int|
                    0 <= j < new_indices@.len() implies {
                        &&& (#[trigger] new_indices@[j] as int) < table@.len()
                        &&& table@[new_indices@[j] as int] == refined_corner(vs, idx, j)
                    } by {
                    if j >= 6 * ti {
                        assert(j / 6 == ti);
                    }
                }
            }
            t = t + 1;
        }
        proof {
            assert(idx.len() / 3 == ntri);
            lemma_weld_bound(vs, idx);
        }
        *vertices = table.into_vertices();
        *indices = new_indices;
    }
}

} // verus!
