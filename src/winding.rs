use vstd::arithmetic::div_mod::lemma_fundamental_div_mod_converse;
use vstd::prelude::*;

use crate::geometry::{area2, Vertex};
use crate::shapes::{
    lattice_point, lemma_cell_coords, lemma_split_pair_index, patch_index, patch_indices,
    patch_vertex, patch_vertices, trim_index, trim_indices, trim_vertices,
    cross_index, cross_indices, cross_vertex, cross_vertices, seam_index, seam_indices,
    seam_side, seam_vertex, seam_vertices, MAX_TILE_RESOLUTION,
};
use crate::subdivide::corner;

verus! {

/// Twice the signed XZ area of triangle `t`.
pub open spec fn tri_area2(vs: Seq<Vertex>, idx: Seq<u32>, t: int) -> int {
    area2(corner(vs, idx, t, 0), corner(vs, idx, t, 1), corner(vs, idx, t, 2))
}

/// Every triangle has positive signed XZ area.
pub open spec fn winding_positive(vs: Seq<Vertex>, idx: Seq<u32>) -> bool {
    forall|t: int| 0 <= t < idx.len() / 3 ==> #[trigger] tri_area2(vs, idx, t) > 0
}

/// Every triangle is flat in the XZ projection.
pub open spec fn winding_flat(vs: Seq<Vertex>, idx: Seq<u32>) -> bool {
    forall|t: int| 0 <= t < idx.len() / 3 ==> #[trigger] tri_area2(vs, idx, t) == 0
}

/// Every triangle has negative signed XZ area.
pub open spec fn winding_negative(vs: Seq<Vertex>, idx: Seq<u32>) -> bool {
    forall|t: int| 0 <= t < idx.len() / 3 ==> #[trigger] tri_area2(vs, idx, t) < 0
}

/// All triangles have signed XZ areas of one sign.
pub open spec fn winding_uniform(vs: Seq<Vertex>, idx: Seq<u32>) -> bool {
    winding_positive(vs, idx) || winding_flat(vs, idx) || winding_negative(vs, idx)
}

proof fn lemma_patch_corner(s: int, x: int, y: int)
    requires
        1 <= s,
        0 <= x <= s,
        0 <= y <= s,
    ensures
        patch_vertex(s, y * (s + 1) + x) == lattice_point(x, y),
{
    lemma_fundamental_div_mod_converse(y * (s + 1) + x, s + 1, y, x);
}

proof fn lemma_triangle_entries(t: int)
    requires
        t >= 0,
    ensures
        (3 * t) / 6 == t / 2 && (3 * t) % 6 == 3 * (t % 2),
        (3 * t + 1) / 6 == t / 2 && (3 * t + 1) % 6 == 3 * (t % 2) + 1,
        (3 * t + 2) / 6 == t / 2 && (3 * t + 2) % 6 == 3 * (t % 2) + 2,
{
    let c = t / 2;
    let h = t % 2;
    lemma_fundamental_div_mod_converse(3 * t, 6, c, 3 * h);
    lemma_fundamental_div_mod_converse(3 * t + 1, 6, c, 3 * h + 1);
    lemma_fundamental_div_mod_converse(3 * t + 2, 6, c, 3 * h + 2);
}

/// Twice the area of the two halves of the unit cell at `x`, `z`.
proof fn lemma_cell_halves(x: int, z: int)
    requires
        -21474 <= x < 21474,
        -21474 <= z < 21474,
    ensures
        area2(lattice_point(x, z), lattice_point(x + 1, z + 1), lattice_point(x, z + 1)) > 0,
        area2(lattice_point(x, z), lattice_point(x + 1, z), lattice_point(x + 1, z + 1)) > 0,
{
    let a = lattice_point(x, z);
    let b = lattice_point(x + 1, z + 1);
    let c = lattice_point(x, z + 1);
    let d = lattice_point(x + 1, z);
    assert(a.x == x * 100000 && a.z == z * 100000);
    assert(b.x == a.x + 100000 && b.z == a.z + 100000);
    assert(c.x == a.x && c.z == a.z + 100000);
    assert(d.x == a.x + 100000 && d.z == a.z);
    lemma_area2_of_offsets(a, b, c, 100000, 100000, 0, 100000);
    lemma_area2_of_offsets(a, d, b, 100000, 0, 100000, 100000);
}

/// The signed area through the corners' offsets from the first corner.
pub proof fn lemma_area2_of_offsets(a: Vertex, b: Vertex, c: Vertex, bx: int, bz: int, cx: int, cz: int)
    requires
        b.x - a.x == bx,
        b.z - a.z == bz,
        c.x - a.x == cx,
        c.z - a.z == cz,
    ensures
        area2(a, b, c) == bx * cz - bz * cx,
{
}

/// Both triangles of every lattice cell turn the same way.
pub proof fn lemma_patch_winding(s: int)
    requires
        1 <= s <= MAX_TILE_RESOLUTION,
    ensures
        winding_positive(patch_vertices(s), patch_indices(s)),
{
    let vs = patch_vertices(s);
    let idx = patch_indices(s);
    let w = s + 1;
    assert(6 * s * s == 6 * (s * s)) by (nonlinear_arith);
    assert forall|t: int| 0 <= t < idx.len() / 3 implies #[trigger] tri_area2(vs, idx, t) > 0 by {
        lemma_triangle_entries(t);
        let c = t / 2;
        assert(c < s * s);
        lemma_cell_coords(s, c);
        let x = c % s;
        let y = c / s;
        assert((y + 1) * w + x + 1 <= w * w - 1) by (nonlinear_arith)
            requires
                0 <= y < s,
                0 <= x < s,
                w == s + 1,
        ;
        assert(0 <= y * w + x) by (nonlinear_arith)
            requires
                0 <= y,
                0 <= x,
                w >= 1,
        ;
        assert((y + 1) * w == y * w + w) by (nonlinear_arith);
        assert(w * w <= 5369 * 5369) by (nonlinear_arith)
            requires
                1 <= w <= 5369,
        ;
        lemma_patch_corner(s, x, y);
        lemma_patch_corner(s, x + 1, y);
        lemma_patch_corner(s, x, y + 1);
        lemma_patch_corner(s, x + 1, y + 1);
        assert(idx[3 * t] as int == patch_index(s, 3 * t));
        assert(idx[3 * t + 1] as int == patch_index(s, 3 * t + 1));
        assert(idx[3 * t + 2] as int == patch_index(s, 3 * t + 2));
        lemma_cell_halves(x, y);
        if t % 2 == 0 {
            assert(corner(vs, idx, t, 0) == lattice_point(x, y));
            assert(corner(vs, idx, t, 1) == lattice_point(x + 1, y + 1));
            assert(corner(vs, idx, t, 2) == lattice_point(x, y + 1));
        } else {
            assert(corner(vs, idx, t, 0) == lattice_point(x, y));
            assert(corner(vs, idx, t, 1) == lattice_point(x + 1, y));
            assert(corner(vs, idx, t, 2) == lattice_point(x + 1, y + 1));
        }
    }
}

/// The signed area of a triangle of lattice points, in whole cells.
pub proof fn lemma_lattice_area(x0: int, z0: int, x1: int, z1: int, x2: int, z2: int)
    requires
        -21474 <= x0 <= 21474,
        -21474 <= z0 <= 21474,
        -21474 <= x1 <= 21474,
        -21474 <= z1 <= 21474,
        -21474 <= x2 <= 21474,
        -21474 <= z2 <= 21474,
    ensures
        area2(lattice_point(x0, z0), lattice_point(x1, z1), lattice_point(x2, z2)) == 100000
            * 100000 * ((x1 - x0) * (z2 - z0) - (z1 - z0) * (x2 - x0)),
{
    let a = lattice_point(x0, z0);
    let b = lattice_point(x1, z1);
    let c = lattice_point(x2, z2);
    lemma_area2_of_offsets(
        a,
        b,
        c,
        (x1 - x0) * 100000,
        (z1 - z0) * 100000,
        (x2 - x0) * 100000,
        (z2 - z0) * 100000,
    );
    assert((x1 - x0) * 100000 * ((z2 - z0) * 100000) - (z1 - z0) * 100000 * ((x2 - x0) * 100000)
        == 100000 * 100000 * ((x1 - x0) * (z2 - z0) - (z1 - z0) * (x2 - x0))) by (nonlinear_arith);
}

/// Every triangle of the trim strip turns the same way as the lattice cells.
pub proof fn lemma_trim_winding(s: int)
    requires
        1 <= s <= MAX_TILE_RESOLUTION,
    ensures
        winding_positive(trim_vertices(s), trim_indices(s)),
{
    let vs = trim_vertices(s);
    let idx = trim_indices(s);
    let w = s + 1;
    assert forall|t: int| 0 <= t < idx.len() / 3 implies #[trigger] tri_area2(vs, idx, t) > 0 by {
        lemma_triangle_entries(t);
        let q = t / 2;
        assert(q < 4 * s);
        vstd::arithmetic::div_mod::lemma_fundamental_div_mod(q, s);
        let arm = q / s;
        let jj = q % s;
        assert(0 <= arm < 4) by (nonlinear_arith)
            requires
                arm * s + jj == q,
                0 <= jj < s,
                0 <= q < 4 * s,
                s >= 1,
        ;
        assert(arm * s == s * arm) by (nonlinear_arith);
        let base = arm * (2 * w) + 2 * jj;
        assert(base == (arm + q) * 2) by (nonlinear_arith)
            requires
                base == arm * (2 * w) + 2 * jj,
                w == s + 1,
                q == arm * s + jj,
        ;
        lemma_split_pair_index(s, arm, jj, 0);
        lemma_split_pair_index(s, arm, jj, 1);
        lemma_split_pair_index(s, arm, jj + 1, 0);
        lemma_split_pair_index(s, arm, jj + 1, 1);
        assert(arm * (2 * w) + 2 * (jj + 1) == base + 2);
        assert(idx[3 * t] as int == trim_index(s, 3 * t));
        assert(idx[3 * t + 1] as int == trim_index(s, 3 * t + 1));
        assert(idx[3 * t + 2] as int == trim_index(s, 3 * t + 2));
        let bl = vs[base];
        let br = vs[base + 1];
        let tl = vs[base + 2];
        let tr = vs[base + 3];
        if arm == 0 {
            lemma_lattice_area(s + jj + 1, 1, s + jj + 1, 0, s + jj + 2, 1);
            lemma_lattice_area(s + jj + 1, 0, s + jj + 2, 0, s + jj + 2, 1);
        } else if arm == 1 {
            lemma_lattice_area(0, s + jj + 1, 1, s + jj + 1, 1, s + jj + 2);
            lemma_lattice_area(0, s + jj + 1, 1, s + jj + 2, 0, s + jj + 2);
        } else if arm == 2 {
            lemma_lattice_area(-s + jj, 1, -s + jj, 0, -s + jj + 1, 1);
            lemma_lattice_area(-s + jj, 0, -s + jj + 1, 0, -s + jj + 1, 1);
        } else {
            lemma_lattice_area(0, -s + jj, 1, -s + jj, 1, -s + jj + 1);
            lemma_lattice_area(0, -s + jj, 1, -s + jj + 1, 0, -s + jj + 1);
        }
        if arm % 2 == 0 {
            if t % 2 == 0 {
                assert(corner(vs, idx, t, 0) == br && corner(vs, idx, t, 1) == bl && corner(
                    vs,
                    idx,
                    t,
                    2,
                ) == tr);
            } else {
                assert(corner(vs, idx, t, 0) == bl && corner(vs, idx, t, 1) == tl && corner(
                    vs,
                    idx,
                    t,
                    2,
                ) == tr);
            }
        } else {
            if t % 2 == 0 {
                assert(corner(vs, idx, t, 0) == br && corner(vs, idx, t, 1) == bl && corner(
                    vs,
                    idx,
                    t,
                    2,
                ) == tl);
            } else {
                assert(corner(vs, idx, t, 0) == br && corner(vs, idx, t, 1) == tl && corner(
                    vs,
                    idx,
                    t,
                    2,
                ) == tr);
            }
        }
    }
}

proof fn lemma_cross_pair(s: int, bar: int, j: int, side: int)
    requires
        s >= 1,
        0 <= bar < 2,
        0 <= j < 2 * (s + 1),
        0 <= side < 2,
    ensures
        cross_vertex(s, bar * (4 * (s + 1)) + 2 * j + side) == if bar == 0 {
            lattice_point(j - s, side)
        } else {
            lattice_point(side, j - s)
        },
{
    let h = 4 * (s + 1);
    let i = bar * h + 2 * j + side;
    lemma_fundamental_div_mod_converse(i, h, bar, 2 * j + side);
    lemma_fundamental_div_mod_converse(2 * j + side, 2, j, side);
    assert(bar * h + 2 * j + side == (bar * (2 * (s + 1)) + j) * 2 + side) by (nonlinear_arith)
        requires
            h == 4 * (s + 1),
    ;
    lemma_fundamental_div_mod_converse(i, 2, bar * (2 * (s + 1)) + j, side);
}

/// Triangle `t` of the cross turns the same way as the lattice cells.
#[verifier::rlimit(40)]
proof fn lemma_cross_triangle(s: int, t: int)
    requires
        1 <= s <= MAX_TILE_RESOLUTION,
        0 <= t < cross_indices(s).len() / 3,
    ensures
        tri_area2(cross_vertices(s), cross_indices(s), t) > 0,
{
    let vs = cross_vertices(s);
    let idx = cross_indices(s);
    let w = s + 1;
    let across = 6 * (2 * s + 1);
    assert(idx[3 * t] as int == cross_index(s, 3 * t));
    assert(idx[3 * t + 1] as int == cross_index(s, 3 * t + 1));
    assert(idx[3 * t + 2] as int == cross_index(s, 3 * t + 2));
    if t < 2 * (2 * s + 1) {
        lemma_triangle_entries(t);
        let q = t / 2;
        lemma_cross_pair(s, 0, q, 0);
        lemma_cross_pair(s, 0, q, 1);
        lemma_cross_pair(s, 0, q + 1, 0);
        lemma_cross_pair(s, 0, q + 1, 1);
        lemma_lattice_area(q - s, 1, q - s, 0, q + 1 - s, 1);
        lemma_lattice_area(q - s, 0, q + 1 - s, 0, q + 1 - s, 1);
        let bl = vs[2 * q];
        let br = vs[2 * q + 1];
        let tl = vs[2 * q + 2];
        let tr = vs[2 * q + 3];
        assert(0 * (4 * (s + 1)) + 2 * q + 0 == 2 * q);
        assert(0 * (4 * (s + 1)) + 2 * (q + 1) + 1 == 2 * q + 3);
        assert(bl == lattice_point(q - s, 0));
        assert(br == lattice_point(q - s, 1));
        assert(tl == lattice_point(q + 1 - s, 0));
        assert(tr == lattice_point(q + 1 - s, 1));
        if t % 2 == 0 {
            assert(corner(vs, idx, t, 0) == br);
            assert(corner(vs, idx, t, 1) == bl);
            assert(corner(vs, idx, t, 2) == tr);
        } else {
            assert(corner(vs, idx, t, 0) == bl);
            assert(corner(vs, idx, t, 1) == tl);
            assert(corner(vs, idx, t, 2) == tr);
        }
    } else {
        let u = t - 2 * (2 * s + 1);
        lemma_triangle_entries(u);
        assert(3 * t - across == 3 * u);
        assert(3 * t + 1 - across == 3 * u + 1);
        assert(3 * t + 2 - across == 3 * u + 2);
        let r = u / 2;
        let q = if r < s {
            r
        } else {
            r + 1
        };
        let base = 4 * w + 2 * q;
        assert(1 * (4 * w) + 2 * q == base);
        assert(1 * (4 * w) + 2 * (q + 1) == base + 2);
        lemma_cross_pair(s, 1, q, 0);
        lemma_cross_pair(s, 1, q, 1);
        lemma_cross_pair(s, 1, q + 1, 0);
        lemma_cross_pair(s, 1, q + 1, 1);
        lemma_lattice_area(1, q - s, 1, q + 1 - s, 0, q - s);
        lemma_lattice_area(0, q - s, 1, q + 1 - s, 0, q + 1 - s);
        let bl = vs[base];
        let br = vs[base + 1];
        let tl = vs[base + 2];
        let tr = vs[base + 3];
        assert(bl == lattice_point(0, q - s));
        assert(br == lattice_point(1, q - s));
        assert(tl == lattice_point(0, q + 1 - s));
        assert(tr == lattice_point(1, q + 1 - s));
        if u % 2 == 0 {
            assert(corner(vs, idx, t, 0) == br);
            assert(corner(vs, idx, t, 1) == tr);
            assert(corner(vs, idx, t, 2) == bl);
        } else {
            assert(corner(vs, idx, t, 0) == bl);
            assert(corner(vs, idx, t, 1) == tr);
            assert(corner(vs, idx, t, 2) == tl);
        }
    }
}

/// Every triangle of the cross turns the same way as the lattice cells.
pub proof fn lemma_cross_winding(s: int)
    requires
        1 <= s <= MAX_TILE_RESOLUTION,
    ensures
        winding_positive(cross_vertices(s), cross_indices(s)),
{
    let vs = cross_vertices(s);
    let idx = cross_indices(s);
    assert forall|t: int| 0 <= t < idx.len() / 3 implies #[trigger] tri_area2(vs, idx, t) > 0 by {
        lemma_cross_triangle(s, t);
    }
}

/// Three lattice points on one grid line span no area.
proof fn lemma_lattice_line(x0: int, z0: int, x1: int, z1: int, x2: int, z2: int)
    requires
        -21474 <= x0 <= 21474,
        -21474 <= z0 <= 21474,
        -21474 <= x1 <= 21474,
        -21474 <= z1 <= 21474,
        -21474 <= x2 <= 21474,
        -21474 <= z2 <= 21474,
        (x0 == x1 && x1 == x2) || (z0 == z1 && z1 == z2),
    ensures
        area2(lattice_point(x0, z0), lattice_point(x1, z1), lattice_point(x2, z2)) == 0,
{
    lemma_lattice_area(x0, z0, x1, z1, x2, z2);
    assert((x1 - x0) * (z2 - z0) - (z1 - z0) * (x2 - x0) == 0) by (nonlinear_arith)
        requires
            (x0 == x1 && x1 == x2) || (z0 == z1 && z1 == z2),
    ;
}

proof fn lemma_seam_vertex_at(s: int, side: int, k: int)
    requires
        1 <= s <= MAX_TILE_RESOLUTION,
        0 <= side < 4,
        0 <= k < seam_side(s),
    ensures
        ({
            let n = seam_side(s);
            seam_vertex(s, side * n + k) == if side == 0 {
                lattice_point(k, 0)
            } else if side == 1 {
                lattice_point(n, k)
            } else if side == 2 {
                lattice_point(n - k, n)
            } else {
                lattice_point(0, n - k)
            }
        }),
{
    lemma_fundamental_div_mod_converse(side * seam_side(s) + k, seam_side(s), side, k);
}

/// Triangle `t` of the seam is flat in the XZ projection.
#[verifier::rlimit(40)]
proof fn lemma_seam_triangle(s: int, t: int)
    requires
        1 <= s <= MAX_TILE_RESOLUTION,
        0 <= t < seam_indices(s).len() / 3,
    ensures
        tri_area2(seam_vertices(s), seam_indices(s), t) == 0,
{
    let vs = seam_vertices(s);
    let idx = seam_indices(s);
    let n = seam_side(s);
    lemma_fundamental_div_mod_converse(3 * t, 3, t, 0);
    lemma_fundamental_div_mod_converse(3 * t + 1, 3, t, 1);
    lemma_fundamental_div_mod_converse(3 * t + 2, 3, t, 2);
    let i = 2 * t;
    vstd::arithmetic::div_mod::lemma_fundamental_div_mod(i, n);
    let side = i / n;
    let k = i % n;
    assert(n * side == side * n) by (nonlinear_arith);
    assert(i == side * n + k);
    assert(side * n == 2 * (side * (2 * s + 1))) by (nonlinear_arith)
        requires
            n == 4 * s + 2,
    ;
    assert(0 <= side < 4) by (nonlinear_arith)
        requires
            side * n + k == i,
            0 <= k < n,
            0 <= i < 4 * n,
            n >= 1,
    ;
    assert(k % 2 == 0);
    assert(k + 2 <= n);
    let a = vs[i + 1];
    let b = vs[i];
    let c = if t == 2 * n - 1 {
        vs[0]
    } else {
        vs[i + 2]
    };
    assert(idx[3 * t] as int == seam_index(s, 3 * t));
    assert(idx[3 * t + 1] as int == seam_index(s, 3 * t + 1));
    assert(idx[3 * t + 2] as int == seam_index(s, 3 * t + 2));
    assert(corner(vs, idx, t, 0) == a);
    assert(corner(vs, idx, t, 1) == b);
    assert(corner(vs, idx, t, 2) == c);
    lemma_seam_vertex_at(s, side, k);
    lemma_seam_vertex_at(s, side, k + 1);
    assert(i + 1 == side * n + (k + 1));
    let third = if side == 0 {
        lattice_point(k + 2, 0)
    } else if side == 1 {
        lattice_point(n, k + 2)
    } else if side == 2 {
        lattice_point(n - k - 2, n)
    } else {
        lattice_point(0, n - k - 2)
    };
    if k + 2 < n {
        lemma_seam_vertex_at(s, side, k + 2);
        assert(i + 2 == side * n + (k + 2));
        assert(c == third);
    } else if side < 3 {
        assert(i + 2 == (side + 1) * n + 0) by (nonlinear_arith)
            requires
                i == side * n + k,
                k + 2 == n,
        ;
        lemma_seam_vertex_at(s, side + 1, 0);
        assert(c == third);
    } else {
        lemma_seam_vertex_at(s, 0, 0);
        assert(0 * n + 0 == 0);
        assert(c == third);
    }
    if side == 0 {
        lemma_lattice_line(k + 1, 0, k, 0, k + 2, 0);
    } else if side == 1 {
        lemma_lattice_line(n, k + 1, n, k, n, k + 2);
    } else if side == 2 {
        lemma_lattice_line(n - k - 1, n, n - k, n, n - k - 2, n);
    } else {
        lemma_lattice_line(0, n - k - 1, 0, n - k, 0, n - k - 2);
    }
}

/// The seam's triangles all lie along its boundary: each is flat in the XZ
/// projection, a skirt that only height displacement opens up.
pub proof fn lemma_seam_flat(s: int)
    requires
        1 <= s <= MAX_TILE_RESOLUTION,
    ensures
        winding_flat(seam_vertices(s), seam_indices(s)),
{
    let vs = seam_vertices(s);
    let idx = seam_indices(s);
    assert forall|t: int| 0 <= t < idx.len() / 3 implies #[trigger] tri_area2(vs, idx, t) == 0 by {
        lemma_seam_triangle(s, t);
    }
}

} // verus!
