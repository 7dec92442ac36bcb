use vstd::arithmetic::div_mod::{lemma_fundamental_div_mod, lemma_fundamental_div_mod_converse};
use vstd::prelude::*;

use crate::clipmap::GeoClipMap;
use crate::geometry::{even_xz, BoundingBox, Vertex, UNITS_PER_CELL};
use crate::subdivide::indices_valid;

verus! {

/// The largest tile resolution whose outermost ring (the seam, `4 * size + 2`
/// cells across) still fits the `i32` fixed-point coordinates.
pub const MAX_TILE_RESOLUTION: u32 = 5368;

/// The lattice point at cell coordinates `x`, `z` on the ground plane.
pub open spec fn lattice_point(x: int, z: int) -> Vertex {
    Vertex { x: (x * UNITS_PER_CELL) as i32, y: 0, z: (z * UNITS_PER_CELL) as i32 }
}

/// Vertex `i` of the patch lattice of resolution `s`, in row-major order.
pub open spec fn patch_vertex(s: int, i: int) -> Vertex {
    lattice_point(i % (s + 1), i / (s + 1))
}

/// The `(s + 1)²` vertices of the patch lattice.
pub open spec fn patch_vertices(s: int) -> Seq<Vertex> {
    Seq::new(((s + 1) * (s + 1)) as nat, |i: int| patch_vertex(s, i))
}

/// Entry `j` of the patch index buffer: cell `j / 6` in row-major order, split
/// along the diagonal from its first to its last corner into two triangles.
pub open spec fn patch_index(s: int, j: int) -> int {
    let c = j / 6;
    let x = c % s;
    let y = c / s;
    let w = s + 1;
    let k = j % 6;
    if k == 0 || k == 3 {
        y * w + x
    } else if k == 1 || k == 5 {
        (y + 1) * w + x + 1
    } else if k == 2 {
        (y + 1) * w + x
    } else {
        y * w + x + 1
    }
}

/// The `6 s²` entries of the patch index buffer.
pub open spec fn patch_indices(s: int) -> Seq<u32> {
    Seq::new((6 * s * s) as nat, |j: int| patch_index(s, j) as u32)
}

/// The lattice point at cell coordinates `x`, `z`.
pub fn lattice_vertex(x: i32, z: i32) -> (v: Vertex)
    requires
        -21474 <= x <= 21474,
        -21474 <= z <= 21474,
    ensures
        v == lattice_point(x as int, z as int),
{
    Vertex { x: x * UNITS_PER_CELL, y: 0, z: z * UNITS_PER_CELL }
}

impl GeoClipMap {
    /// Row-major address of the lattice point `x`, `y` in rows of `resolution`.
    pub fn patch_2d(x: u32, y: u32, resolution: u32) -> (r: u32)
        requires
            y * resolution + x <= u32::MAX,
        ensures
            r == y * resolution + x,
    {
        y * resolution + x
    }
}

/// The base patch lattice: `(size + 1)²` points at whole cell coordinates and
/// two triangles per cell.
pub fn build_patch(size: u32) -> (r: (Vec<Vertex>, Vec<u32>))
    requires
        1 <= size <= MAX_TILE_RESOLUTION,
    ensures
        r.0@ == patch_vertices(size as int),
        r.1@ == patch_indices(size as int),
{
    let w: u32 = size + 1;
    let ghost s = size as int;
    let mut vertices: Vec<Vertex> = Vec::new();
    let mut y: u32 = 0;
    while y < w
        invariant
            w == size + 1,
            s == size,
            1 <= size <= MAX_TILE_RESOLUTION,
            y <= w,
            vertices@.len() == y * w,
            forall|i: int| 0 <= i < vertices@.len() ==> #[trigger] vertices@[i] == patch_vertex(s, i),
        decreases w - y,
    {
        let mut x: u32 = 0;
        while x < w
            invariant
                w == size + 1,
                s == size,
                1 <= size <= MAX_TILE_RESOLUTION,
                y < w,
                x <= w,
                vertices@.len() == y * w + x,
                forall|i: int|
                    0 <= i < vertices@.len() ==> #[trigger] vertices@[i] == patch_vertex(s, i),
            decreases w - x,
        {
            proof {
                lemma_fundamental_div_mod_converse(y * w + x, w as int, y as int, x as int);
            }
            vertices.push(lattice_vertex(x as i32, y as i32));
            x = x + 1;
        }
        proof {
            assert(y * w + w == (y + 1) * w) by (nonlinear_arith);
        }
        y = y + 1;
    }
    let mut indices: Vec<u32> = Vec::new();
    let mut y: u32 = 0;
    while y < size
        invariant
            w == size + 1,
            s == size,
            1 <= size <= MAX_TILE_RESOLUTION,
            y <= size,
            indices@.len() == 6 * (y * s),
            forall|j: int|
                0 <= j < indices@.len() ==> #[trigger] indices@[j] == patch_index(s, j) as u32,
        decreases size - y,
    {
        let mut x: u32 = 0;
        while x < size
            invariant
                w == size + 1,
                s == size,
                1 <= size <= MAX_TILE_RESOLUTION,
                y < size,
                x <= size,
                indices@.len() == 6 * (y * s + x),
                forall|j: int|
                    0 <= j < indices@.len() ==> #[trigger] indices@[j] == patch_index(s, j) as u32,
            decreases size - x,
        {
            let ghost c = y * s + x;
            proof {
                assert((y + 1) * w + x + 1 <= w * w - 1) by (nonlinear_arith)
                    requires
                        y < size,
                        x < size,
                        w == size + 1,
                ;
                assert(w * w <= 5369 * 5369) by (nonlinear_arith)
                    requires
                        w <= 5369,
                ;
                assert((y + 1) * w == y * w + w) by (nonlinear_arith);
                lemma_fundamental_div_mod_converse(c, s, y as int, x as int);
                lemma_fundamental_div_mod_converse(6 * c, 6, c, 0);
                lemma_fundamental_div_mod_converse(6 * c + 1, 6, c, 1);
                lemma_fundamental_div_mod_converse(6 * c + 2, 6, c, 2);
                lemma_fundamental_div_mod_converse(6 * c + 3, 6, c, 3);
                lemma_fundamental_div_mod_converse(6 * c + 4, 6, c, 4);
                lemma_fundamental_div_mod_converse(6 * c + 5, 6, c, 5);
            }
            let p00 = GeoClipMap::patch_2d(x, y, w);
            let p11 = GeoClipMap::patch_2d(x + 1, y + 1, w);
            let p01 = GeoClipMap::patch_2d(x, y + 1, w);
            let p10 = GeoClipMap::patch_2d(x + 1, y, w);
            indices.push(p00);
            indices.push(p11);
            indices.push(p01);
            indices.push(p00);
            indices.push(p10);
            indices.push(p11);
            x = x + 1;
        }
        proof {
            assert(6 * (y * s + s) == 6 * ((y + 1) * s)) by (nonlinear_arith);
        }
        y = y + 1;
    }
    proof {
        assert(vertices@ =~= patch_vertices(s));
        assert(6 * (s * s) == 6 * s * s) by (nonlinear_arith);
        assert(indices@ =~= patch_indices(s));
    }
    (vertices, indices)
}

/// Vertex `i` of the trim strip of resolution `s`: four arms of `s + 1`
/// vertex pairs, each pair one cell wide.
pub open spec fn trim_vertex(s: int, i: int) -> Vertex {
    let arm = i / (2 * (s + 1));
    let j = (i % (2 * (s + 1))) / 2;
    let side = i % 2;
    if arm == 0 {
        lattice_point(s + j + 1, side)
    } else if arm == 1 {
        lattice_point(1 - side, s + j + 1)
    } else if arm == 2 {
        lattice_point(-s + j, side)
    } else {
        lattice_point(1 - side, -s + j)
    }
}

/// The `8 (s + 1)` vertices of the trim strip.
pub open spec fn trim_vertices(s: int) -> Seq<Vertex> {
    Seq::new((8 * (s + 1)) as nat, |i: int| trim_vertex(s, i))
}

/// Entry `n` of the trim index buffer: quad `n / 6`, whose arm decides the
/// order of its two triangles.
pub open spec fn trim_index(s: int, n: int) -> int {
    let q = n / 6;
    let arm = q / s;
    let bl = (arm + q) * 2;
    let k = n % 6;
    if arm % 2 == 0 {
        if k == 0 {
            bl + 1
        } else if k == 1 || k == 3 {
            bl
        } else if k == 4 {
            bl + 2
        } else {
            bl + 3
        }
    } else {
        if k == 0 || k == 3 {
            bl + 1
        } else if k == 1 {
            bl
        } else if k == 2 || k == 4 {
            bl + 2
        } else {
            bl + 3
        }
    }
}

/// The `24 s` entries of the trim index buffer.
pub open spec fn trim_indices(s: int) -> Seq<u32> {
    Seq::new((24 * s) as nat, |n: int| trim_index(s, n) as u32)
}

pub(crate) proof fn lemma_split_pair_index(s: int, arm: int, j: int, side: int)
    requires
        s >= 1,
        0 <= arm < 4,
        0 <= j <= s,
        0 <= side < 2,
    ensures
        ({
            let i = arm * (2 * (s + 1)) + 2 * j + side;
            &&& i / (2 * (s + 1)) == arm
            &&& (i % (2 * (s + 1))) / 2 == j
            &&& i % 2 == side
        }),
{
    let i = arm * (2 * (s + 1)) + 2 * j + side;
    lemma_fundamental_div_mod_converse(i, 2 * (s + 1), arm, 2 * j + side);
    lemma_fundamental_div_mod_converse(2 * j + side, 2, j, side);
    assert(arm * (2 * (s + 1)) + 2 * j + side == (arm * (s + 1) + j) * 2 + side) by (nonlinear_arith);
    lemma_fundamental_div_mod_converse(i, 2, arm * (s + 1) + j, side);
}

/// The trim strip: an L-shaped band of four arms, with mirrored triangle
/// order on alternate arms so that every triangle faces the same way.
pub fn build_trim(size: u32) -> (r: (Vec<Vertex>, Vec<u32>))
    requires
        1 <= size <= MAX_TILE_RESOLUTION,
    ensures
        r.0@ == trim_vertices(size as int),
        r.1@ == trim_indices(size as int),
{
    let w: u32 = size + 1;
    let o: i32 = size as i32;
    let ghost s = size as int;
    let mut vertices: Vec<Vertex> = Vec::new();
    let mut arm: u32 = 0;
    while arm < 4
        invariant
            w == size + 1,
            s == size,
            o == s,
            1 <= size <= MAX_TILE_RESOLUTION,
            arm <= 4,
            vertices@.len() == arm * (2 * w),
            forall|i: int| 0 <= i < vertices@.len() ==> #[trigger] vertices@[i] == trim_vertex(s, i),
        decreases 4 - arm,
    {
        let mut j: u32 = 0;
        while j < w
            invariant
                w == size + 1,
                s == size,
                o == s,
                1 <= size <= MAX_TILE_RESOLUTION,
                arm < 4,
                j <= w,
                vertices@.len() == arm * (2 * w) + 2 * j,
                forall|i: int|
                    0 <= i < vertices@.len() ==> #[trigger] vertices@[i] == trim_vertex(s, i),
            decreases w - j,
        {
            proof {
                lemma_split_pair_index(s, arm as int, j as int, 0);
                lemma_split_pair_index(s, arm as int, j as int, 1);
            }
            let ji: i32 = j as i32;
            if arm == 0 {
                vertices.push(lattice_vertex(o + ji + 1, 0));
                vertices.push(lattice_vertex(o + ji + 1, 1));
            } else if arm == 1 {
                vertices.push(lattice_vertex(1, o + ji + 1));
                vertices.push(lattice_vertex(0, o + ji + 1));
            } else if arm == 2 {
                vertices.push(lattice_vertex(-o + ji, 0));
                vertices.push(lattice_vertex(-o + ji, 1));
            } else {
                vertices.push(lattice_vertex(1, -o + ji));
                vertices.push(lattice_vertex(0, -o + ji));
            }
            j = j + 1;
        }
        proof {
            assert(arm * (2 * w) + 2 * w == (arm + 1) * (2 * w)) by (nonlinear_arith);
        }
        arm = arm + 1;
    }
    let mut indices: Vec<u32> = Vec::new();
    let mut q: u32 = 0;
    while q < size * 4
        invariant
            s == size,
            1 <= size <= MAX_TILE_RESOLUTION,
            q <= size * 4,
            indices@.len() == 6 * q,
            forall|n: int|
                0 <= n < indices@.len() ==> #[trigger] indices@[n] == trim_index(s, n) as u32,
        decreases size * 4 - q,
    {
        let arm: u32 = q / size;
        proof {
            lemma_fundamental_div_mod_converse(6 * q, 6, q as int, 0);
            lemma_fundamental_div_mod_converse(6 * q + 1, 6, q as int, 1);
            lemma_fundamental_div_mod_converse(6 * q + 2, 6, q as int, 2);
            lemma_fundamental_div_mod_converse(6 * q + 3, 6, q as int, 3);
            lemma_fundamental_div_mod_converse(6 * q + 4, 6, q as int, 4);
            lemma_fundamental_div_mod_converse(6 * q + 5, 6, q as int, 5);
            assert(arm <= 4) by (nonlinear_arith)
                requires
                    arm == q / size,
                    q < size * 4,
                    size >= 1,
            ;
        }
        let bl: u32 = (arm + q) * 2;
        let br: u32 = bl + 1;
        let tl: u32 = bl + 2;
        let tr: u32 = bl + 3;
        if arm % 2 == 0 {
            indices.push(br);
            indices.push(bl);
            indices.push(tr);
            indices.push(bl);
            indices.push(tl);
            indices.push(tr);
        } else {
            indices.push(br);
            indices.push(bl);
            indices.push(tl);
            indices.push(br);
            indices.push(tl);
            indices.push(tr);
        }
        q = q + 1;
    }
    proof {
        assert(vertices@ =~= trim_vertices(s));
        assert(indices@ =~= trim_indices(s));
    }
    (vertices, indices)
}

/// Vertex `i` of the cross of resolution `s`: a row of `2 (s + 1)` vertex
/// pairs along X, then one along Z, both through the origin cell.
pub open spec fn cross_vertex(s: int, i: int) -> Vertex {
    let half = 4 * (s + 1);
    let bar = i / half;
    let j = (i % half) / 2;
    let side = i % 2;
    if bar == 0 {
        lattice_point(j - s, side)
    } else {
        lattice_point(side, j - s)
    }
}

/// The `8 (s + 1)` vertices of the cross.
pub open spec fn cross_vertices(s: int) -> Seq<Vertex> {
    Seq::new((8 * (s + 1)) as nat, |i: int| cross_vertex(s, i))
}

/// Entry `n` of the cross index buffer: the `2 s + 1` quads of the X bar,
/// then those of the Z bar without the centre quad, which the X bar covers.
pub open spec fn cross_index(s: int, n: int) -> int {
    let across = 6 * (2 * s + 1);
    if n < across {
        let bl = 2 * (n / 6);
        let k = n % 6;
        if k == 0 {
            bl + 1
        } else if k == 1 || k == 3 {
            bl
        } else if k == 4 {
            bl + 2
        } else {
            bl + 3
        }
    } else {
        let r = (n - across) / 6;
        let q = if r < s {
            r
        } else {
            r + 1
        };
        let bl = 4 * (s + 1) + 2 * q;
        let k = (n - across) % 6;
        if k == 0 {
            bl + 1
        } else if k == 1 || k == 4 {
            bl + 3
        } else if k == 2 || k == 3 {
            bl
        } else {
            bl + 2
        }
    }
}

/// The `24 s + 6` entries of the cross index buffer.
pub open spec fn cross_indices(s: int) -> Seq<u32> {
    Seq::new((24 * s + 6) as nat, |n: int| cross_index(s, n) as u32)
}

proof fn lemma_quad_entries(base: int, q: int)
    requires
        q >= 0,
        base >= 0,
    ensures
        forall|k: int|
            0 <= k < 6 ==> (#[trigger] (base + 6 * q + k) - base) / 6 == q && (base + 6 * q + k
                - base) % 6 == k,
{
    assert forall|k: int| 0 <= k < 6 implies (#[trigger] (base + 6 * q + k) - base) / 6 == q && (
    base + 6 * q + k - base) % 6 == k by {
        lemma_fundamental_div_mod_converse(6 * q + k, 6, q, k);
    }
}

/// The cross: two perpendicular double-width bars through the origin cell,
/// with that cell triangulated once.
pub fn build_cross(size: u32) -> (r: (Vec<Vertex>, Vec<u32>))
    requires
        1 <= size <= MAX_TILE_RESOLUTION,
    ensures
        r.0@ == cross_vertices(size as int),
        r.1@ == cross_indices(size as int),
{
    let w: u32 = size + 1;
    let o: i32 = size as i32;
    let ghost s = size as int;
    let mut vertices: Vec<Vertex> = Vec::new();
    let mut bar: u32 = 0;
    while bar < 2
        invariant
            w == size + 1,
            s == size,
            o == s,
            1 <= size <= MAX_TILE_RESOLUTION,
            bar <= 2,
            vertices@.len() == bar * (4 * w),
            forall|i: int|
                0 <= i < vertices@.len() ==> #[trigger] vertices@[i] == cross_vertex(s, i),
        decreases 2 - bar,
    {
        let mut j: u32 = 0;
        while j < 2 * w
            invariant
                w == size + 1,
                s == size,
                o == s,
                1 <= size <= MAX_TILE_RESOLUTION,
                bar < 2,
                j <= 2 * w,
                vertices@.len() == bar * (4 * w) + 2 * j,
                forall|i: int|
                    0 <= i < vertices@.len() ==> #[trigger] vertices@[i] == cross_vertex(s, i),
            decreases 2 * w - j,
        {
            proof {
                let h = 4 * (s + 1);
                lemma_fundamental_div_mod_converse(bar * h + 2 * j, h, bar as int, 2 * j);
                lemma_fundamental_div_mod_converse(bar * h + 2 * j + 1, h, bar as int, 2 * j + 1);
                lemma_fundamental_div_mod_converse(2 * j, 2, j as int, 0);
                lemma_fundamental_div_mod_converse(2 * j + 1, 2, j as int, 1);
                assert(bar * h + 2 * j == (bar * (2 * (s + 1)) + j) * 2) by (nonlinear_arith)
                    requires
                        h == 4 * (s + 1),
                ;
                lemma_fundamental_div_mod_converse(bar * h + 2 * j, 2, bar * (2 * (s + 1)) + j, 0);
                lemma_fundamental_div_mod_converse(
                    bar * h + 2 * j + 1,
                    2,
                    bar * (2 * (s + 1)) + j,
                    1,
                );
            }
            let d: i32 = j as i32 - o;
            if bar == 0 {
                vertices.push(lattice_vertex(d, 0));
                vertices.push(lattice_vertex(d, 1));
            } else {
                vertices.push(lattice_vertex(0, d));
                vertices.push(lattice_vertex(1, d));
            }
            j = j + 1;
        }
        proof {
            assert(bar * (4 * w) + 2 * (2 * w) == (bar + 1) * (4 * w)) by (nonlinear_arith);
        }
        bar = bar + 1;
    }
    let mut indices: Vec<u32> = Vec::new();
    let mut q: u32 = 0;
    while q < 2 * size + 1
        invariant
            s == size,
            1 <= size <= MAX_TILE_RESOLUTION,
            q <= 2 * size + 1,
            indices@.len() == 6 * q,
            forall|n: int|
                0 <= n < indices@.len() ==> #[trigger] indices@[n] == cross_index(s, n) as u32,
        decreases 2 * size + 1 - q,
    {
        proof {
            lemma_quad_entries(0, q as int);
            assert((0 + 6 * q + 0) - 0 == 6 * q + 0);
            assert((0 + 6 * q + 1) - 0 == 6 * q + 1);
            assert((0 + 6 * q + 2) - 0 == 6 * q + 2);
            assert((0 + 6 * q + 3) - 0 == 6 * q + 3);
            assert((0 + 6 * q + 4) - 0 == 6 * q + 4);
            assert((0 + 6 * q + 5) - 0 == 6 * q + 5);
        }
        let bl: u32 = q * 2;
        let br: u32 = bl + 1;
        let tl: u32 = bl + 2;
        let tr: u32 = bl + 3;
        indices.push(br);
        indices.push(bl);
        indices.push(tr);
        indices.push(bl);
        indices.push(tl);
        indices.push(tr);
        q = q + 1;
    }
    let start_of_vertical: u32 = 4 * w;
    let ghost across = 6 * (2 * s + 1);
    let mut q: u32 = 0;
    while q < 2 * size + 1
        invariant
            s == size,
            w == size + 1,
            start_of_vertical == 4 * w,
            across == 6 * (2 * s + 1),
            1 <= size <= MAX_TILE_RESOLUTION,
            q <= 2 * size + 1,
            indices@.len() == across + 6 * (if q <= size {
                q as int
            } else {
                q - 1
            }),
            forall|n: int|
                0 <= n < indices@.len() ==> #[trigger] indices@[n] == cross_index(s, n) as u32,
        decreases 2 * size + 1 - q,
    {
        if q != size {
            let ghost r: int = if q < size {
                q as int
            } else {
                q - 1
            };
            proof {
                lemma_quad_entries(across, r);
            }
            let bl: u32 = start_of_vertical + q * 2;
            let br: u32 = bl + 1;
            let tl: u32 = bl + 2;
            let tr: u32 = bl + 3;
            indices.push(br);
            indices.push(tr);
            indices.push(bl);
            indices.push(bl);
            indices.push(tr);
            indices.push(tl);
        }
        q = q + 1;
    }
    proof {
        assert(vertices@ =~= cross_vertices(s));
        assert(indices@ =~= cross_indices(s));
    }
    (vertices, indices)
}

/// Cells across the outermost ring of a clipmap of tile resolution `s`.
pub open spec fn seam_side(s: int) -> int {
    4 * s + 2
}

/// Vertex `i` of the seam: the boundary of the square `seam_side(s)` cells
/// across, walked side by side.
pub open spec fn seam_vertex(s: int, i: int) -> Vertex {
    let n = seam_side(s);
    let side = i / n;
    let k = i % n;
    if side == 0 {
        lattice_point(k, 0)
    } else if side == 1 {
        lattice_point(n, k)
    } else if side == 2 {
        lattice_point(n - k, n)
    } else {
        lattice_point(0, n - k)
    }
}

/// The `4 seam_side(s)` vertices of the seam.
pub open spec fn seam_vertices(s: int) -> Seq<Vertex> {
    Seq::new((4 * seam_side(s)) as nat, |i: int| seam_vertex(s, i))
}

/// Entry `n` of the seam index buffer: triangle `t` joins vertices `2t + 1`,
/// `2t` and `2t + 2`, and the very last entry wraps round to vertex 0.
pub open spec fn seam_index(s: int, n: int) -> int {
    let t = n / 3;
    let k = n % 3;
    if k == 0 {
        2 * t + 1
    } else if k == 1 {
        2 * t
    } else if n == 6 * seam_side(s) - 1 {
        0
    } else {
        2 * t + 2
    }
}

/// The `6 seam_side(s)` entries of the seam index buffer.
pub open spec fn seam_indices(s: int) -> Seq<u32> {
    Seq::new((6 * seam_side(s)) as nat, |n: int| seam_index(s, n) as u32)
}

/// The seam: a closed ring one vertex wide round the outer edge of the whole
/// clipmap.
pub fn build_seam(size: u32) -> (r: (Vec<Vertex>, Vec<u32>))
    requires
        1 <= size <= MAX_TILE_RESOLUTION,
    ensures
        r.0@ == seam_vertices(size as int),
        r.1@ == seam_indices(size as int),
{
    let n: u32 = size * 4 + 2;
    let ghost s = size as int;
    let mut vertices: Vec<Vertex> = Vec::new();
    let mut side: u32 = 0;
    while side < 4
        invariant
            n == seam_side(s),
            s == size,
            1 <= size <= MAX_TILE_RESOLUTION,
            side <= 4,
            vertices@.len() == side * n,
            forall|i: int| 0 <= i < vertices@.len() ==> #[trigger] vertices@[i] == seam_vertex(s, i),
        decreases 4 - side,
    {
        let mut k: u32 = 0;
        while k < n
            invariant
                n == seam_side(s),
                s == size,
                1 <= size <= MAX_TILE_RESOLUTION,
                side < 4,
                k <= n,
                vertices@.len() == side * n + k,
                forall|i: int|
                    0 <= i < vertices@.len() ==> #[trigger] vertices@[i] == seam_vertex(s, i),
            decreases n - k,
        {
            proof {
                lemma_fundamental_div_mod_converse(side * n + k, n as int, side as int, k as int);
            }
            let ki: i32 = k as i32;
            let ni: i32 = n as i32;
            if side == 0 {
                vertices.push(lattice_vertex(ki, 0));
            } else if side == 1 {
                vertices.push(lattice_vertex(ni, ki));
            } else if side == 2 {
                vertices.push(lattice_vertex(ni - ki, ni));
            } else {
                vertices.push(lattice_vertex(0, ni - ki));
            }
            k = k + 1;
        }
        proof {
            assert(side * n + n == (side + 1) * n) by (nonlinear_arith);
        }
        side = side + 1;
    }
    let mut indices: Vec<u32> = Vec::new();
    let mut t: u32 = 0;
    while t < 2 * n
        invariant
            n == seam_side(s),
            s == size,
            1 <= size <= MAX_TILE_RESOLUTION,
            t <= 2 * n,
            indices@.len() == 3 * t,
            forall|j: int|
                0 <= j < indices@.len() ==> #[trigger] indices@[j] == seam_index(s, j) as u32,
        decreases 2 * n - t,
    {
        proof {
            lemma_fundamental_div_mod_converse(3 * t, 3, t as int, 0);
            lemma_fundamental_div_mod_converse(3 * t + 1, 3, t as int, 1);
            lemma_fundamental_div_mod_converse(3 * t + 2, 3, t as int, 2);
        }
        let i: u32 = 2 * t;
        indices.push(i + 1);
        indices.push(i);
        if t + 1 == 2 * n {
            indices.push(0);
        } else {
            indices.push(i + 2);
        }
        t = t + 1;
    }
    proof {
        assert(vertices@ =~= seam_vertices(s));
        assert(indices@ =~= seam_indices(s));
    }
    (vertices, indices)
}

/// Cell `c` of an `s` by `s` grid lies in row `c / s` and column `c % s`.
pub proof fn lemma_cell_coords(s: int, c: int)
    requires
        s >= 1,
        0 <= c < s * s,
    ensures
        0 <= c / s < s,
        0 <= c % s < s,
        c == (c / s) * s + c % s,
{
    lemma_fundamental_div_mod(c, s);
    let y = c / s;
    assert(y * s == s * y) by (nonlinear_arith);
    assert(y < s) by (nonlinear_arith)
        requires
            y * s <= c,
            c < s * s,
            s >= 1,
    ;
    assert(y >= 0) by (nonlinear_arith)
        requires
            y * s + c % s == c,
            c % s < s,
            c >= 0,
            s >= 1,
    ;
}

/// Every entry of the patch index buffer addresses a lattice vertex.
pub proof fn lemma_patch_indices_valid(s: int)
    requires
        1 <= s <= MAX_TILE_RESOLUTION,
    ensures
        indices_valid(patch_vertices(s).len() as int, patch_indices(s)),
        patch_indices(s).len() == 6 * s * s,
        patch_vertices(s).len() == (s + 1) * (s + 1),
{
    let w = s + 1;
    assert(6 * s * s == 6 * (s * s)) by (nonlinear_arith);
    assert(0 <= 6 * s * s <= 6 * 5368 * 5368) by (nonlinear_arith)
        requires
            1 <= s <= 5368,
    ;
    assert(0 <= w * w <= 5369 * 5369) by (nonlinear_arith)
        requires
            w == s + 1,
            1 <= s <= 5368,
    ;
    assert forall|j: int| 0 <= j < patch_indices(s).len() implies (#[trigger] patch_indices(
        s,
    )[j] as int) < patch_vertices(s).len() by {
        let c = j / 6;
        assert(c < s * s);
        lemma_cell_coords(s, c);
        let x = c % s;
        let y = c / s;
        assert((y + 1) * w + x + 1 <= w * w - 1) by (nonlinear_arith)
            requires
                0 <= y < s,
                0 <= x < s,
                w == s + 1,
        ;
        assert(0 <= y * w + x) by (nonlinear_arith)
            requires
                0 <= y,
                0 <= x,
                w >= 1,
        ;
        assert((y + 1) * w == y * w + w) by (nonlinear_arith);
    }
    assert(patch_indices(s).len() % 3 == 0);
}

/// Every entry of the trim index buffer addresses a trim vertex.
pub proof fn lemma_trim_indices_valid(s: int)
    requires
        1 <= s <= MAX_TILE_RESOLUTION,
    ensures
        indices_valid(trim_vertices(s).len() as int, trim_indices(s)),
        trim_indices(s).len() == 24 * s,
{
    assert forall|n: int| 0 <= n < trim_indices(s).len() implies (#[trigger] trim_indices(s)[n]
        as int) < trim_vertices(s).len() by {
        let q = n / 6;
        assert(q < 4 * s);
        lemma_fundamental_div_mod(q, s);
        let arm = q / s;
        assert(0 <= arm < 4) by (nonlinear_arith)
            requires
                arm * s + q % s == q,
                0 <= q % s < s,
                0 <= q < 4 * s,
                s >= 1,
        ;
    }
}

/// Every entry of the cross index buffer addresses a cross vertex.
pub proof fn lemma_cross_indices_valid(s: int)
    requires
        1 <= s <= MAX_TILE_RESOLUTION,
    ensures
        indices_valid(cross_vertices(s).len() as int, cross_indices(s)),
        cross_indices(s).len() == 24 * s + 6,
{
}

/// Every entry of the seam index buffer addresses a seam vertex.
pub proof fn lemma_seam_indices_valid(s: int)
    requires
        1 <= s <= MAX_TILE_RESOLUTION,
    ensures
        indices_valid(seam_vertices(s).len() as int, seam_indices(s)),
        seam_indices(s).len() == 6 * seam_side(s),
{
}

/// Every patch vertex lies on even coordinates inside `b`, given that `b`
/// holds the lattice square from the origin to `(s, 0, s)`.
pub proof fn lemma_patch_vertices_inside(s: int, b: BoundingBox)
    requires
        1 <= s <= MAX_TILE_RESOLUTION,
        b.min.x <= 0 && b.min.y <= 0 && b.min.z <= 0,
        b.max.x >= s * UNITS_PER_CELL && b.max.y >= 0 && b.max.z >= s * UNITS_PER_CELL,
    ensures
        forall|i: int|
            0 <= i < patch_vertices(s).len() ==> b.contains(#[trigger] patch_vertices(s)[i])
                && even_xz(patch_vertices(s)[i]),
{
    assert forall|i: int| 0 <= i < patch_vertices(s).len() implies b.contains(
        #[trigger] patch_vertices(s)[i],
    ) && even_xz(patch_vertices(s)[i]) by {
        let w = s + 1;
        assert(i < w * w);
        lemma_fundamental_div_mod(i, w);
        let y = i / w;
        assert(0 <= y < w) by (nonlinear_arith)
            requires
                y * w + i % w == i,
                0 <= i % w < w,
                0 <= i < w * w,
                w >= 1,
        ;
    }
}

/// Every trim vertex is a lattice point on even coordinates.
pub proof fn lemma_trim_vertices_even(s: int)
    requires
        1 <= s <= MAX_TILE_RESOLUTION,
    ensures
        forall|i: int| 0 <= i < trim_vertices(s).len() ==> even_xz(#[trigger] trim_vertices(s)[i]),
{
    assert forall|i: int| 0 <= i < trim_vertices(s).len() implies even_xz(
        #[trigger] trim_vertices(s)[i],
    ) by {
        let h = 2 * (s + 1);
        lemma_fundamental_div_mod(i, h);
        let arm = i / h;
        assert(0 <= arm < 4) by (nonlinear_arith)
            requires
                arm * h + i % h == i,
                0 <= i % h < h,
                0 <= i < 4 * h,
                h >= 1,
        ;
    }
}

} // verus!
