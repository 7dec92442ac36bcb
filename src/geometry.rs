use vstd::prelude::*;

verus! {

/// Fixed-point steps per lattice cell: a coordinate of `UNITS_PER_CELL` is one
/// world unit, so positions carry five decimal digits.
pub const UNITS_PER_CELL: i32 = 100000;

/// A position in local patch space, in fixed-point steps of `1 / UNITS_PER_CELL`.
#[derive(Clone, Copy, Debug, PartialEq, Eq, Structural)]
pub struct Vertex {
    pub x: i32,
    pub y: i32,
    pub z: i32,
}

/// An integer halved with the fraction dropped (rounded toward zero).
pub open spec fn half_toward_zero(s: int) -> int {
    if s >= 0 {
        s / 2
    } else {
        -((-s) / 2)
    }
}

/// The midpoint of two positions, each coordinate rounded toward zero to the
/// fixed-point grid.
pub open spec fn midpoint_of(a: Vertex, b: Vertex) -> Vertex {
    Vertex {
        x: half_toward_zero(a.x + b.x) as i32,
        y: half_toward_zero(a.y + b.y) as i32,
        z: half_toward_zero(a.z + b.z) as i32,
    }
}

/// Squared distance between two positions.
#[verifier::opaque]
pub open spec fn dist2(a: Vertex, b: Vertex) -> int {
    (b.x - a.x) * (b.x - a.x) + (b.y - a.y) * (b.y - a.y) + (b.z - a.z) * (b.z - a.z)
}

/// Twice the signed area of the triangle `a b c` projected onto the XZ plane.
pub open spec fn area2(a: Vertex, b: Vertex, c: Vertex) -> int {
    (b.x - a.x) * (c.z - a.z) - (b.z - a.z) * (c.x - a.x)
}

/// Both horizontal coordinates are even, so a midpoint with such a position
/// is exact.
pub open spec fn even_xz(v: Vertex) -> bool {
    v.x % 2 == 0 && v.z % 2 == 0
}

fn half_sum(a: i32, b: i32) -> (r: i32)
    ensures
        r == half_toward_zero(a + b),
{
    let s: i64 = a as i64 + b as i64;
    if s >= 0 {
        let h: i64 = s / 2;
        assert(h == s / 2);
        h as i32
    } else {
        let n: i64 = -s;
        let h: i64 = n / 2;
        assert(h == n / 2);
        (-h) as i32
    }
}

/// The midpoint of `a` and `b` on the fixed-point grid.
pub fn midpoint(a: Vertex, b: Vertex) -> (m: Vertex)
    ensures
        m == midpoint_of(a, b),
{
    Vertex { x: half_sum(a.x, b.x), y: half_sum(a.y, b.y), z: half_sum(a.z, b.z) }
}

/// Squared distance, computed without overflow.
pub fn distance_squared(a: Vertex, b: Vertex) -> (r: i128)
    ensures
        r == dist2(a, b),
{
    let dx: i128 = b.x as i128 - a.x as i128;
    let dy: i128 = b.y as i128 - a.y as i128;
    let dz: i128 = b.z as i128 - a.z as i128;
    proof {
        reveal(dist2);
        assert(0 <= dx * dx <= 0x1_0000_0000_0000_0000) by (nonlinear_arith)
            requires -0x1_0000_0000 <= dx <= 0x1_0000_0000;
        assert(0 <= dy * dy <= 0x1_0000_0000_0000_0000) by (nonlinear_arith)
            requires -0x1_0000_0000 <= dy <= 0x1_0000_0000;
        assert(0 <= dz * dz <= 0x1_0000_0000_0000_0000) by (nonlinear_arith)
            requires -0x1_0000_0000 <= dz <= 0x1_0000_0000;
    }
    dx * dx + dy * dy + dz * dz
}

/// An axis-aligned box given by its least and greatest corners.
#[derive(Clone, Copy, Debug, PartialEq, Eq, Structural)]
pub struct BoundingBox {
    pub min: Vertex,
    pub max: Vertex,
}

impl BoundingBox {
    /// The box holds `v` (its faces included).
    pub open spec fn contains(self, v: Vertex) -> bool {
        &&& self.min.x <= v.x <= self.max.x
        &&& self.min.y <= v.y <= self.max.y
        &&& self.min.z <= v.z <= self.max.z
    }

    /// The smallest box that holds this one and `v`.
    pub open spec fn expanded(self, v: Vertex) -> BoundingBox {
        BoundingBox {
            min: Vertex {
                x: if v.x < self.min.x { v.x } else { self.min.x },
                y: if v.y < self.min.y { v.y } else { self.min.y },
                z: if v.z < self.min.z { v.z } else { self.min.z },
            },
            max: Vertex {
                x: if v.x > self.max.x { v.x } else { self.max.x },
                y: if v.y > self.max.y { v.y } else { self.max.y },
                z: if v.z > self.max.z { v.z } else { self.max.z },
            },
        }
    }

    /// Grows the box so that it holds `v`.
    pub fn expand(&mut self, v: Vertex)
        ensures
            *final(self) == old(self).expanded(v),
    {
        if v.x < self.min.x {
            self.min.x = v.x;
        }
        if v.y < self.min.y {
            self.min.y = v.y;
        }
        if v.z < self.min.z {
            self.min.z = v.z;
        }
        if v.x > self.max.x {
            self.max.x = v.x;
        }
        if v.y > self.max.y {
            self.max.y = v.y;
        }
        if v.z > self.max.z {
            self.max.z = v.z;
        }
    }
}

/// A box holds the midpoint of any two points that it holds.
pub proof fn lemma_midpoint_inside(b: BoundingBox, p: Vertex, q: Vertex)
    requires
        b.contains(p),
        b.contains(q),
    ensures
        b.contains(midpoint_of(p, q)),
{
}

/// `b` grown over each position of `vs` in turn.
pub open spec fn expanded_over(b: BoundingBox, vs: Seq<Vertex>) -> BoundingBox
    decreases vs.len(),
{
    if vs.len() == 0 {
        b
    } else {
        expanded_over(b, vs.drop_last()).expanded(vs.last())
    }
}

/// A box grown over some positions holds them and all it held before.
pub proof fn lemma_expanded_over_contains(b: BoundingBox, vs: Seq<Vertex>)
    ensures
        forall|i: int| 0 <= i < vs.len() ==> expanded_over(b, vs).contains(#[trigger] vs[i]),
        forall|v: Vertex| b.contains(v) ==> #[trigger] expanded_over(b, vs).contains(v),
    decreases vs.len(),
{
    if vs.len() > 0 {
        let p = vs.drop_last();
        lemma_expanded_over_contains(b, p);
        assert forall|i: int| 0 <= i < vs.len() implies expanded_over(b, vs).contains(
            #[trigger] vs[i],
        ) by {
            if i < p.len() {
                assert(p[i] == vs[i]);
            }
        }
        assert forall|v: Vertex| b.contains(v) implies #[trigger] expanded_over(b, vs).contains(
            v,
        ) by {
            assert(expanded_over(b, p).contains(v));
        }
    }
}

/// Grows `b` over every position of `vertices`, in order.
pub fn expand_over(b: &mut BoundingBox, vertices: &Vec<Vertex>)
    ensures
        *final(b) == expanded_over(*old(b), vertices@),
{
    let ghost b0 = *b;
    let mut i: usize = 0;
    while i < vertices.len()
        invariant
            i <= vertices@.len(),
            *b == expanded_over(b0, vertices@.subrange(0, i as int)),
        decreases vertices@.len() - i,
    {
        proof {
            assert(vertices@.subrange(0, i + 1).drop_last() =~= vertices@.subrange(0, i as int));
        }
        b.expand(vertices[i]);
        i = i + 1;
    }
    proof {
        assert(vertices@.subrange(0, i as int) =~= vertices@);
    }
}

} // verus!
