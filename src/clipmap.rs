use vstd::prelude::*;

use crate::geometry::{expand_over, expanded_over, BoundingBox, Vertex, UNITS_PER_CELL};
use crate::shapes::{
    build_cross, build_patch, build_seam, build_trim, cross_vertices, cross_indices,
    lemma_patch_indices_valid, lemma_trim_indices_valid, patch_indices, patch_vertices,
    seam_indices, seam_vertices, trim_indices, trim_vertices, MAX_TILE_RESOLUTION,
};
use crate::subdivide::is_refinement;

verus! {

/// The clipmap mesh generator.
pub struct GeoClipMap;

/// Room left above the ground plane in the boxes of the patch meshes, for the
/// heights applied later: 0.1 in fixed-point steps.
pub const HEIGHT_MARGIN: i32 = 10000;

/// The placeholder normal of every vertex: straight up, of unit length.
pub open spec fn up() -> Vertex {
    Vertex { x: 0, y: UNITS_PER_CELL, z: 0 }
}

/// One finished mesh, ready for a rendering back end: positions, one up
/// normal per vertex, four zeroed tangent components per vertex, the index
/// buffer and the bounding box.
pub struct MeshData {
    pub vertices: Vec<Vertex>,
    pub indices: Vec<u32>,
    pub normals: Vec<Vertex>,
    pub tangents: Vec<i32>,
    pub bounds: BoundingBox,
}

/// `m` holds the positions `vs`, the index buffer `idx` and the box `b`, with
/// the placeholder normals and tangents that go with them.
pub open spec fn mesh_holds(m: MeshData, vs: Seq<Vertex>, idx: Seq<u32>, b: BoundingBox) -> bool {
    &&& m.vertices@ == vs
    &&& m.indices@ == idx
    &&& m.normals@ == Seq::new(vs.len(), |i: int| up())
    &&& m.tangents@ == Seq::new(4 * vs.len(), |i: int| 0i32)
    &&& m.bounds == b
}

/// `m` is one refinement pass of the mesh `vs`, `idx`, with the box `b`.
pub open spec fn mesh_refines(m: MeshData, vs: Seq<Vertex>, idx: Seq<u32>, b: BoundingBox) -> bool {
    &&& is_refinement(vs, idx, m.vertices@, m.indices@)
    &&& mesh_holds(m, m.vertices@, m.indices@, b)
}

/// The box of the patch meshes of resolution `s`: the lattice extent plus one
/// cell, and `HEIGHT_MARGIN` above the ground.
pub open spec fn patch_box(s: int) -> BoundingBox {
    BoundingBox {
        min: Vertex { x: 0, y: 0, z: 0 },
        max: Vertex {
            x: ((s + 1) * UNITS_PER_CELL) as i32,
            y: HEIGHT_MARGIN,
            z: ((s + 1) * UNITS_PER_CELL) as i32,
        },
    }
}

/// The box of the trim meshes: the patch box grown over the trim vertices.
pub open spec fn trim_box(s: int) -> BoundingBox {
    expanded_over(patch_box(s), trim_vertices(s))
}

/// The box of the cross: the trim box grown over the cross vertices.
pub open spec fn cross_box(s: int) -> BoundingBox {
    expanded_over(trim_box(s), cross_vertices(s))
}

/// The box of the seam: the cross box grown over the seam vertices.
pub open spec fn seam_box(s: int) -> BoundingBox {
    expanded_over(cross_box(s), seam_vertices(s))
}

/// The catalog of tile resolution `s`, in its fixed order: Tile, Filler,
/// Trim, Cross, Seam, TileInner, FillerInner, TrimInner.
pub open spec fn is_catalog(s: int, ms: Seq<MeshData>) -> bool {
    &&& ms.len() == 8
    &&& mesh_refines(ms[0], patch_vertices(s), patch_indices(s), patch_box(s))
    &&& mesh_refines(ms[1], patch_vertices(s), patch_indices(s), patch_box(s))
    &&& mesh_refines(ms[2], trim_vertices(s), trim_indices(s), trim_box(s))
    &&& mesh_holds(ms[3], cross_vertices(s), cross_indices(s), cross_box(s))
    &&& mesh_holds(ms[4], seam_vertices(s), seam_indices(s), seam_box(s))
    &&& mesh_holds(ms[5], patch_vertices(s), patch_indices(s), patch_box(s))
    &&& mesh_holds(ms[6], patch_vertices(s), patch_indices(s), patch_box(s))
    &&& mesh_holds(ms[7], trim_vertices(s), trim_indices(s), trim_box(s))
}

/// Why a catalog could not be generated.
#[derive(Clone, Copy, Debug, PartialEq, Eq, Structural)]
pub enum GenerateError {
    /// The tile resolution is zero or negative.
    NonPositiveResolution,
    /// The tile resolution is above `MAX_TILE_RESOLUTION`.
    ResolutionTooLarge,
}

impl GeoClipMap {
    /// Assembles a finished mesh from its positions, indices and box, with an
    /// up normal and four zero tangent components for each vertex.
    pub fn create_mesh(vertices: &Vec<Vertex>, indices: &Vec<u32>, aabb: BoundingBox) -> (m: MeshData)
        requires
            vertices@.len() <= usize::MAX / 4,
        ensures
            mesh_holds(m, vertices@, indices@, aabb),
    {
        let n = vertices.len();
        let mut normals: Vec<Vertex> = Vec::new();
        let mut tangents: Vec<i32> = Vec::new();
        let mut i: usize = 0;
        while i < n
            invariant
                n == vertices@.len(),
                n <= usize::MAX / 4,
                i <= n,
                normals@ == Seq::new(i as nat, |k: int| up()),
                tangents@ == Seq::new(4 * i as nat, |k: int| 0i32),
            decreases n - i,
        {
            normals.push(Vertex { x: 0, y: UNITS_PER_CELL, z: 0 });
            tangents.push(0);
            tangents.push(0);
            tangents.push(0);
            tangents.push(0);
            proof {
                assert(normals@ =~= Seq::new((i + 1) as nat, |k: int| up()));
                assert(tangents@ =~= Seq::new(4 * (i + 1) as nat, |k: int| 0i32));
            }
            i = i + 1;
        }
        let vertices_copy = vertices.clone();
        let indices_copy = indices.clone();
        proof {
            assert(vertices_copy@ =~= vertices@);
            assert(indices_copy@ =~= indices@);
        }
        MeshData {
            vertices: vertices_copy,
            indices: indices_copy,
            normals,
            tangents,
            bounds: aabb,
        }
    }

    /// The full mesh catalog for tiles of `size` cells, in the order Tile,
    /// Filler, Trim, Cross, Seam, TileInner, FillerInner, TrimInner. The level
    /// count only tells the caller how many rings to place; the shapes do not
    /// depend on it.
    pub fn generate(size: i32, _levels: i32) -> (r: Result<Vec<MeshData>, GenerateError>)
        ensures
            match r {
                Ok(ms) => 1 <= size <= MAX_TILE_RESOLUTION && is_catalog(size as int, ms@),
                Err(e) => (size < 1 && e == GenerateError::NonPositiveResolution) || (size
                    > MAX_TILE_RESOLUTION && e == GenerateError::ResolutionTooLarge),
            },
    {
        if size < 1 {
            return Err(GenerateError::NonPositiveResolution);
        }
        if size > MAX_TILE_RESOLUTION as i32 {
            return Err(GenerateError::ResolutionTooLarge);
        }
        let s: u32 = size as u32;
        let w: i32 = size + 1;
        let aabb = BoundingBox {
            min: Vertex { x: 0, y: 0, z: 0 },
            max: Vertex { x: w * UNITS_PER_CELL, y: HEIGHT_MARGIN, z: w * UNITS_PER_CELL },
        };
        proof {
            lemma_patch_indices_valid(s as int);
            lemma_trim_indices_valid(s as int);
            assert(0 <= 6 * s * s <= 6 * 5368 * 5368) by (nonlinear_arith)
                requires
                    1 <= s <= 5368,
            ;
            assert(0 <= (s + 1) * (s + 1) <= 5369 * 5369) by (nonlinear_arith)
                requires
                    1 <= s <= 5368,
            ;
        }

        let (mut vertices, mut indices) = build_patch(s);
        let tile_inner_mesh = GeoClipMap::create_mesh(&vertices, &indices, aabb);
        GeoClipMap::subdivide_half(&mut vertices, &mut indices);
        let tile_mesh = GeoClipMap::create_mesh(&vertices, &indices, aabb);

        let (mut vertices, mut indices) = build_patch(s);
        let filler_inner_mesh = GeoClipMap::create_mesh(&vertices, &indices, aabb);
        GeoClipMap::subdivide_half(&mut vertices, &mut indices);
        let filler_mesh = GeoClipMap::create_mesh(&vertices, &indices, aabb);

        let mut aabb = aabb;
        let (mut vertices, mut indices) = build_trim(s);
        expand_over(&mut aabb, &vertices);
        let trim_inner_mesh = GeoClipMap::create_mesh(&vertices, &indices, aabb);
        GeoClipMap::subdivide_half(&mut vertices, &mut indices);
        let trim_mesh = GeoClipMap::create_mesh(&vertices, &indices, aabb);

        let (vertices, indices) = build_cross(s);
        expand_over(&mut aabb, &vertices);
        let cross_mesh = GeoClipMap::create_mesh(&vertices, &indices, aabb);

        let (vertices, indices) = build_seam(s);
        expand_over(&mut aabb, &vertices);
        let seam_mesh = GeoClipMap::create_mesh(&vertices, &indices, aabb);

        let mut meshes: Vec<MeshData> = Vec::new();
        meshes.push(tile_mesh);
        meshes.push(filler_mesh);
        meshes.push(trim_mesh);
        meshes.push(cross_mesh);
        meshes.push(seam_mesh);
        meshes.push(tile_inner_mesh);
        meshes.push(filler_inner_mesh);
        meshes.push(trim_inner_mesh);
        Ok(meshes)
    }
}

} // verus!
