use vstd::prelude::*;

use crate::clipmap::{cross_box, is_catalog, patch_box, trim_box, MeshData};
use crate::geometry::lemma_expanded_over_contains;
use crate::shapes::{
    cross_vertices, lemma_cross_indices_valid, lemma_patch_indices_valid,
    lemma_patch_vertices_inside, lemma_seam_indices_valid, lemma_trim_indices_valid,
    lemma_trim_vertices_even, patch_indices, patch_vertices, seam_vertices, trim_indices,
    trim_vertices, MAX_TILE_RESOLUTION,
};
use crate::subdivide::{
    distinct_edge_count, indices_valid, lemma_refinement_indices_valid, lemma_refinement_inside,
    lemma_refinement_weld_bound, lemma_refinement_winding,
};
use crate::winding::{
    lemma_cross_winding, lemma_patch_winding, lemma_seam_flat, lemma_trim_winding, winding_flat,
    winding_positive, winding_uniform,
};

verus! {

/// Every mesh of a catalog is made of whole triangles, and every index
/// addresses one of the mesh's own vertices.
pub proof fn lemma_catalog_indices_valid(s: int, ms: Seq<MeshData>)
    requires
        1 <= s <= MAX_TILE_RESOLUTION,
        is_catalog(s, ms),
    ensures
        forall|i: int|
            0 <= i < 8 ==> indices_valid(
                (#[trigger] ms[i]).vertices@.len() as int,
                ms[i].indices@,
            ),
{
    lemma_patch_indices_valid(s);
    lemma_trim_indices_valid(s);
    lemma_cross_indices_valid(s);
    lemma_seam_indices_valid(s);
    lemma_refinement_indices_valid(
        patch_vertices(s),
        patch_indices(s),
        ms[0].vertices@,
        ms[0].indices@,
    );
    lemma_refinement_indices_valid(
        patch_vertices(s),
        patch_indices(s),
        ms[1].vertices@,
        ms[1].indices@,
    );
    lemma_refinement_indices_valid(
        trim_vertices(s),
        trim_indices(s),
        ms[2].vertices@,
        ms[2].indices@,
    );
}

/// Within each mesh of a catalog all triangles turn the same way: those of
/// the seam are flat in the XZ projection, all others have positive signed
/// area.
pub proof fn lemma_catalog_winding(s: int, ms: Seq<MeshData>)
    requires
        1 <= s <= MAX_TILE_RESOLUTION,
        is_catalog(s, ms),
    ensures
        forall|i: int|
            0 <= i < 8 ==> winding_uniform((#[trigger] ms[i]).vertices@, ms[i].indices@),
        forall|i: int|
            0 <= i < 8 && i != 4 ==> winding_positive(
                (#[trigger] ms[i]).vertices@,
                ms[i].indices@,
            ),
        winding_flat(ms[4].vertices@, ms[4].indices@),
{
    lemma_patch_indices_valid(s);
    lemma_trim_indices_valid(s);
    lemma_patch_winding(s);
    lemma_trim_winding(s);
    lemma_cross_winding(s);
    lemma_seam_flat(s);
    lemma_patch_vertices_inside(s, patch_box(s));
    lemma_trim_vertices_even(s);
    lemma_refinement_winding(patch_vertices(s), patch_indices(s), ms[0].vertices@, ms[0].indices@);
    lemma_refinement_winding(patch_vertices(s), patch_indices(s), ms[1].vertices@, ms[1].indices@);
    lemma_refinement_winding(trim_vertices(s), trim_indices(s), ms[2].vertices@, ms[2].indices@);
    assert forall|i: int| 0 <= i < 8 && i != 4 implies winding_positive(
        (#[trigger] ms[i]).vertices@,
        ms[i].indices@,
    ) by {}
    assert forall|i: int| 0 <= i < 8 implies winding_uniform(
        (#[trigger] ms[i]).vertices@,
        ms[i].indices@,
    ) by {
        if i != 4 {
            assert(winding_positive(ms[i].vertices@, ms[i].indices@));
        }
    }
}

/// The refined Tile, Filler and Trim meshes have exactly twice the index
/// count of their base meshes.
pub proof fn lemma_catalog_doubling(s: int, ms: Seq<MeshData>)
    requires
        1 <= s <= MAX_TILE_RESOLUTION,
        is_catalog(s, ms),
    ensures
        ms[0].indices@.len() == 2 * ms[5].indices@.len(),
        ms[1].indices@.len() == 2 * ms[6].indices@.len(),
        ms[2].indices@.len() == 2 * ms[7].indices@.len(),
{
}

/// Each refined mesh of a catalog has at most the vertices of its base mesh
/// plus one per distinct edge of the base mesh.
pub proof fn lemma_catalog_weld_bound(s: int, ms: Seq<MeshData>)
    requires
        1 <= s <= MAX_TILE_RESOLUTION,
        is_catalog(s, ms),
    ensures
        ms[0].vertices@.len() <= ms[5].vertices@.len() + distinct_edge_count(ms[5].indices@),
        ms[1].vertices@.len() <= ms[6].vertices@.len() + distinct_edge_count(ms[6].indices@),
        ms[2].vertices@.len() <= ms[7].vertices@.len() + distinct_edge_count(ms[7].indices@),
{
    lemma_patch_indices_valid(s);
    lemma_trim_indices_valid(s);
    lemma_refinement_weld_bound(
        patch_vertices(s),
        patch_indices(s),
        ms[0].vertices@,
        ms[0].indices@,
    );
    lemma_refinement_weld_bound(
        patch_vertices(s),
        patch_indices(s),
        ms[1].vertices@,
        ms[1].indices@,
    );
    lemma_refinement_weld_bound(
        trim_vertices(s),
        trim_indices(s),
        ms[2].vertices@,
        ms[2].indices@,
    );
}

/// Every vertex of every mesh of a catalog lies in that mesh's box.
pub proof fn lemma_catalog_bounds(s: int, ms: Seq<MeshData>)
    requires
        1 <= s <= MAX_TILE_RESOLUTION,
        is_catalog(s, ms),
    ensures
        forall|i: int, j: int|
            0 <= i < 8 && 0 <= j < ms[i].vertices@.len() ==> (#[trigger] ms[i]).bounds.contains(
                #[trigger] ms[i].vertices@[j],
            ),
{
    lemma_patch_indices_valid(s);
    lemma_trim_indices_valid(s);
    lemma_patch_vertices_inside(s, patch_box(s));
    lemma_expanded_over_contains(patch_box(s), trim_vertices(s));
    lemma_expanded_over_contains(trim_box(s), cross_vertices(s));
    lemma_expanded_over_contains(cross_box(s), seam_vertices(s));
    lemma_refinement_inside(
        patch_vertices(s),
        patch_indices(s),
        ms[0].vertices@,
        ms[0].indices@,
        patch_box(s),
    );
    lemma_refinement_inside(
        patch_vertices(s),
        patch_indices(s),
        ms[1].vertices@,
        ms[1].indices@,
        patch_box(s),
    );
    lemma_refinement_inside(
        trim_vertices(s),
        trim_indices(s),
        ms[2].vertices@,
        ms[2].indices@,
        trim_box(s),
    );
}

/// The seam's index buffer ends by wrapping back to vertex 0.
pub proof fn lemma_catalog_seam_closure(s: int, ms: Seq<MeshData>)
    requires
        1 <= s <= MAX_TILE_RESOLUTION,
        is_catalog(s, ms),
    ensures
        ms[4].indices@.len() > 0,
        ms[4].indices@.last() == 0,
{
    lemma_seam_indices_valid(s);
}

} // verus!
