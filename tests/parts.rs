use geoclipmap::clipmap::GeoClipMap;
use geoclipmap::geometry::{distance_squared, midpoint, BoundingBox, Vertex};
use geoclipmap::shapes::{
    build_cross, build_patch, build_seam, build_trim, lattice_vertex, MAX_TILE_RESOLUTION,
};
use geoclipmap::weld::{Vector3Hash, WeldTable};

fn v(x: i32, y: i32, z: i32) -> Vertex {
    Vertex { x, y, z }
}

#[test]
fn subdivide_splits_longest_edge() {
    // AB = 4, BC = 8, CA = 4: BC is split.
    let mut vs = vec![v(0, 0, 0), v(2, 0, 0), v(0, 0, 2)];
    let mut idx = vec![0, 1, 2];
    GeoClipMap::subdivide_half(&mut vs, &mut idx);
    assert_eq!(vs, vec![v(0, 0, 0), v(2, 0, 0), v(0, 0, 2), v(1, 0, 1)]);
    assert_eq!(idx, vec![1, 3, 0, 3, 2, 0]);
}

#[test]
fn subdivide_splits_ab_when_longest() {
    let mut vs = vec![v(0, 0, 0), v(4, 0, 0), v(2, 0, 1)];
    let mut idx = vec![0, 1, 2];
    GeoClipMap::subdivide_half(&mut vs, &mut idx);
    assert_eq!(vs, vec![v(0, 0, 0), v(4, 0, 0), v(2, 0, 1), v(2, 0, 0)]);
    assert_eq!(idx, vec![0, 3, 2, 3, 1, 2]);
}

#[test]
fn subdivide_splits_ca_when_longest() {
    let mut vs = vec![v(0, 0, 0), v(1, 0, 1), v(0, 0, 4)];
    let mut idx = vec![0, 1, 2];
    GeoClipMap::subdivide_half(&mut vs, &mut idx);
    assert_eq!(vs, vec![v(0, 0, 0), v(1, 0, 1), v(0, 0, 4), v(0, 0, 2)]);
    assert_eq!(idx, vec![2, 3, 1, 3, 0, 1]);
}

#[test]
fn subdivide_breaks_ties_in_edge_order() {
    // AB = 4, BC = 5, CA = 5: BC comes before CA.
    let mut vs = vec![v(0, 0, 0), v(2, 0, 0), v(1, 0, 2)];
    let mut idx = vec![0, 1, 2];
    GeoClipMap::subdivide_half(&mut vs, &mut idx);
    assert_eq!(vs[3], v(1, 0, 1));
    assert_eq!(idx, vec![1, 3, 0, 3, 2, 0]);
    // All three equal: AB wins.
    let mut vs = vec![v(0, 0, 0), v(2, 2, 0), v(2, 0, 2)];
    let mut idx = vec![0, 1, 2];
    GeoClipMap::subdivide_half(&mut vs, &mut idx);
    assert_eq!(vs[3], v(1, 1, 0));
    assert_eq!(idx, vec![0, 3, 2, 3, 1, 2]);
}

#[test]
fn subdivide_welds_shared_midpoint() {
    // Two triangles sharing the long diagonal of a square.
    let mut vs = vec![v(0, 0, 0), v(2, 0, 0), v(0, 0, 2), v(2, 0, 2)];
    let mut idx = vec![0, 3, 2, 0, 1, 3];
    GeoClipMap::subdivide_half(&mut vs, &mut idx);
    assert_eq!(vs.len(), 5);
    assert_eq!(idx.len(), 12);
    assert_eq!(vs[idx[1] as usize], v(1, 0, 1));
    assert_eq!(idx[1], idx[7]);
}

#[test]
fn subdivide_of_nothing_is_nothing() {
    let mut vs = vec![v(5, 5, 5)];
    let mut idx: Vec<u32> = Vec::new();
    GeoClipMap::subdivide_half(&mut vs, &mut idx);
    assert!(vs.is_empty());
    assert!(idx.is_empty());
}

#[test]
fn subdivide_merges_duplicate_positions() {
    let mut vs = vec![v(0, 0, 0), v(4, 0, 0), v(0, 0, 4), v(0, 0, 0)];
    let mut idx = vec![3, 1, 2];
    GeoClipMap::subdivide_half(&mut vs, &mut idx);
    assert_eq!(vs, vec![v(0, 0, 0), v(4, 0, 0), v(0, 0, 4), v(2, 0, 2)]);
    assert_eq!(idx, vec![1, 3, 0, 3, 2, 0]);
}

#[test]
fn midpoint_rounds_toward_zero() {
    assert_eq!(midpoint(v(-3, 1, 3), v(0, 0, 0)), v(-1, 0, 1));
    assert_eq!(midpoint(v(-4, -7, 8), v(2, 2, 2)), v(-1, -2, 5));
    assert_eq!(midpoint(v(i32::MAX, i32::MIN, 0), v(i32::MAX, i32::MIN, 1)), v(i32::MAX, i32::MIN, 0));
}

#[test]
fn distance_squared_is_exact() {
    assert_eq!(distance_squared(v(0, 0, 0), v(3, 4, 12)), 169);
    let far = distance_squared(v(i32::MIN, i32::MIN, i32::MIN), v(i32::MAX, i32::MAX, i32::MAX));
    assert_eq!(far, 3 * (u32::MAX as i128) * (u32::MAX as i128));
}

#[test]
fn weld_key_packs_coordinates() {
    let h = Vector3Hash::from_vector3(v(0, 0, 0));
    assert_eq!(h, Vector3Hash { x: 0, y: 0, z: 0 });
    let base: u128 = 1 << 31;
    assert_eq!(h.packed(), (base << 64) + (base << 32) + base);
    let k = Vector3Hash::from_vector3(v(-1, 2, i32::MIN)).packed();
    assert_eq!(k, ((base - 1) << 64) + ((base + 2) << 32));
    assert_ne!(
        Vector3Hash::from_vector3(v(1, 0, 0)).packed(),
        Vector3Hash::from_vector3(v(0, 1, 0)).packed()
    );
}

#[test]
fn weld_table_reuses_indices() {
    let mut t = WeldTable::new();
    assert_eq!(t.find_or_add(v(1, 2, 3)), 0);
    assert_eq!(t.find_or_add(v(4, 5, 6)), 1);
    assert_eq!(t.find_or_add(v(1, 2, 3)), 0);
    assert_eq!(t.find_or_add(v(-1, 2, 3)), 2);
    assert_eq!(t.into_vertices(), vec![v(1, 2, 3), v(4, 5, 6), v(-1, 2, 3)]);
}

#[test]
fn bounding_box_expands() {
    let mut b = BoundingBox { min: v(0, 0, 0), max: v(1, 1, 1) };
    b.expand(v(-2, 5, 0));
    assert_eq!(b, BoundingBox { min: v(-2, 0, 0), max: v(1, 5, 1) });
    b.expand(v(0, 0, 0));
    assert_eq!(b, BoundingBox { min: v(-2, 0, 0), max: v(1, 5, 1) });
}

#[test]
fn patch_address_is_row_major() {
    assert_eq!(GeoClipMap::patch_2d(2, 3, 5), 17);
    assert_eq!(GeoClipMap::patch_2d(0, 0, 9), 0);
}

#[test]
fn patch_of_one_cell() {
    let (vs, idx) = build_patch(1);
    assert_eq!(vs, vec![lattice_vertex(0, 0), lattice_vertex(1, 0), lattice_vertex(0, 1), lattice_vertex(1, 1)]);
    assert_eq!(idx, vec![0, 3, 2, 0, 1, 3]);
}

#[test]
fn trim_of_resolution_one() {
    let (vs, idx) = build_trim(1);
    let l = lattice_vertex;
    assert_eq!(
        vs,
        vec![
            l(2, 0), l(2, 1), l(3, 0), l(3, 1),
            l(1, 2), l(0, 2), l(1, 3), l(0, 3),
            l(-1, 0), l(-1, 1), l(0, 0), l(0, 1),
            l(1, -1), l(0, -1), l(1, 0), l(0, 0),
        ]
    );
    assert_eq!(
        idx,
        vec![
            1, 0, 3, 0, 2, 3,
            5, 4, 6, 5, 6, 7,
            9, 8, 11, 8, 10, 11,
            13, 12, 14, 13, 14, 15,
        ]
    );
}

#[test]
fn cross_of_resolution_one() {
    let (vs, idx) = build_cross(1);
    assert_eq!(vs.len(), 16);
    assert_eq!(vs[0], lattice_vertex(-1, 0));
    assert_eq!(vs[7], lattice_vertex(2, 1));
    assert_eq!(vs[8], lattice_vertex(0, -1));
    assert_eq!(vs[15], lattice_vertex(1, 2));
    assert_eq!(idx.len(), 30);
    assert_eq!(&idx[0..6], &[1, 0, 3, 0, 2, 3]);
    // The Z bar skips its centre quad.
    assert_eq!(&idx[18..24], &[9, 11, 8, 8, 11, 10]);
    assert_eq!(&idx[24..30], &[13, 15, 12, 12, 15, 14]);
}

#[test]
fn seam_of_resolution_one() {
    let (vs, idx) = build_seam(1);
    assert_eq!(vs.len(), 24);
    assert_eq!(vs[0], lattice_vertex(0, 0));
    assert_eq!(vs[6], lattice_vertex(6, 0));
    assert_eq!(vs[12], lattice_vertex(6, 6));
    assert_eq!(vs[18], lattice_vertex(0, 6));
    assert_eq!(vs[23], lattice_vertex(0, 1));
    assert_eq!(idx.len(), 36);
    assert_eq!(&idx[33..36], &[23, 22, 0]);
}

#[test]
fn create_mesh_adds_placeholders() {
    let vs = vec![v(0, 0, 0), v(1, 0, 0), v(0, 0, 1)];
    let idx = vec![0, 2, 1];
    let b = BoundingBox { min: v(0, 0, 0), max: v(1, 0, 1) };
    let m = GeoClipMap::create_mesh(&vs, &idx, b);
    assert_eq!(m.vertices, vs);
    assert_eq!(m.indices, idx);
    assert_eq!(m.normals, vec![v(0, 100000, 0); 3]);
    assert_eq!(m.tangents, vec![0; 12]);
    assert_eq!(m.bounds, b);
}

#[test]
fn ring_pieces_fit_at_largest_resolution() {
    let s = MAX_TILE_RESOLUTION as i32;
    let (vs, idx) = build_seam(MAX_TILE_RESOLUTION);
    let n = 4 * s + 2;
    assert_eq!(vs.len(), 4 * n as usize);
    assert_eq!(vs[2 * n as usize], lattice_vertex(n, n));
    assert_eq!(vs[2 * n as usize].x, 2_147_400_000);
    assert_eq!(*idx.last().unwrap(), 0);
    let (vs, idx) = build_trim(MAX_TILE_RESOLUTION);
    assert_eq!(vs.len(), 8 * (s as usize + 1));
    assert_eq!(idx.len(), 24 * s as usize);
    assert_eq!(vs[2 * s as usize + 1], lattice_vertex(2 * s + 1, 1));
}
