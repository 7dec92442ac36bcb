use geoclipmap::clipmap::{GenerateError, GeoClipMap, MeshData};
use geoclipmap::geometry::{BoundingBox, Vertex, UNITS_PER_CELL};
use geoclipmap::shapes::MAX_TILE_RESOLUTION;
use std::collections::BTreeSet;

fn catalog(size: i32) -> Vec<MeshData> {
    match GeoClipMap::generate(size, 4) {
        Ok(ms) => ms,
        Err(e) => panic!("generate({}) failed: {:?}", size, e),
    }
}

fn area2(m: &MeshData, t: usize) -> i64 {
    let a = m.vertices[m.indices[3 * t] as usize];
    let b = m.vertices[m.indices[3 * t + 1] as usize];
    let c = m.vertices[m.indices[3 * t + 2] as usize];
    (b.x as i64 - a.x as i64) * (c.z as i64 - a.z as i64)
        - (b.z as i64 - a.z as i64) * (c.x as i64 - a.x as i64)
}

fn distinct_edges(indices: &[u32]) -> usize {
    let mut edges = BTreeSet::new();
    for t in indices.chunks(3) {
        for (i, j) in [(t[0], t[1]), (t[1], t[2]), (t[2], t[0])] {
            edges.insert((i.min(j), i.max(j)));
        }
    }
    edges.len()
}

fn inside(b: &BoundingBox, v: &Vertex) -> bool {
    b.min.x <= v.x
        && v.x <= b.max.x
        && b.min.y <= v.y
        && v.y <= b.max.y
        && b.min.z <= v.z
        && v.z <= b.max.z
}

#[test]
fn resolution_one_scenario() {
    let ms = catalog(1);
    let tile_inner = &ms[5];
    assert_eq!(tile_inner.vertices.len(), 4);
    assert_eq!(tile_inner.indices.len(), 6);
    let tile = &ms[0];
    assert_eq!(tile.vertices.len(), 5);
    assert_eq!(tile.indices.len(), 12);
    let u = UNITS_PER_CELL;
    assert!(tile.vertices.contains(&Vertex { x: u / 2, y: 0, z: u / 2 }));
}

#[test]
fn resolution_two_scenario() {
    let ms = catalog(2);
    assert_eq!(ms[5].vertices.len(), 9);
    assert_eq!(ms[5].indices.len(), 24);
}

#[test]
fn catalog_has_eight_meshes_in_order() {
    for size in [1, 2, 3, 5] {
        let ms = catalog(size);
        assert_eq!(ms.len(), 8);
        let s = size as usize;
        let w = s + 1;
        // TileInner, FillerInner: the base lattice.
        for i in [5, 6] {
            assert_eq!(ms[i].vertices.len(), w * w);
            assert_eq!(ms[i].indices.len(), 6 * s * s);
        }
        // TrimInner.
        assert_eq!(ms[7].vertices.len(), 8 * w);
        assert_eq!(ms[7].indices.len(), 24 * s);
        // Cross.
        assert_eq!(ms[3].vertices.len(), 8 * w);
        assert_eq!(ms[3].indices.len(), 24 * s + 6);
        // Seam.
        assert_eq!(ms[4].vertices.len(), 4 * (4 * s + 2));
        assert_eq!(ms[4].indices.len(), 6 * (4 * s + 2));
        // Tile, Filler, Trim: refined once.
        assert_eq!(ms[0].indices.len(), 12 * s * s);
        assert_eq!(ms[1].indices.len(), 12 * s * s);
        assert_eq!(ms[2].indices.len(), 48 * s);
    }
}

#[test]
fn every_index_is_in_range() {
    for size in [1, 2, 4] {
        for m in catalog(size).iter() {
            assert_eq!(m.indices.len() % 3, 0);
            for &i in m.indices.iter() {
                assert!((i as usize) < m.vertices.len());
            }
        }
    }
}

#[test]
fn winding_is_uniform_in_every_mesh() {
    for size in [1, 2, 3] {
        let ms = catalog(size);
        for (k, m) in ms.iter().enumerate() {
            for t in 0..m.indices.len() / 3 {
                let a = area2(m, t);
                if k == 4 {
                    assert_eq!(a, 0, "seam triangle {} of size {}", t, size);
                } else {
                    assert!(a > 0, "mesh {} triangle {} of size {}: {}", k, t, size, a);
                }
            }
        }
    }
}

#[test]
fn refinement_doubles_index_count() {
    for size in [1, 2, 6] {
        let ms = catalog(size);
        assert_eq!(ms[0].indices.len(), 2 * ms[5].indices.len());
        assert_eq!(ms[1].indices.len(), 2 * ms[6].indices.len());
        assert_eq!(ms[2].indices.len(), 2 * ms[7].indices.len());
    }
}

#[test]
fn refinement_respects_weld_bound() {
    for size in [1, 2, 3] {
        let ms = catalog(size);
        for (outer, inner) in [(0, 5), (1, 6), (2, 7)] {
            let bound = ms[inner].vertices.len() + distinct_edges(&ms[inner].indices);
            assert!(ms[outer].vertices.len() <= bound);
        }
    }
}

#[test]
fn refined_vertices_are_welded() {
    let ms = catalog(3);
    for m in ms[0..3].iter() {
        let set: BTreeSet<(i32, i32, i32)> = m.vertices.iter().map(|v| (v.x, v.y, v.z)).collect();
        assert_eq!(set.len(), m.vertices.len());
    }
    // A 3 by 3 lattice refined once: 16 corners and one midpoint per cell.
    assert_eq!(ms[0].vertices.len(), 16 + 9);
}

#[test]
fn every_vertex_lies_in_its_box() {
    for size in [1, 2, 5] {
        for m in catalog(size).iter() {
            for v in m.vertices.iter() {
                assert!(inside(&m.bounds, v));
            }
        }
    }
}

#[test]
fn patch_box_has_height_margin() {
    let ms = catalog(2);
    let u = UNITS_PER_CELL;
    let b = ms[5].bounds;
    assert_eq!(b.min, Vertex { x: 0, y: 0, z: 0 });
    assert_eq!(b.max, Vertex { x: 3 * u, y: 10000, z: 3 * u });
    assert_eq!(ms[0].bounds, b);
    // The trim box grows past the patch box on the negative side.
    assert_eq!(ms[7].bounds.min.x, -2 * u);
    assert_eq!(ms[7].bounds.max.x, 5 * u);
    // The seam box reaches the far corner of the outer ring.
    assert_eq!(ms[4].bounds.max.z, 10 * u);
}

#[test]
fn seam_closes_on_vertex_zero() {
    for size in [1, 2, 7] {
        let ms = catalog(size);
        let seam = &ms[4];
        assert_eq!(*seam.indices.last().unwrap(), 0);
        assert_eq!(seam.indices[0], 1);
        assert_eq!(seam.indices[1], 0);
        assert_eq!(seam.indices[2], 2);
    }
}

#[test]
fn normals_and_tangents_are_placeholders() {
    let ms = catalog(2);
    for m in ms.iter() {
        assert_eq!(m.normals.len(), m.vertices.len());
        assert_eq!(m.tangents.len(), 4 * m.vertices.len());
        for n in m.normals.iter() {
            assert_eq!(*n, Vertex { x: 0, y: UNITS_PER_CELL, z: 0 });
        }
        assert!(m.tangents.iter().all(|&t| t == 0));
    }
}

#[test]
fn cross_centre_is_triangulated_once() {
    let ms = catalog(2);
    let cross = &ms[3];
    let u = UNITS_PER_CELL;
    let mut centre = 0;
    for t in 0..cross.indices.len() / 3 {
        let vs: Vec<Vertex> =
            (0..3).map(|k| cross.vertices[cross.indices[3 * t + k] as usize]).collect();
        if vs.iter().all(|v| 0 <= v.x && v.x <= u && 0 <= v.z && v.z <= u) {
            centre += 1;
        }
    }
    assert_eq!(centre, 2);
}

#[test]
fn non_positive_resolution_is_rejected() {
    assert!(matches!(GeoClipMap::generate(0, 4), Err(GenerateError::NonPositiveResolution)));
    assert!(matches!(GeoClipMap::generate(-3, 4), Err(GenerateError::NonPositiveResolution)));
}

#[test]
fn oversized_resolution_is_rejected() {
    let too_big = MAX_TILE_RESOLUTION as i32 + 1;
    assert!(matches!(GeoClipMap::generate(too_big, 4), Err(GenerateError::ResolutionTooLarge)));
}

#[test]
fn levels_do_not_change_the_shapes() {
    let a = catalog(2);
    let b = match GeoClipMap::generate(2, 9) {
        Ok(ms) => ms,
        Err(_) => panic!("generate failed"),
    };
    for (x, y) in a.iter().zip(b.iter()) {
        assert_eq!(x.vertices, y.vertices);
        assert_eq!(x.indices, y.indices);
    }
}
