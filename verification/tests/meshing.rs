use voxel_terrain::chunk::{Chunk, AIR, CHUNK_HEIGHT, CHUNK_WIDTH};
use voxel_terrain::mesh::{Uv, Vertex3};

fn v3(x: i32, y: i32, z: i32) -> Vertex3 {
    Vertex3 { x, y, z }
}

fn uv(u: i32, v: i32) -> Uv {
    Uv { u, v }
}

fn flat_index(w: usize, h: usize, x: usize, y: usize, z: usize) -> usize {
    (x * h + y) * w + z
}

fn samples_with(w: usize, h: usize, solid: &[(usize, usize, usize)]) -> Vec<bool> {
    let mut s = vec![false; w * w * h];
    for &(x, y, z) in solid {
        s[flat_index(w, h, x, y, z)] = true;
    }
    s
}

#[test]
fn construction_accepts_and_rejects_extents() {
    assert!(Chunk::new(0, 5).is_none());
    assert!(Chunk::new(5, 0).is_none());
    assert!(Chunk::new(CHUNK_WIDTH, CHUNK_HEIGHT).is_some());
    assert!(Chunk::new(4, 4).is_some());
    // 13377 * 13377 * 1 cells still index within u32 after meshing.
    assert!(Chunk::new(13377, 1).is_some());
    // One more column of cells would overflow the u32 index space.
    assert!(Chunk::new(13378, 1).is_none());
    assert!(Chunk::new(usize::MAX, usize::MAX).is_none());
}

#[test]
fn new_chunk_is_all_air() {
    let c = Chunk::new(3, 2).unwrap();
    for x in 0..3 {
        for y in 0..2 {
            for z in 0..3 {
                assert_eq!(c.voxel(x, y, z), AIR);
            }
        }
    }
    let m = c.create_mesh();
    assert_eq!(m.positions.len(), 0);
    assert_eq!(m.indices.len(), 0);
}

#[test]
fn generate_writes_solid_where_sampled() {
    let mut c = Chunk::new(2, 2).unwrap();
    let s = samples_with(2, 2, &[(1, 0, 1), (0, 1, 0)]);
    c.generate(&s);
    assert_eq!(c.voxel(1, 0, 1), 1);
    assert_eq!(c.voxel(0, 1, 0), 1);
    assert_eq!(c.voxel(0, 0, 0), AIR);
    assert_eq!(c.voxel(1, 1, 1), AIR);
    assert!(c.solid_at(1, 0, 1));
    assert!(!c.solid_at(0, 0, 0));
    // Out-of-range coordinates always count as air.
    assert!(!c.solid_at(-1, 0, 0));
    assert!(!c.solid_at(2, 0, 0));
    assert!(!c.solid_at(0, 2, 0));
}

#[test]
fn isolated_cell_emits_exactly_six_quads() {
    // A 4 x 4 x 4 chunk, all air except the single cell (1, 1, 1).
    let mut c = Chunk::new(4, 4).unwrap();
    let s = samples_with(4, 4, &[(1, 1, 1)]);
    c.generate(&s);
    let m = c.create_mesh();
    assert_eq!(m.positions.len(), 24);
    assert_eq!(m.normals.len(), 24);
    assert_eq!(m.uvs.len(), 24);
    assert_eq!(m.indices.len(), 36);

    // The cell's center sits at (2, 2, 2) in half-cell units; the six
    // quads sit on the corners of the unit cube around it, so every
    // coordinate is 1 or 3. Faces come in the fixed order front, back,
    // right, left, top, bottom.
    let expected = vec![
        // front (+z)
        v3(1, 1, 3), v3(3, 1, 3), v3(3, 3, 3), v3(1, 3, 3),
        // back (-z)
        v3(1, 3, 1), v3(3, 3, 1), v3(3, 1, 1), v3(1, 1, 1),
        // right (+x)
        v3(3, 1, 1), v3(3, 3, 1), v3(3, 3, 3), v3(3, 1, 3),
        // left (-x)
        v3(1, 1, 3), v3(1, 3, 3), v3(1, 3, 1), v3(1, 1, 1),
        // top (+y)
        v3(3, 3, 1), v3(1, 3, 1), v3(1, 3, 3), v3(3, 3, 3),
        // bottom (-y)
        v3(3, 1, 3), v3(1, 1, 3), v3(1, 1, 1), v3(3, 1, 1),
    ];
    assert_eq!(m.positions, expected);

    let expected_normals = vec![
        v3(0, 0, 1), v3(0, 0, 1), v3(0, 0, 1), v3(0, 0, 1),
        v3(0, 0, -1), v3(0, 0, -1), v3(0, 0, -1), v3(0, 0, -1),
        v3(1, 0, 0), v3(1, 0, 0), v3(1, 0, 0), v3(1, 0, 0),
        v3(-1, 0, 0), v3(-1, 0, 0), v3(-1, 0, 0), v3(-1, 0, 0),
        v3(0, 1, 0), v3(0, 1, 0), v3(0, 1, 0), v3(0, 1, 0),
        v3(0, -1, 0), v3(0, -1, 0), v3(0, -1, 0), v3(0, -1, 0),
    ];
    assert_eq!(m.normals, expected_normals);

    // front, right and bottom use one texture quad; back, left and top
    // use its mirrored form.
    let quad_a = [uv(0, 0), uv(1, 0), uv(1, 1), uv(0, 1)];
    let quad_b = [uv(1, 0), uv(0, 0), uv(0, 1), uv(1, 1)];
    let mut expected_uvs = Vec::new();
    for q in [&quad_a, &quad_b, &quad_a, &quad_b, &quad_b, &quad_a] {
        expected_uvs.extend_from_slice(q);
    }
    assert_eq!(m.uvs, expected_uvs);

    let mut expected_indices = Vec::new();
    for i in 0..6u32 {
        let b = 4 * i;
        expected_indices.extend_from_slice(&[b, b + 1, b + 2, b + 2, b + 3, b]);
    }
    assert_eq!(m.indices, expected_indices);

    // Each corner of the unit cube appears on exactly three faces.
    for x in [1, 3] {
        for y in [1, 3] {
            for z in [1, 3] {
                let corner = v3(x, y, z);
                let count = m.positions.iter().filter(|p| **p == corner).count();
                assert_eq!(count, 3);
            }
        }
    }
}

#[test]
fn fully_occluded_cell_emits_no_faces() {
    // A 3 x 3 x 3 chunk entirely solid: only the outer surface is
    // drawn. The center cell, whose six neighbors are all solid, adds
    // nothing: 6 sides x 9 cells = 54 quads in all.
    let mut c = Chunk::new(3, 3).unwrap();
    let s = vec![true; 27];
    c.generate(&s);
    let m = c.create_mesh();
    assert_eq!(m.positions.len(), 54 * 4);
    assert_eq!(m.indices.len(), 54 * 6);
    // The center's faces would lie strictly inside the cube: every
    // emitted quad has at least one coordinate on the hull (-1 or 5).
    for q in 0..54 {
        let quad = &m.positions[4 * q..4 * q + 4];
        let on_hull = quad.iter().all(|p| {
            p.x == -1 || p.x == 5 || p.y == -1 || p.y == 5 || p.z == -1 || p.z == 5
        });
        assert!(on_hull);
    }
}

#[test]
fn boundary_cell_always_exposes_outward_face() {
    // A solid cell at minimum x must emit its -x face even though the
    // chunk has no knowledge of what lies beyond.
    let mut c = Chunk::new(2, 1).unwrap();
    let s = samples_with(2, 1, &[(0, 0, 0)]);
    c.generate(&s);
    let m = c.create_mesh();
    // Isolated at a corner: all six faces visible.
    assert_eq!(m.positions.len(), 24);
    let left = v3(-1, 0, 0);
    let count = m.normals.iter().filter(|n| **n == left).count();
    assert_eq!(count, 4);
    // The -x face is the fourth quad emitted (front, back, right, left)
    // and its corners all sit on the x = -1 plane.
    assert_eq!(
        &m.positions[12..16],
        &[v3(-1, -1, 1), v3(-1, 1, 1), v3(-1, 1, -1), v3(-1, -1, -1)],
    );
}

#[test]
fn two_solid_neighbors_suppress_shared_faces() {
    // Cells (0,0,0) and (1,0,0): the +x face of the first and the -x
    // face of the second are suppressed, leaving 10 quads.
    let mut c = Chunk::new(2, 1).unwrap();
    let s = samples_with(2, 1, &[(0, 0, 0), (1, 0, 0)]);
    c.generate(&s);
    let m = c.create_mesh();
    assert_eq!(m.positions.len(), 10 * 4);
    assert_eq!(m.indices.len(), 10 * 6);
}

#[test]
fn buffers_stay_parallel_and_indices_in_range() {
    let mut c = Chunk::new(5, 7).unwrap();
    // A deterministic ragged pattern.
    let mut s = vec![false; 5 * 5 * 7];
    for (i, cell) in s.iter_mut().enumerate() {
        *cell = i % 3 == 0 || i % 7 == 2;
    }
    c.generate(&s);
    let m = c.create_mesh();
    assert_eq!(m.positions.len(), m.normals.len());
    assert_eq!(m.positions.len(), m.uvs.len());
    assert_eq!(m.positions.len() % 4, 0);
    assert_eq!(m.indices.len() % 6, 0);
    assert_eq!(m.indices.len() / 6, m.positions.len() / 4);
    for &i in &m.indices {
        assert!((i as usize) < m.positions.len());
    }
}

#[test]
fn offset_meshing_shifts_every_index() {
    let mut a = Chunk::new(3, 2).unwrap();
    a.generate(&samples_with(3, 2, &[(0, 0, 0), (2, 1, 2), (1, 0, 1)]));
    let mut b = Chunk::new(3, 2).unwrap();
    b.generate(&samples_with(3, 2, &[(1, 1, 1), (0, 1, 2)]));

    let ma = a.create_mesh();
    let mb_zero = b.create_mesh();
    let off = ma.positions.len() as u32;
    let mb = b.create_mesh_offset(off);

    assert_eq!(mb.positions, mb_zero.positions);
    assert_eq!(mb.normals, mb_zero.normals);
    assert_eq!(mb.uvs, mb_zero.uvs);
    assert_eq!(mb.indices.len(), mb_zero.indices.len());
    for (shifted, zero) in mb.indices.iter().zip(mb_zero.indices.iter()) {
        assert_eq!(*shifted, *zero + off);
    }

    // Concatenated, the two buffers partition the combined vertex range
    // with no gaps and no overlaps.
    let total = ma.positions.len() + mb.positions.len();
    let mut referenced = vec![false; total];
    for &i in ma.indices.iter() {
        assert!((i as usize) < ma.positions.len());
        referenced[i as usize] = true;
    }
    for &i in mb.indices.iter() {
        assert!((i as usize) >= ma.positions.len());
        assert!((i as usize) < total);
        referenced[i as usize] = true;
    }
    assert!(referenced.iter().all(|r| *r));
}
