use noise::{NoiseFn, OpenSimplex};
use voxel_terrain::chunk::Chunk;
use voxel_terrain::world::build_world;

/// Classifies every cell of a `w x h x w` chunk at world offset
/// `(ox, 0, oz)` the way the reference sampler does: one simplex noise
/// evaluation at the world coordinate over 16, solid when the scalar is
/// at least zero.
fn noise_samples(seed: u32, w: usize, h: usize, ox: i64, oz: i64) -> Vec<bool> {
    let simplex = OpenSimplex::new(seed);
    let mut s = Vec::with_capacity(w * w * h);
    for x in 0..w {
        for y in 0..h {
            for z in 0..w {
                let wx = (ox + x as i64) as f64 / 16.0;
                let wy = y as f64 / 16.0;
                let wz = (oz + z as i64) as f64 / 16.0;
                s.push(simplex.get([wx, wy, wz]) >= 0.0);
            }
        }
    }
    s
}

#[test]
fn fixed_seed_generation_is_deterministic() {
    let w = 8;
    let h = 16;
    let s1 = noise_samples(1337, w, h, 0, 0);
    let s2 = noise_samples(1337, w, h, 0, 0);
    assert_eq!(s1, s2);

    let mut c1 = Chunk::new(w, h).unwrap();
    c1.generate(&s1);
    let mut c2 = Chunk::new(w, h).unwrap();
    c2.generate(&s2);
    for x in 0..w {
        for y in 0..h {
            for z in 0..w {
                assert_eq!(c1.voxel(x, y, z), c2.voxel(x, y, z));
            }
        }
    }

    let m1 = c1.create_mesh();
    let m2 = c2.create_mesh();
    assert_eq!(m1.positions, m2.positions);
    assert_eq!(m1.normals, m2.normals);
    assert_eq!(m1.uvs, m2.uvs);
    assert_eq!(m1.indices, m2.indices);
}

#[test]
fn different_offsets_sample_different_cells() {
    // Not a library guarantee, just a check that the test sampler
    // actually varies over space for this seed.
    let a = noise_samples(7, 8, 8, 0, 0);
    let b = noise_samples(7, 8, 8, 160, 160);
    assert_ne!(a, b);
}

#[test]
fn build_world_places_tiles_row_major() {
    let width = 2;
    let height = 2;
    let grid_w = 2;
    let grid_d = 3;
    let vol = width * width * height;
    // Even tiles fully solid, odd tiles fully air.
    let mut fields = Vec::new();
    for k in 0..grid_w * grid_d {
        fields.push(vec![k % 2 == 0; vol]);
    }
    let tiles = build_world(width, height, grid_w, grid_d, &fields).unwrap();
    assert_eq!(tiles.len(), 6);
    for (k, t) in tiles.iter().enumerate() {
        assert_eq!(t.grid_x, k / grid_d);
        assert_eq!(t.grid_z, k % grid_d);
        assert_eq!(t.offset_x, (t.grid_x * width) as i64);
        assert_eq!(t.offset_z, (t.grid_z * width) as i64);
        if k % 2 == 0 {
            // A fully solid 2 x 2 x 2 chunk draws its whole surface:
            // 6 sides x 4 cells.
            assert_eq!(t.mesh.positions.len(), 24 * 4);
            assert_eq!(t.chunk.voxel(0, 0, 0), 1);
        } else {
            assert_eq!(t.mesh.positions.len(), 0);
            assert_eq!(t.chunk.voxel(0, 0, 0), 0);
        }
    }
}

#[test]
fn build_world_rejects_inconsistent_requests() {
    // One field too few.
    let fields = vec![vec![false; 8]; 3];
    assert!(build_world(2, 2, 2, 2, &fields).is_none());
    // A field of the wrong size.
    let mut fields = vec![vec![false; 8]; 4];
    fields[2] = vec![false; 7];
    assert!(build_world(2, 2, 2, 2, &fields).is_none());
    // Rejected chunk extents.
    let fields = vec![vec![false; 0]; 4];
    assert!(build_world(0, 2, 2, 2, &fields).is_none());
    // An empty grid is a valid, empty world.
    let fields: Vec<Vec<bool>> = Vec::new();
    let tiles = build_world(2, 2, 0, 0, &fields).unwrap();
    assert_eq!(tiles.len(), 0);
}

#[test]
fn build_world_matches_per_chunk_meshing() {
    let width = 4;
    let height = 4;
    let vol = width * width * height;
    let mut fields = Vec::new();
    for k in 0..4 {
        let mut f = vec![false; vol];
        for (i, cell) in f.iter_mut().enumerate() {
            *cell = (i + k) % 5 == 0;
        }
        fields.push(f);
    }
    let tiles = build_world(width, height, 2, 2, &fields).unwrap();
    for (k, t) in tiles.iter().enumerate() {
        let mut c = Chunk::new(width, height).unwrap();
        c.generate(&fields[k]);
        let m = c.create_mesh();
        assert_eq!(t.mesh.positions, m.positions);
        assert_eq!(t.mesh.normals, m.normals);
        assert_eq!(t.mesh.uvs, m.uvs);
        assert_eq!(t.mesh.indices, m.indices);
    }
}
