//! World layout: tiles chunks on a regular `grid_w x grid_d` grid, each
//! generated from its own sample field and meshed independently, with a
//! pure world-space translation `(grid_x * width, 0, grid_z * width)` in
//! whole cells. Chunk boundary faces are always emitted, so no
//! cross-chunk culling is attempted; concatenating all tiles' translated
//! geometry reproduces the full terrain.

use vstd::arithmetic::div_mod::lemma_fundamental_div_mod_converse;
use vstd::prelude::*;

use crate::chunk::checked_volume;
use crate::chunk::dims_ok;
use crate::chunk::generated_view;
use crate::chunk::Chunk;
use crate::mesh::mesh_indices;
use crate::mesh::mesh_normals;
use crate::mesh::mesh_positions;
use crate::mesh::mesh_uvs;
use crate::mesh::MeshBuffers;

verus! {

/// One placed chunk of a tiled world: its grid coordinate, its
/// world-space translation along `x` and `z` (in whole cells; the `y`
/// translation is always zero), its voxel grid, and its mesh.
pub struct WorldTile {
    pub grid_x: usize,
    pub grid_z: usize,
    pub offset_x: i64,
    pub offset_z: i64,
    pub chunk: Chunk,
    pub mesh: MeshBuffers,
}

/// Whether one build request is acceptable: valid chunk extents, exactly
/// one sample field per tile, each field covering every cell of its
/// chunk, and tile translations that fit `i64`.
pub open spec fn world_params_ok(
    width: int,
    height: int,
    grid_w: int,
    grid_d: int,
    fields: Seq<Seq<bool>>,
) -> bool {
    &&& dims_ok(width, height)
    &&& fields.len() == grid_w * grid_d
    &&& (forall|k: int| 0 <= k < fields.len()
        ==> (#[trigger] fields[k]).len() == width * width * height)
    &&& grid_w * width <= i64::MAX as int
    &&& grid_d * width <= i64::MAX as int
}

/// What `build_world` promises of tile `k`: its grid coordinate in
/// row-major order, its translation, the grid generated from its own
/// sample field, and that grid's mesh with vertex indices from zero.
pub open spec fn tile_ok(
    t: WorldTile,
    k: int,
    width: int,
    height: int,
    grid_d: int,
    field: Seq<bool>,
) -> bool {
    &&& t.grid_x as int == k / grid_d
    &&& t.grid_z as int == k % grid_d
    &&& t.offset_x as int == (t.grid_x as int) * width
    &&& t.offset_z as int == (t.grid_z as int) * width
    &&& t.chunk@ == generated_view(width, height, field)
    &&& t.chunk@.wf()
    &&& t.mesh.positions@ == mesh_positions(t.chunk@)
    &&& t.mesh.normals@ == mesh_normals(t.chunk@)
    &&& t.mesh.uvs@ == mesh_uvs(t.chunk@)
    &&& t.mesh.indices@ == mesh_indices(t.chunk@, 0)
}

/// Builds a tiled world: for each grid coordinate, one chunk generated
/// from that tile's sample field (`fields[grid_x * grid_d + grid_z]`,
/// indexed by `grid_index` within the tile) and meshed independently,
/// with its translation recorded. Returns `None` exactly when the
/// request is rejected.
#[verifier::loop_isolation(false)]
pub fn build_world(
    width: usize,
    height: usize,
    grid_w: usize,
    grid_d: usize,
    fields: &Vec<Vec<bool>>,
) -> (r: Option<Vec<WorldTile>>)
    ensures
        r.is_some() <==> world_params_ok(
            width as int, height as int, grid_w as int, grid_d as int, fields.deep_view()),
        r matches Some(ts) ==> ts@.len() == (grid_w as int) * (grid_d as int)
            && forall|k: int| 0 <= k < ts@.len() ==> tile_ok(
                #[trigger] ts@[k], k, width as int, height as int, grid_d as int,
                fields.deep_view()[k]),
{
    let ghost fv = fields.deep_view();
    let n = fields.len();
    proof {
        assert(fv.len() == fields@.len());
        assert forall|j: int| 0 <= j < fv.len() implies #[trigger] fv[j] == fields@[j]@ by {
            assert(fv[j] =~= fields@[j]@);
        }
    }
    let vol = match checked_volume(width, height) {
        Some(v) => v,
        None => {
            return None;
        },
    };
    let total = match grid_w.checked_mul(grid_d) {
        Some(t) => t,
        None => {
            return None;
        },
    };
    if n != total {
        return None;
    }
    let limit: u64 = 0x7fff_ffff_ffff_ffff;
    let gww = match (grid_w as u64).checked_mul(width as u64) {
        Some(p) => p,
        None => {
            return None;
        },
    };
    if gww > limit {
        return None;
    }
    let gdw = match (grid_d as u64).checked_mul(width as u64) {
        Some(p) => p,
        None => {
            return None;
        },
    };
    if gdw > limit {
        return None;
    }
    let mut k0: usize = 0;
    while k0 < n
        invariant
            k0 <= n,
            forall|j: int| 0 <= j < k0 as int ==> (#[trigger] fv[j]).len() == vol as int,
        decreases n - k0,
    {
        if fields[k0].len() != vol {
            proof {
                assert(fv[k0 as int].len()
                    != (width as int) * (width as int) * (height as int));
            }
            return None;
        }
        k0 += 1;
    }
    proof {
        assert(width as int <= (width as int) * (width as int) * (height as int))
            by (nonlinear_arith)
            requires
                1 <= width as int,
                1 <= height as int;
    }
    let mut tiles: Vec<WorldTile> = Vec::new();
    let mut gx: usize = 0;
    while gx < grid_w
        invariant
            gx <= grid_w,
            tiles@.len() == (gx as int) * (grid_d as int),
            tiles@.len() <= n as int,
            forall|k: int| 0 <= k < tiles@.len() ==> tile_ok(
                #[trigger] tiles@[k], k, width as int, height as int, grid_d as int, fv[k]),
        decreases grid_w - gx,
    {
        let mut gz: usize = 0;
        while gz < grid_d
            invariant
                gz <= grid_d,
                gx < grid_w,
                tiles@.len() == (gx as int) * (grid_d as int) + gz as int,
                tiles@.len() <= n as int,
                forall|k: int| 0 <= k < tiles@.len() ==> tile_ok(
                    #[trigger] tiles@[k], k, width as int, height as int, grid_d as int,
                    fv[k]),
            decreases grid_d - gz,
        {
            let k = tiles.len();
            proof {
                assert((gx as int) * (grid_d as int) + (grid_d as int)
                    == (gx as int + 1) * (grid_d as int)) by (nonlinear_arith);
                assert((gx as int + 1) * (grid_d as int)
                    <= (grid_w as int) * (grid_d as int)) by (nonlinear_arith)
                    requires
                        gx as int + 1 <= grid_w as int,
                        0 <= grid_d as int;
                assert(k < n);
            }
            let mut chunk = match Chunk::new(width, height) {
                Some(c) => c,
                None => {
                    return None;
                },
            };
            proof {
                assert(fv[k as int].len() == vol as int);
                assert(fields@[k as int]@.len() == vol as int);
            }
            chunk.generate(&fields[k]);
            let mesh = chunk.create_mesh();
            proof {
                assert((gx as int) * (width as int) <= (grid_w as int) * (width as int))
                    by (nonlinear_arith)
                    requires
                        0 <= gx as int <= grid_w as int,
                        0 <= width as int;
                assert((gz as int) * (width as int) <= (grid_d as int) * (width as int))
                    by (nonlinear_arith)
                    requires
                        0 <= gz as int <= grid_d as int,
                        0 <= width as int;
                assert(grid_w as int <= (grid_w as int) * (width as int)) by (nonlinear_arith)
                    requires
                        1 <= width as int,
                        0 <= grid_w as int;
                assert(grid_d as int <= (grid_d as int) * (width as int)) by (nonlinear_arith)
                    requires
                        1 <= width as int,
                        0 <= grid_d as int;
            }
            let ox: i64 = (gx as i64) * (width as i64);
            let oz: i64 = (gz as i64) * (width as i64);
            let tile = WorldTile {
                grid_x: gx,
                grid_z: gz,
                offset_x: ox,
                offset_z: oz,
                chunk,
                mesh,
            };
            proof {
                lemma_fundamental_div_mod_converse(
                    k as int, grid_d as int, gx as int, gz as int);
                assert(tile_ok(
                    tile, k as int, width as int, height as int, grid_d as int,
                    fv[k as int]));
            }
            tiles.push(tile);
            gz += 1;
        }
        proof {
            assert((gx as int) * (grid_d as int) + (grid_d as int)
                == (gx as int + 1) * (grid_d as int)) by (nonlinear_arith);
        }
        gx += 1;
    }
    proof {
        assert(world_params_ok(
            width as int, height as int, grid_w as int, grid_d as int, fv));
    }
    Some(tiles)
}

} // verus!
