//! A chunk: a dense `width x height x width` grid of voxel identifiers,
//! stored as one flat buffer addressed by `(x * height + y) * width + z`.

use vstd::prelude::*;

verus! {

/// The reserved voxel identifier for empty space.
pub const AIR: u64 = 0;

/// The voxel identifier written for solid cells by generation.
pub const SOLID: u64 = 1;

/// Width and depth, in cells, of the reference chunk size.
pub const CHUNK_WIDTH: usize = 16;

/// Height, in cells, of the reference chunk size.
pub const CHUNK_HEIGHT: usize = 256;

/// Largest allowed cell count of one chunk. A chunk of `n` cells emits at
/// most `6 n` faces of 4 vertices each, so this cap keeps every vertex
/// index (24 per cell at worst) within `u32`.
pub const MAX_CELLS: usize = 178956970;

/// Largest width compatible with `MAX_CELLS`: any well-formed chunk has
/// `width * width <= MAX_CELLS`, so `width <= MAX_WIDTH`.
pub const MAX_WIDTH: usize = 13377;

/// The mathematical content of a chunk: its two extents and the flat
/// sequence of voxel identifiers.
#[verifier::ext_equal]
pub ghost struct GridView {
    pub width: int,
    pub height: int,
    pub cells: Seq<u64>,
}

/// Flat position of cell `(x, y, z)` in a `w`-wide, `h`-high grid.
pub open spec fn grid_index(w: int, h: int, x: int, y: int, z: int) -> int {
    (x * h + y) * w + z
}

/// Whether `w` and `h` are acceptable chunk extents.
pub open spec fn dims_ok(w: int, h: int) -> bool {
    &&& 1 <= w
    &&& 1 <= h
    &&& w * w * h <= MAX_CELLS as int
}

impl GridView {
    /// A well-formed grid: positive extents, the index cap respected, and
    /// exactly one stored voxel per cell.
    pub open spec fn wf(self) -> bool {
        &&& dims_ok(self.width, self.height)
        &&& self.cells.len() == self.width * self.width * self.height
    }

    pub open spec fn in_bounds(self, x: int, y: int, z: int) -> bool {
        &&& 0 <= x < self.width
        &&& 0 <= y < self.height
        &&& 0 <= z < self.width
    }

    /// The voxel stored at an in-bounds cell.
    pub open spec fn cell(self, x: int, y: int, z: int) -> u64 {
        self.cells[grid_index(self.width, self.height, x, y, z)]
    }

    /// The visibility rule's notion of solidity: out-of-range cells count
    /// as air, never as an error.
    pub open spec fn solid(self, x: int, y: int, z: int) -> bool {
        self.in_bounds(x, y, z) && self.cell(x, y, z) != AIR
    }
}

/// The grid that one generation pass over `samples` produces: cell `i` is
/// `SOLID` exactly where `samples[i]` classified the cell as solid.
pub open spec fn generated_view(w: int, h: int, samples: Seq<bool>) -> GridView {
    GridView {
        width: w,
        height: h,
        cells: Seq::new((w * w * h) as nat, |i: int| if samples[i] { SOLID } else { AIR }),
    }
}

proof fn lemma_dims_bound_raw(w: int, h: int, vol: int)
    by (nonlinear_arith)
    requires
        1 <= w,
        1 <= h,
        vol == w * w * h,
        vol <= 178956970,
    ensures
        w <= 13377,
        h <= 178956970,
        w <= vol,
        h <= vol,
{
}

/// Bounds every caller needs on a well-formed grid's extents.
pub proof fn lemma_dims_bound(v: GridView)
    requires
        v.wf(),
    ensures
        1 <= v.width <= MAX_WIDTH as int,
        1 <= v.height <= MAX_CELLS as int,
        v.cells.len() <= MAX_CELLS as int,
        v.width <= v.cells.len(),
        v.height <= v.cells.len(),
{
    lemma_dims_bound_raw(v.width, v.height, v.width * v.width * v.height);
}

/// Range of the flat index, and of the partial products that compute it.
pub proof fn lemma_grid_index_bounds(w: int, h: int, x: int, y: int, z: int)
    by (nonlinear_arith)
    requires
        0 <= x < w,
        0 <= y < h,
        0 <= z < w,
    ensures
        0 <= x * h,
        0 <= x * h + y < w * h,
        x * h + y <= (x * h + y) * w,
        0 <= (x * h + y) * w + z < w * w * h,
{
}

/// The exact cell count of the given extents, or `None` when they are
/// rejected: a zero extent, or so many cells that a fully meshed chunk
/// could not be indexed by `u32`.
pub fn checked_volume(width: usize, height: usize) -> (r: Option<usize>)
    ensures
        r.is_some() <==> dims_ok(width as int, height as int),
        r matches Some(vol) ==> vol as int
            == (width as int) * (width as int) * (height as int),
{
    if width == 0 || height == 0 {
        return None;
    }
    let ww = match width.checked_mul(width) {
        Some(v) => v,
        None => {
            proof {
                assert(width * width <= width * width * height) by (nonlinear_arith)
                    requires 1 <= height, 0 <= width;
            }
            return None;
        },
    };
    let vol = match ww.checked_mul(height) {
        Some(v) => v,
        None => {
            return None;
        },
    };
    if vol > MAX_CELLS {
        return None;
    }
    Some(vol)
}

/// One axis-aligned cube of the world, owning its voxel data exclusively.
/// It is allocated all-air, filled by one generation pass, and then read
/// by the mesher.
pub struct Chunk {
    voxels: Vec<u64>,
    width: usize,
    height: usize,
}

impl View for Chunk {
    type V = GridView;

    closed spec fn view(&self) -> GridView {
        GridView { width: self.width as int, height: self.height as int, cells: self.voxels@ }
    }
}

impl Chunk {
    /// Allocates an all-air chunk of the given extents, or `None` when the
    /// extents are zero or so large that a fully meshed chunk could not be
    /// indexed by `u32`.
    pub fn new(width: usize, height: usize) -> (r: Option<Chunk>)
        ensures
            r.is_some() <==> dims_ok(width as int, height as int),
            r matches Some(c) ==> c@.wf()
                && c@.width == width as int
                && c@.height == height as int
                && forall|i: int| 0 <= i < c@.cells.len() ==> c@.cells[i] == AIR,
    {
        let vol = match checked_volume(width, height) {
            Some(v) => v,
            None => {
                return None;
            },
        };
        let voxels: Vec<u64> = vec![AIR; vol];
        proof {
            assert(voxels@ =~= Seq::new(vol as nat, |i: int| AIR));
        }
        Some(Chunk { voxels, width, height })
    }

    /// The chunk's width (and depth), in cells.
    pub fn width(&self) -> (w: usize)
        ensures
            w as int == self@.width,
    {
        self.width
    }

    /// The chunk's height, in cells.
    pub fn height(&self) -> (h: usize)
        ensures
            h as int == self@.height,
    {
        self.height
    }

    /// The voxel identifier at an in-bounds cell.
    pub fn voxel(&self, x: usize, y: usize, z: usize) -> (v: u64)
        requires
            self@.wf(),
            (x as int) < self@.width,
            (y as int) < self@.height,
            (z as int) < self@.width,
        ensures
            v == self@.cell(x as int, y as int, z as int),
    {
        proof {
            lemma_dims_bound(self@);
            lemma_grid_index_bounds(
                self@.width, self@.height, x as int, y as int, z as int,
            );
        }
        let idx = (x * self.height + y) * self.width + z;
        self.voxels[idx]
    }

    /// Solidity of an arbitrary coordinate: out-of-range cells are air.
    pub fn solid_at(&self, x: i64, y: i64, z: i64) -> (b: bool)
        requires
            self@.wf(),
        ensures
            b == self@.solid(x as int, y as int, z as int),
    {
        proof {
            lemma_dims_bound(self@);
        }
        if x < 0 || y < 0 || z < 0 {
            return false;
        }
        if x >= self.width as i64 || y >= self.height as i64 || z >= self.width as i64 {
            return false;
        }
        self.voxel(x as usize, y as usize, z as usize) != AIR
    }

    /// One generation pass: visits every cell exactly once and writes
    /// `SOLID` where its sample classified the world coordinate as solid,
    /// `AIR` elsewhere. `samples` is indexed by `grid_index`.
    #[verifier::loop_isolation(false)]
    pub fn generate(&mut self, samples: &Vec<bool>)
        requires
            old(self)@.wf(),
            samples@.len() == old(self)@.cells.len(),
        ensures
            final(self)@ == generated_view(old(self)@.width, old(self)@.height, samples@),
            final(self)@.wf(),
    {
        let n = self.voxels.len();
        let mut out: Vec<u64> = Vec::new();
        let mut i: usize = 0;
        while i < n
            invariant
                i <= n,
                out@.len() == i as int,
                forall|j: int| 0 <= j < i as int
                    ==> out@[j] == (if samples@[j] { SOLID } else { AIR }),
            decreases n - i,
        {
            if samples[i] {
                out.push(SOLID);
            } else {
                out.push(AIR);
            }
            i += 1;
        }
        self.voxels = out;
        proof {
            assert(self@.cells =~= generated_view(
                old(self)@.width, old(self)@.height, samples@).cells);
            assert(self@ =~= generated_view(old(self)@.width, old(self)@.height, samples@));
        }
    }
}

} // verus!
