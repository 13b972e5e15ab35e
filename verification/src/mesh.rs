//! The mesher: walks every cell of a chunk and, for each solid cell,
//! emits one quad per face direction whose neighbor is out of range or
//! air. Faces are suppressed only when the neighbor exists and is solid.
//!
//! The six directions are evaluated in the fixed order front `+z`,
//! back `-z`, right `+x`, left `-x`, top `+y`, bottom `-y`; cells are
//! walked with `x` outermost, then `y`, then `z`. Positions are in
//! half-cell units (cell center `2c`, corners `2c +- 1`), normals are
//! unit axis vectors, and texture coordinates are the fixed 0/1 quad
//! of each face.

use vstd::prelude::*;

use crate::chunk::AIR;
use crate::chunk::Chunk;
use crate::chunk::GridView;
use crate::chunk::generated_view;
use crate::chunk::lemma_dims_bound;
use crate::chunk::MAX_CELLS;
use crate::chunk::MAX_WIDTH;

verus! {

/// Face direction: toward `+z`.
pub const DIR_FRONT: usize = 0;

/// Face direction: toward `-z`.
pub const DIR_BACK: usize = 1;

/// Face direction: toward `+x`.
pub const DIR_RIGHT: usize = 2;

/// Face direction: toward `-x`.
pub const DIR_LEFT: usize = 3;

/// Face direction: toward `+y`.
pub const DIR_TOP: usize = 4;

/// Face direction: toward `-y`.
pub const DIR_BOTTOM: usize = 5;

/// A vertex position or normal: three integer components. Positions are
/// in half-cell units; normals are unit axis vectors.
#[derive(Clone, Copy, PartialEq, Eq, Structural, Debug)]
pub struct Vertex3 {
    pub x: i32,
    pub y: i32,
    pub z: i32,
}

/// A texture coordinate; both components are 0 or 1.
#[derive(Clone, Copy, PartialEq, Eq, Structural, Debug)]
pub struct Uv {
    pub u: i32,
    pub v: i32,
}

/// The four parallel buffers of one meshed chunk, handed by value to the
/// rendering and collision collaborators.
pub struct MeshBuffers {
    pub positions: Vec<Vertex3>,
    pub normals: Vec<Vertex3>,
    pub uvs: Vec<Uv>,
    pub indices: Vec<u32>,
}

/// One emitted quad, identified by its cell and face direction.
pub ghost struct FaceId {
    pub x: int,
    pub y: int,
    pub z: int,
    pub dir: int,
}

/// Unit step of a face direction along `x`.
pub open spec fn dir_dx(d: int) -> int {
    if d == DIR_RIGHT as int { 1 } else if d == DIR_LEFT as int { -1 } else { 0 }
}

/// Unit step of a face direction along `y`.
pub open spec fn dir_dy(d: int) -> int {
    if d == DIR_TOP as int { 1 } else if d == DIR_BOTTOM as int { -1 } else { 0 }
}

/// Unit step of a face direction along `z`.
pub open spec fn dir_dz(d: int) -> int {
    if d == DIR_FRONT as int { 1 } else if d == DIR_BACK as int { -1 } else { 0 }
}

/// The visibility rule: a face is emitted exactly when its cell is solid
/// and the neighbor it points at is not (out-of-range neighbors are air).
pub open spec fn face_visible(v: GridView, x: int, y: int, z: int, d: int) -> bool {
    v.solid(x, y, z) && !v.solid(x + dir_dx(d), y + dir_dy(d), z + dir_dz(d))
}

/// Corner `k` of face `d`, as half-cell offsets from the cell center.
/// The winding of each quad is counter-clockwise seen from outside.
pub open spec fn corner_off(d: int, k: int) -> (int, int, int) {
    if d == DIR_FRONT as int {
        if k == 0 { (-1, -1, 1) } else if k == 1 { (1, -1, 1) }
        else if k == 2 { (1, 1, 1) } else { (-1, 1, 1) }
    } else if d == DIR_BACK as int {
        if k == 0 { (-1, 1, -1) } else if k == 1 { (1, 1, -1) }
        else if k == 2 { (1, -1, -1) } else { (-1, -1, -1) }
    } else if d == DIR_RIGHT as int {
        if k == 0 { (1, -1, -1) } else if k == 1 { (1, 1, -1) }
        else if k == 2 { (1, 1, 1) } else { (1, -1, 1) }
    } else if d == DIR_LEFT as int {
        if k == 0 { (-1, -1, 1) } else if k == 1 { (-1, 1, 1) }
        else if k == 2 { (-1, 1, -1) } else { (-1, -1, -1) }
    } else if d == DIR_TOP as int {
        if k == 0 { (1, 1, -1) } else if k == 1 { (-1, 1, -1) }
        else if k == 2 { (-1, 1, 1) } else { (1, 1, 1) }
    } else {
        if k == 0 { (1, -1, 1) } else if k == 1 { (-1, -1, 1) }
        else if k == 2 { (-1, -1, -1) } else { (1, -1, -1) }
    }
}

/// Texture corner `k` of face `d`.
pub open spec fn uv_off(d: int, k: int) -> (int, int) {
    if d == DIR_FRONT as int || d == DIR_RIGHT as int || d == DIR_BOTTOM as int {
        if k == 0 { (0, 0) } else if k == 1 { (1, 0) } else if k == 2 { (1, 1) } else { (0, 1) }
    } else {
        if k == 0 { (1, 0) } else if k == 1 { (0, 0) } else if k == 2 { (0, 1) } else { (1, 1) }
    }
}

/// Index offset of slot `p` within one quad's two triangles.
pub open spec fn tri_step(p: int) -> int {
    if p == 0 { 0 } else if p == 1 { 1 } else if p == 2 { 2 }
    else if p == 3 { 2 } else if p == 4 { 3 } else { 0 }
}

/// Position of corner `k` of an emitted face, in half-cell units.
pub open spec fn corner_vertex(f: FaceId, k: int) -> Vertex3 {
    Vertex3 {
        x: (2 * f.x + corner_off(f.dir, k).0) as i32,
        y: (2 * f.y + corner_off(f.dir, k).1) as i32,
        z: (2 * f.z + corner_off(f.dir, k).2) as i32,
    }
}

/// The constant outward normal of face direction `d`.
pub open spec fn normal_vertex(d: int) -> Vertex3 {
    Vertex3 { x: dir_dx(d) as i32, y: dir_dy(d) as i32, z: dir_dz(d) as i32 }
}

/// Texture coordinate of corner `k` of face direction `d`.
pub open spec fn uv_vertex(d: int, k: int) -> Uv {
    Uv { u: uv_off(d, k).0 as i32, v: uv_off(d, k).1 as i32 }
}

/// The faces that cell `(x, y, z)` emits among directions `0 .. d`, in
/// direction order.
pub open spec fn cell_dirs_upto(v: GridView, x: int, y: int, z: int, d: int) -> Seq<FaceId>
    decreases d,
{
    if d <= 0 {
        Seq::empty()
    } else {
        cell_dirs_upto(v, x, y, z, d - 1)
            + if face_visible(v, x, y, z, d - 1) {
                seq![(FaceId { x, y, z, dir: d - 1 })]
            } else {
                Seq::empty()
            }
    }
}

/// All faces of cell `(x, y, z)`, in direction order.
pub open spec fn cell_faces(v: GridView, x: int, y: int, z: int) -> Seq<FaceId> {
    cell_dirs_upto(v, x, y, z, 6)
}

/// Faces of the cells `(x, y, 0 .. z)`, in walk order.
pub open spec fn row_faces_upto(v: GridView, x: int, y: int, z: int) -> Seq<FaceId>
    decreases z,
{
    if z <= 0 {
        Seq::empty()
    } else {
        row_faces_upto(v, x, y, z - 1) + cell_faces(v, x, y, z - 1)
    }
}

/// Faces of the cells `(x, 0 .. y, *)`, in walk order.
pub open spec fn slab_faces_upto(v: GridView, x: int, y: int) -> Seq<FaceId>
    decreases y,
{
    if y <= 0 {
        Seq::empty()
    } else {
        slab_faces_upto(v, x, y - 1) + row_faces_upto(v, x, y - 1, v.width)
    }
}

/// Faces of the cells `(0 .. x, *, *)`, in walk order.
pub open spec fn faces_upto(v: GridView, x: int) -> Seq<FaceId>
    decreases x,
{
    if x <= 0 {
        Seq::empty()
    } else {
        faces_upto(v, x - 1) + slab_faces_upto(v, x - 1, v.height)
    }
}

/// Every face the mesher emits for grid `v`, in emission order.
pub open spec fn face_list(v: GridView) -> Seq<FaceId> {
    faces_upto(v, v.width)
}

/// How many faces the mesher emits for grid `v`.
pub open spec fn face_count(v: GridView) -> int {
    face_list(v).len() as int
}

/// The vertex positions that a list of faces contributes, four per face.
pub open spec fn verts_of(fl: Seq<FaceId>) -> Seq<Vertex3> {
    Seq::new(4 * fl.len(), |i: int| corner_vertex(fl[i / 4], i % 4))
}

/// The normals that a list of faces contributes, four per face.
pub open spec fn normals_of(fl: Seq<FaceId>) -> Seq<Vertex3> {
    Seq::new(4 * fl.len(), |i: int| normal_vertex(fl[i / 4].dir))
}

/// The texture coordinates that a list of faces contributes.
pub open spec fn uvs_of(fl: Seq<FaceId>) -> Seq<Uv> {
    Seq::new(4 * fl.len(), |i: int| uv_vertex(fl[i / 4].dir, i % 4))
}

/// The triangle indices that a list of faces contributes: each quad `i`
/// yields the counter-clockwise pair `{0, 1, 2, 2, 3, 0}` relative to its
/// own first vertex `base + 4 i`.
pub open spec fn indices_of(fl: Seq<FaceId>, base: int) -> Seq<u32> {
    Seq::new(6 * fl.len(), |j: int| (base + 4 * (j / 6) + tri_step(j % 6)) as u32)
}

/// The whole position buffer of grid `v`.
pub open spec fn mesh_positions(v: GridView) -> Seq<Vertex3> {
    verts_of(face_list(v))
}

/// The whole normal buffer of grid `v`.
pub open spec fn mesh_normals(v: GridView) -> Seq<Vertex3> {
    normals_of(face_list(v))
}

/// The whole texture-coordinate buffer of grid `v`.
pub open spec fn mesh_uvs(v: GridView) -> Seq<Uv> {
    uvs_of(face_list(v))
}

/// The whole index buffer of grid `v`, with vertex indices starting at
/// `base`.
pub open spec fn mesh_indices(v: GridView, base: int) -> Seq<u32> {
    indices_of(face_list(v), base)
}

/// Unit step of face direction `d`, for neighbor lookups.
fn dir_vec(d: usize) -> (r: (i64, i64, i64))
    requires
        d < 6,
    ensures
        r.0 as int == dir_dx(d as int),
        r.1 as int == dir_dy(d as int),
        r.2 as int == dir_dz(d as int),
{
    if d == DIR_FRONT { (0, 0, 1) }
    else if d == DIR_BACK { (0, 0, -1) }
    else if d == DIR_RIGHT { (1, 0, 0) }
    else if d == DIR_LEFT { (-1, 0, 0) }
    else if d == DIR_TOP { (0, 1, 0) }
    else { (0, -1, 0) }
}

/// Half-cell offsets of corner `k` of face direction `d`.
fn corner_vec(d: usize, k: usize) -> (r: (i32, i32, i32))
    requires
        d < 6,
        k < 4,
    ensures
        r.0 as int == corner_off(d as int, k as int).0,
        r.1 as int == corner_off(d as int, k as int).1,
        r.2 as int == corner_off(d as int, k as int).2,
{
    if d == DIR_FRONT {
        if k == 0 { (-1, -1, 1) } else if k == 1 { (1, -1, 1) }
        else if k == 2 { (1, 1, 1) } else { (-1, 1, 1) }
    } else if d == DIR_BACK {
        if k == 0 { (-1, 1, -1) } else if k == 1 { (1, 1, -1) }
        else if k == 2 { (1, -1, -1) } else { (-1, -1, -1) }
    } else if d == DIR_RIGHT {
        if k == 0 { (1, -1, -1) } else if k == 1 { (1, 1, -1) }
        else if k == 2 { (1, 1, 1) } else { (1, -1, 1) }
    } else if d == DIR_LEFT {
        if k == 0 { (-1, -1, 1) } else if k == 1 { (-1, 1, 1) }
        else if k == 2 { (-1, 1, -1) } else { (-1, -1, -1) }
    } else if d == DIR_TOP {
        if k == 0 { (1, 1, -1) } else if k == 1 { (-1, 1, -1) }
        else if k == 2 { (-1, 1, 1) } else { (1, 1, 1) }
    } else {
        if k == 0 { (1, -1, 1) } else if k == 1 { (-1, -1, 1) }
        else if k == 2 { (-1, -1, -1) } else { (1, -1, -1) }
    }
}

/// The outward normal of face direction `d`.
fn normal_vec(d: usize) -> (r: Vertex3)
    requires
        d < 6,
    ensures
        r == normal_vertex(d as int),
{
    if d == DIR_FRONT { Vertex3 { x: 0, y: 0, z: 1 } }
    else if d == DIR_BACK { Vertex3 { x: 0, y: 0, z: -1 } }
    else if d == DIR_RIGHT { Vertex3 { x: 1, y: 0, z: 0 } }
    else if d == DIR_LEFT { Vertex3 { x: -1, y: 0, z: 0 } }
    else if d == DIR_TOP { Vertex3 { x: 0, y: 1, z: 0 } }
    else { Vertex3 { x: 0, y: -1, z: 0 } }
}

/// Texture corner `k` of face direction `d`.
fn uv_vec(d: usize, k: usize) -> (r: Uv)
    requires
        d < 6,
        k < 4,
    ensures
        r == uv_vertex(d as int, k as int),
{
    if d == DIR_FRONT || d == DIR_RIGHT || d == DIR_BOTTOM {
        if k == 0 { Uv { u: 0, v: 0 } } else if k == 1 { Uv { u: 1, v: 0 } }
        else if k == 2 { Uv { u: 1, v: 1 } } else { Uv { u: 0, v: 1 } }
    } else {
        if k == 0 { Uv { u: 1, v: 0 } } else if k == 1 { Uv { u: 0, v: 0 } }
        else if k == 2 { Uv { u: 0, v: 1 } } else { Uv { u: 1, v: 1 } }
    }
}

/// Appends one face's four vertices and six indices to the buffers.
#[verifier::loop_isolation(false)]
fn push_face(
    positions: &mut Vec<Vertex3>,
    normals: &mut Vec<Vertex3>,
    uvs: &mut Vec<Uv>,
    indices: &mut Vec<u32>,
    x: usize,
    y: usize,
    z: usize,
    d: usize,
    next: u32,
)
    requires
        d < 6,
        x as int <= MAX_WIDTH as int,
        y as int <= MAX_CELLS as int,
        z as int <= MAX_WIDTH as int,
        next as int + 4 <= u32::MAX as int,
    ensures
        final(positions)@ == old(positions)@
            + Seq::new(4, |k: int| corner_vertex(
                (FaceId { x: x as int, y: y as int, z: z as int, dir: d as int }), k)),
        final(normals)@ == old(normals)@ + Seq::new(4, |k: int| normal_vertex(d as int)),
        final(uvs)@ == old(uvs)@ + Seq::new(4, |k: int| uv_vertex(d as int, k)),
        final(indices)@ == old(indices)@
            + seq![next, (next + 1) as u32, (next + 2) as u32, (next + 2) as u32, (next + 3) as u32, next],
{
    let ghost f = FaceId { x: x as int, y: y as int, z: z as int, dir: d as int };
    let cx: i32 = 2 * (x as i32);
    let cy: i32 = 2 * (y as i32);
    let cz: i32 = 2 * (z as i32);
    let mut k: usize = 0;
    while k < 4
        invariant
            k <= 4,
            positions@ == old(positions)@
                + Seq::new(k as nat, |i: int| corner_vertex(f, i)),
            normals@ == old(normals)@ + Seq::new(k as nat, |i: int| normal_vertex(d as int)),
            uvs@ == old(uvs)@ + Seq::new(k as nat, |i: int| uv_vertex(d as int, i)),
            indices@ == old(indices)@,
        decreases 4 - k,
    {
        let off = corner_vec(d, k);
        positions.push(Vertex3 { x: cx + off.0, y: cy + off.1, z: cz + off.2 });
        normals.push(normal_vec(d));
        uvs.push(uv_vec(d, k));
        proof {
            assert(positions@ =~= old(positions)@
                + Seq::new((k + 1) as nat, |i: int| corner_vertex(f, i)));
            assert(normals@ =~= old(normals)@
                + Seq::new((k + 1) as nat, |i: int| normal_vertex(d as int)));
            assert(uvs@ =~= old(uvs)@
                + Seq::new((k + 1) as nat, |i: int| uv_vertex(d as int, i)));
        }
        k += 1;
    }
    indices.push(next);
    indices.push(next + 1);
    indices.push(next + 2);
    indices.push(next + 2);
    indices.push(next + 3);
    indices.push(next);
    proof {
        assert(positions@ =~= old(positions)@ + Seq::new(4, |i: int| corner_vertex(f, i)));
        assert(normals@ =~= old(normals)@ + Seq::new(4, |i: int| normal_vertex(d as int)));
        assert(uvs@ =~= old(uvs)@ + Seq::new(4, |i: int| uv_vertex(d as int, i)));
        assert(indices@ =~= old(indices)@
            + seq![next, (next + 1) as u32, (next + 2) as u32, (next + 2) as u32, (next + 3) as u32, next]);
    }
}

/// Appending one face to a face list appends exactly its four vertices,
/// four normals, four texture corners and six indices to the buffers the
/// list denotes.
proof fn lemma_buffers_push(fl: Seq<FaceId>, f: FaceId, base: int)
    ensures
        verts_of(fl.push(f)) == verts_of(fl) + Seq::new(4, |k: int| corner_vertex(f, k)),
        normals_of(fl.push(f)) == normals_of(fl) + Seq::new(4, |k: int| normal_vertex(f.dir)),
        uvs_of(fl.push(f)) == uvs_of(fl) + Seq::new(4, |k: int| uv_vertex(f.dir, k)),
        indices_of(fl.push(f), base) == indices_of(fl, base) + seq![
            (base + 4 * fl.len()) as u32,
            (base + 4 * fl.len() + 1) as u32,
            (base + 4 * fl.len() + 2) as u32,
            (base + 4 * fl.len() + 2) as u32,
            (base + 4 * fl.len() + 3) as u32,
            (base + 4 * fl.len()) as u32,
        ],
{
    let n = fl.len() as int;
    assert forall|i: int| 0 <= i < 4 * (n + 1)
        implies (verts_of(fl.push(f))[i]
            == (verts_of(fl) + Seq::new(4, |k: int| corner_vertex(f, k)))[i]
        && normals_of(fl.push(f))[i]
            == (normals_of(fl) + Seq::new(4, |k: int| normal_vertex(f.dir)))[i]
        && uvs_of(fl.push(f))[i]
            == (uvs_of(fl) + Seq::new(4, |k: int| uv_vertex(f.dir, k)))[i]) by {
        if i < 4 * n {
            assert(0 <= i / 4 < n);
            assert(fl.push(f)[i / 4] == fl[i / 4]);
        } else {
            assert(i / 4 == n);
            assert(fl.push(f)[n] == f);
        }
    }
    assert(verts_of(fl.push(f)) =~= verts_of(fl) + Seq::new(4, |k: int| corner_vertex(f, k)));
    assert(normals_of(fl.push(f)) =~= normals_of(fl)
        + Seq::new(4, |k: int| normal_vertex(f.dir)));
    assert(uvs_of(fl.push(f)) =~= uvs_of(fl) + Seq::new(4, |k: int| uv_vertex(f.dir, k)));
    let tail = seq![
        (base + 4 * fl.len()) as u32,
        (base + 4 * fl.len() + 1) as u32,
        (base + 4 * fl.len() + 2) as u32,
        (base + 4 * fl.len() + 2) as u32,
        (base + 4 * fl.len() + 3) as u32,
        (base + 4 * fl.len()) as u32,
    ];
    assert forall|j: int| 0 <= j < 6 * (n + 1)
        implies indices_of(fl.push(f), base)[j] == (indices_of(fl, base) + tail)[j] by {
        if j < 6 * n {
            assert(0 <= j / 6 < n);
        } else {
            assert(j / 6 == n);
            assert(j % 6 == j - 6 * n);
        }
    }
    assert(indices_of(fl.push(f), base) =~= indices_of(fl, base) + tail);
}

/// A cell's face list through direction `d` holds at most `d` faces.
proof fn lemma_dirs_len(v: GridView, x: int, y: int, z: int, d: int)
    requires
        0 <= d,
    ensures
        cell_dirs_upto(v, x, y, z, d).len() <= d,
    decreases d,
{
    if d > 0 {
        lemma_dirs_len(v, x, y, z, d - 1);
    }
}

/// A cell none of whose directions pass the visibility rule emits no
/// faces; in particular an air cell emits none.
proof fn lemma_no_visible_dirs(v: GridView, x: int, y: int, z: int, d: int)
    requires
        0 <= d,
        forall|dd: int| 0 <= dd < d ==> !face_visible(v, x, y, z, dd),
    ensures
        cell_dirs_upto(v, x, y, z, d) == Seq::<FaceId>::empty(),
    decreases d,
{
    if d > 0 {
        lemma_no_visible_dirs(v, x, y, z, d - 1);
        assert(cell_dirs_upto(v, x, y, z, d) =~= Seq::<FaceId>::empty());
    } else {
        assert(cell_dirs_upto(v, x, y, z, d) =~= Seq::<FaceId>::empty());
    }
}

impl Chunk {
    /// Meshes this chunk with vertex indices starting at `base`: walks
    /// every cell, applies the visibility rule to each of its six faces,
    /// and appends the emitted quads to fresh buffers. The result is
    /// exactly the buffers that `mesh_positions`, `mesh_normals`,
    /// `mesh_uvs` and `mesh_indices` denote for this grid, so the four
    /// buffers stay parallel and every index lands inside
    /// `[base, base + len(positions))`.
    #[verifier::loop_isolation(false)]
    pub fn create_mesh_offset(&self, base: u32) -> (m: MeshBuffers)
        requires
            self@.wf(),
            base as int + 24 * self@.cells.len() <= u32::MAX as int,
        ensures
            m.positions@ == mesh_positions(self@),
            m.normals@ == mesh_normals(self@),
            m.uvs@ == mesh_uvs(self@),
            m.indices@ == mesh_indices(self@, base as int),
            m.positions@.len() == 4 * face_count(self@),
            m.normals@.len() == m.positions@.len(),
            m.uvs@.len() == m.positions@.len(),
            m.indices@.len() == 6 * face_count(self@),
            forall|j: int| 0 <= j < m.indices@.len()
                ==> (base as int) <= (#[trigger] m.indices@[j]) as int
                    && ((m.indices@[j]) as int) < (base as int) + m.positions@.len(),
    {
        let ghost v = self@;
        proof {
            lemma_dims_bound(v);
        }
        let w = self.width();
        let h = self.height();
        let mut positions: Vec<Vertex3> = Vec::new();
        let mut normals: Vec<Vertex3> = Vec::new();
        let mut uvs: Vec<Uv> = Vec::new();
        let mut indices: Vec<u32> = Vec::new();
        let mut next: u32 = base;
        let ghost mut fl: Seq<FaceId> = Seq::empty();
        let ghost mut rem: int = v.cells.len() as int;
        proof {
            assert(positions@ =~= verts_of(fl));
            assert(normals@ =~= normals_of(fl));
            assert(uvs@ =~= uvs_of(fl));
            assert(indices@ =~= indices_of(fl, base as int));
            assert((w as int) * ((h as int) * (w as int)) == v.cells.len())
                by (nonlinear_arith)
                requires
                    v.cells.len() == v.width * v.width * v.height,
                    w as int == v.width,
                    h as int == v.height;
        }
        let mut x: usize = 0;
        while x < w
            invariant
                x <= w,
                fl == faces_upto(v, x as int),
                positions@ == verts_of(fl),
                normals@ == normals_of(fl),
                uvs@ == uvs_of(fl),
                indices@ == indices_of(fl, base as int),
                next as int == base as int + 4 * fl.len(),
                rem == (w as int - x as int) * ((h as int) * (w as int)),
                base as int + 4 * fl.len() + 24 * rem <= u32::MAX as int,
            decreases w - x,
        {
            let mut y: usize = 0;
            proof {
                assert(fl =~= faces_upto(v, x as int) + slab_faces_upto(v, x as int, 0));
            }
            while y < h
                invariant
                    y <= h,
                    x < w,
                    fl == faces_upto(v, x as int) + slab_faces_upto(v, x as int, y as int),
                    positions@ == verts_of(fl),
                    normals@ == normals_of(fl),
                    uvs@ == uvs_of(fl),
                    indices@ == indices_of(fl, base as int),
                    next as int == base as int + 4 * fl.len(),
                    rem == (w as int - x as int) * ((h as int) * (w as int))
                        - (y as int) * (w as int),
                    base as int + 4 * fl.len() + 24 * rem <= u32::MAX as int,
                decreases h - y,
            {
                let mut z: usize = 0;
                proof {
                    assert(fl =~= faces_upto(v, x as int)
                        + slab_faces_upto(v, x as int, y as int)
                        + row_faces_upto(v, x as int, y as int, 0));
                }
                while z < w
                    invariant
                        z <= w,
                        x < w,
                        y < h,
                        fl == faces_upto(v, x as int)
                            + slab_faces_upto(v, x as int, y as int)
                            + row_faces_upto(v, x as int, y as int, z as int),
                        positions@ == verts_of(fl),
                        normals@ == normals_of(fl),
                        uvs@ == uvs_of(fl),
                        indices@ == indices_of(fl, base as int),
                        next as int == base as int + 4 * fl.len(),
                        rem == (w as int - x as int) * ((h as int) * (w as int))
                            - (y as int) * (w as int) - z as int,
                        base as int + 4 * fl.len() + 24 * rem <= u32::MAX as int,
                    decreases w - z,
                {
                    let ghost fl_cell = fl;
                    proof {
                        assert(rem >= 1) by (nonlinear_arith)
                            requires
                                rem == (w as int - x as int) * ((h as int) * (w as int))
                                    - (y as int) * (w as int) - z as int,
                                0 <= x as int && (x as int) < w as int,
                                0 <= y as int && (y as int) < h as int,
                                0 <= z as int && (z as int) < w as int;
                    }
                    if self.voxel(x, y, z) != AIR {
                        let mut d: usize = 0;
                        while d < 6
                            invariant
                                d <= 6,
                                x < w,
                                y < h,
                                z < w,
                                v.solid(x as int, y as int, z as int),
                                fl == fl_cell + cell_dirs_upto(
                                    v, x as int, y as int, z as int, d as int),
                                positions@ == verts_of(fl),
                                normals@ == normals_of(fl),
                                uvs@ == uvs_of(fl),
                                indices@ == indices_of(fl, base as int),
                                next as int == base as int + 4 * fl.len(),
                                rem >= 1,
                                base as int + 4 * fl_cell.len() + 24 * rem
                                    <= u32::MAX as int,
                            decreases 6 - d,
                        {
                            let step = dir_vec(d);
                            let visible = !self.solid_at(
                                x as i64 + step.0,
                                y as i64 + step.1,
                                z as i64 + step.2,
                            );
                            if visible {
                                proof {
                                    lemma_dirs_len(v, x as int, y as int, z as int, d as int);
                                }
                                push_face(
                                    &mut positions, &mut normals, &mut uvs, &mut indices,
                                    x, y, z, d, next,
                                );
                                proof {
                                    let f = FaceId {
                                        x: x as int, y: y as int, z: z as int, dir: d as int,
                                    };
                                    lemma_buffers_push(fl, f, base as int);
                                    fl = fl.push(f);
                                    assert(positions@ =~= verts_of(fl));
                                    assert(normals@ =~= normals_of(fl));
                                    assert(uvs@ =~= uvs_of(fl));
                                    assert(indices@ =~= indices_of(fl, base as int));
                                    assert(fl =~= fl_cell + cell_dirs_upto(
                                        v, x as int, y as int, z as int, d as int + 1));
                                }
                                next = next + 4;
                            } else {
                                proof {
                                    assert(fl =~= fl_cell + cell_dirs_upto(
                                        v, x as int, y as int, z as int, d as int + 1));
                                }
                            }
                            d += 1;
                        }
                    } else {
                        proof {
                            assert forall|dd: int| 0 <= dd < 6
                                implies !face_visible(v, x as int, y as int, z as int, dd) by {}
                            lemma_no_visible_dirs(v, x as int, y as int, z as int, 6);
                            assert(fl =~= fl_cell + cell_dirs_upto(
                                v, x as int, y as int, z as int, 6));
                        }
                    }
                    proof {
                        lemma_dirs_len(v, x as int, y as int, z as int, 6);
                        assert(fl =~= faces_upto(v, x as int)
                            + slab_faces_upto(v, x as int, y as int)
                            + row_faces_upto(v, x as int, y as int, z as int + 1));
                        rem = rem - 1;
                    }
                    z += 1;
                }
                proof {
                    assert(fl =~= faces_upto(v, x as int)
                        + slab_faces_upto(v, x as int, y as int + 1));
                    assert((y as int + 1) * (w as int) == (y as int) * (w as int) + w as int)
                        by (nonlinear_arith);
                }
                y += 1;
            }
            proof {
                assert(fl =~= faces_upto(v, x as int + 1));
                assert((w as int - (x as int + 1)) * ((h as int) * (w as int))
                    == (w as int - x as int) * ((h as int) * (w as int))
                        - (h as int) * (w as int)) by (nonlinear_arith);
            }
            x += 1;
        }
        proof {
            assert(fl == face_list(v));
            assert forall|j: int| 0 <= j < indices@.len()
                implies (base as int) <= (#[trigger] indices@[j]) as int
                    && ((indices@[j]) as int) < (base as int) + positions@.len() by {
                assert(0 <= j / 6 < fl.len());
                assert(0 <= tri_step(j % 6) <= 3);
                assert(indices@[j] as int == base as int + 4 * (j / 6) + tri_step(j % 6));
            }
        }
        MeshBuffers { positions, normals, uvs, indices }
    }

    /// Meshes this chunk with vertex indices starting at zero: the
    /// stand-alone form used when each chunk keeps its own buffers.
    pub fn create_mesh(&self) -> (m: MeshBuffers)
        requires
            self@.wf(),
        ensures
            m.positions@ == mesh_positions(self@),
            m.normals@ == mesh_normals(self@),
            m.uvs@ == mesh_uvs(self@),
            m.indices@ == mesh_indices(self@, 0),
            m.positions@.len() == 4 * face_count(self@),
            m.normals@.len() == m.positions@.len(),
            m.uvs@.len() == m.positions@.len(),
            m.indices@.len() == 6 * face_count(self@),
            forall|j: int| 0 <= j < m.indices@.len()
                ==> ((#[trigger] m.indices@[j]) as int) < m.positions@.len(),
    {
        self.create_mesh_offset(0)
    }
}

proof fn lemma_dirs_membership(v: GridView, x: int, y: int, z: int, d: int, f: FaceId)
    requires
        0 <= d,
    ensures
        cell_dirs_upto(v, x, y, z, d).contains(f) <==> (f.x == x && f.y == y && f.z == z
            && 0 <= f.dir && f.dir < d && face_visible(v, x, y, z, f.dir)),
    decreases d,
{
    let s = cell_dirs_upto(v, x, y, z, d);
    if d > 0 {
        let a = cell_dirs_upto(v, x, y, z, d - 1);
        lemma_dirs_membership(v, x, y, z, d - 1, f);
        if s.contains(f) {
            let i = choose|i: int| 0 <= i < s.len() && s[i] == f;
            if i < a.len() {
                assert(a.contains(f));
            } else {
                assert(face_visible(v, x, y, z, d - 1));
                assert(f == (FaceId { x, y, z, dir: d - 1 }));
            }
        }
        if f.x == x && f.y == y && f.z == z && 0 <= f.dir && f.dir < d
            && face_visible(v, x, y, z, f.dir) {
            if f.dir < d - 1 {
                assert(a.contains(f));
                let i = choose|i: int| 0 <= i < a.len() && a[i] == f;
                assert(s[i] == f);
                assert(s.contains(f));
            } else {
                assert(s[a.len() as int] == f);
                assert(s.contains(f));
            }
        }
    }
}

proof fn lemma_row_membership(v: GridView, x: int, y: int, n: int, f: FaceId)
    requires
        0 <= n,
    ensures
        row_faces_upto(v, x, y, n).contains(f) <==> (f.x == x && f.y == y
            && 0 <= f.z && f.z < n && 0 <= f.dir && f.dir < 6
            && face_visible(v, x, y, f.z, f.dir)),
    decreases n,
{
    let s = row_faces_upto(v, x, y, n);
    if n > 0 {
        let a = row_faces_upto(v, x, y, n - 1);
        let b = cell_faces(v, x, y, n - 1);
        lemma_row_membership(v, x, y, n - 1, f);
        lemma_dirs_membership(v, x, y, n - 1, 6, f);
        if s.contains(f) {
            let i = choose|i: int| 0 <= i < s.len() && s[i] == f;
            if i < a.len() {
                assert(a.contains(f));
            } else {
                assert(b[i - a.len()] == f);
                assert(b.contains(f));
            }
        }
        if f.x == x && f.y == y && 0 <= f.z && f.z < n && 0 <= f.dir && f.dir < 6
            && face_visible(v, x, y, f.z, f.dir) {
            if f.z < n - 1 {
                assert(a.contains(f));
                let i = choose|i: int| 0 <= i < a.len() && a[i] == f;
                assert(s[i] == f);
                assert(s.contains(f));
            } else {
                assert(b.contains(f));
                let i = choose|i: int| 0 <= i < b.len() && b[i] == f;
                assert(s[a.len() + i] == f);
                assert(s.contains(f));
            }
        }
    }
}

proof fn lemma_slab_membership(v: GridView, x: int, n: int, f: FaceId)
    requires
        0 <= n,
        0 <= v.width,
    ensures
        slab_faces_upto(v, x, n).contains(f) <==> (f.x == x
            && 0 <= f.y && f.y < n && 0 <= f.z && f.z < v.width
            && 0 <= f.dir && f.dir < 6 && face_visible(v, x, f.y, f.z, f.dir)),
    decreases n,
{
    let s = slab_faces_upto(v, x, n);
    if n > 0 {
        let a = slab_faces_upto(v, x, n - 1);
        let b = row_faces_upto(v, x, n - 1, v.width);
        lemma_slab_membership(v, x, n - 1, f);
        lemma_row_membership(v, x, n - 1, v.width, f);
        if s.contains(f) {
            let i = choose|i: int| 0 <= i < s.len() && s[i] == f;
            if i < a.len() {
                assert(a.contains(f));
            } else {
                assert(b[i - a.len()] == f);
                assert(b.contains(f));
            }
        }
        if f.x == x && 0 <= f.y && f.y < n && 0 <= f.z && f.z < v.width
            && 0 <= f.dir && f.dir < 6 && face_visible(v, x, f.y, f.z, f.dir) {
            if f.y < n - 1 {
                assert(a.contains(f));
                let i = choose|i: int| 0 <= i < a.len() && a[i] == f;
                assert(s[i] == f);
                assert(s.contains(f));
            } else {
                assert(b.contains(f));
                let i = choose|i: int| 0 <= i < b.len() && b[i] == f;
                assert(s[a.len() + i] == f);
                assert(s.contains(f));
            }
        }
    }
}

proof fn lemma_faces_upto_membership(v: GridView, n: int, f: FaceId)
    requires
        0 <= n,
        0 <= v.width,
        0 <= v.height,
    ensures
        faces_upto(v, n).contains(f) <==> (0 <= f.x && f.x < n
            && 0 <= f.y && f.y < v.height && 0 <= f.z && f.z < v.width
            && 0 <= f.dir && f.dir < 6 && face_visible(v, f.x, f.y, f.z, f.dir)),
    decreases n,
{
    let s = faces_upto(v, n);
    if n > 0 {
        let a = faces_upto(v, n - 1);
        let b = slab_faces_upto(v, n - 1, v.height);
        lemma_faces_upto_membership(v, n - 1, f);
        lemma_slab_membership(v, n - 1, v.height, f);
        if s.contains(f) {
            let i = choose|i: int| 0 <= i < s.len() && s[i] == f;
            if i < a.len() {
                assert(a.contains(f));
            } else {
                assert(b[i - a.len()] == f);
                assert(b.contains(f));
            }
        }
        if 0 <= f.x && f.x < n && 0 <= f.y && f.y < v.height
            && 0 <= f.z && f.z < v.width && 0 <= f.dir && f.dir < 6
            && face_visible(v, f.x, f.y, f.z, f.dir) {
            if f.x < n - 1 {
                assert(a.contains(f));
                let i = choose|i: int| 0 <= i < a.len() && a[i] == f;
                assert(s[i] == f);
                assert(s.contains(f));
            } else {
                assert(b.contains(f));
                let i = choose|i: int| 0 <= i < b.len() && b[i] == f;
                assert(s[a.len() + i] == f);
                assert(s.contains(f));
            }
        }
    }
}

/// The mesher's characterization: a face stands in the emitted list
/// exactly when the visibility rule passes for its cell and direction.
pub proof fn lemma_face_list_membership(v: GridView, f: FaceId)
    requires
        v.wf(),
    ensures
        face_list(v).contains(f) <==> (0 <= f.dir && f.dir < 6
            && face_visible(v, f.x, f.y, f.z, f.dir)),
{
    lemma_faces_upto_membership(v, v.width, f);
}

proof fn lemma_all_visible_len(v: GridView, x: int, y: int, z: int, d: int)
    requires
        0 <= d <= 6,
        forall|dd: int| 0 <= dd < d ==> face_visible(v, x, y, z, dd),
    ensures
        cell_dirs_upto(v, x, y, z, d).len() == d,
    decreases d,
{
    if d > 0 {
        lemma_all_visible_len(v, x, y, z, d - 1);
    }
}

proof fn lemma_row_collapse(v: GridView, x: int, y: int, n: int, tx: int, ty: int, tz: int)
    requires
        0 <= n,
        forall|z: int| 0 <= z < n && !(x == tx && y == ty && z == tz)
            ==> !v.solid(x, y, z),
    ensures
        row_faces_upto(v, x, y, n) == if x == tx && y == ty && 0 <= tz && tz < n {
            cell_faces(v, tx, ty, tz)
        } else {
            Seq::<FaceId>::empty()
        },
    decreases n,
{
    if n > 0 {
        lemma_row_collapse(v, x, y, n - 1, tx, ty, tz);
        if x == tx && y == ty && n - 1 == tz {
            assert(row_faces_upto(v, x, y, n) =~= cell_faces(v, tx, ty, tz));
        } else {
            let zz = n - 1;
            assert(!v.solid(x, y, zz));
            assert forall|dd: int| 0 <= dd < 6 implies !face_visible(v, x, y, zz, dd) by {}
            lemma_no_visible_dirs(v, x, y, zz, 6);
            if x == tx && y == ty && 0 <= tz && tz < n - 1 {
                assert(row_faces_upto(v, x, y, n) =~= cell_faces(v, tx, ty, tz));
            } else {
                assert(row_faces_upto(v, x, y, n) =~= Seq::<FaceId>::empty());
            }
        }
    }
}

proof fn lemma_slab_collapse(v: GridView, x: int, n: int, tx: int, ty: int, tz: int)
    requires
        0 <= n,
        0 <= v.width,
        forall|y: int, z: int| 0 <= y < n && 0 <= z < v.width
            && !(x == tx && y == ty && z == tz) ==> !v.solid(x, y, z),
    ensures
        slab_faces_upto(v, x, n) == if x == tx && 0 <= ty && ty < n
            && 0 <= tz && tz < v.width {
            cell_faces(v, tx, ty, tz)
        } else {
            Seq::<FaceId>::empty()
        },
    decreases n,
{
    if n > 0 {
        lemma_slab_collapse(v, x, n - 1, tx, ty, tz);
        lemma_row_collapse(v, x, n - 1, v.width, tx, ty, tz);
        if x == tx && n - 1 == ty && 0 <= tz && tz < v.width {
            assert(slab_faces_upto(v, x, n) =~= cell_faces(v, tx, ty, tz));
        } else {
            if x == tx && 0 <= ty && ty < n - 1 && 0 <= tz && tz < v.width {
                assert(slab_faces_upto(v, x, n) =~= cell_faces(v, tx, ty, tz));
            } else {
                assert(slab_faces_upto(v, x, n) =~= Seq::<FaceId>::empty());
            }
        }
    }
}

proof fn lemma_faces_upto_collapse(v: GridView, n: int, tx: int, ty: int, tz: int)
    requires
        0 <= n,
        0 <= v.width,
        0 <= v.height,
        forall|x: int, y: int, z: int| 0 <= x < n && 0 <= y < v.height && 0 <= z < v.width
            && !(x == tx && y == ty && z == tz) ==> !v.solid(x, y, z),
    ensures
        faces_upto(v, n) == if 0 <= tx && tx < n && 0 <= ty && ty < v.height
            && 0 <= tz && tz < v.width {
            cell_faces(v, tx, ty, tz)
        } else {
            Seq::<FaceId>::empty()
        },
    decreases n,
{
    if n > 0 {
        lemma_faces_upto_collapse(v, n - 1, tx, ty, tz);
        lemma_slab_collapse(v, n - 1, v.height, tx, ty, tz);
        if n - 1 == tx && 0 <= ty && ty < v.height && 0 <= tz && tz < v.width {
            assert(faces_upto(v, n) =~= cell_faces(v, tx, ty, tz));
        } else {
            if 0 <= tx && tx < n - 1 && 0 <= ty && ty < v.height && 0 <= tz && tz < v.width {
                assert(faces_upto(v, n) =~= cell_faces(v, tx, ty, tz));
            } else {
                assert(faces_upto(v, n) =~= Seq::<FaceId>::empty());
            }
        }
    }
}

/// An isolated solid cell in a chunk's interior, surrounded entirely by
/// air, emits exactly six faces: 24 vertices and 36 indices.
pub proof fn lemma_isolated_cell_six_faces(v: GridView, x: int, y: int, z: int)
    requires
        v.wf(),
        0 < x && x < v.width - 1,
        0 < y && y < v.height - 1,
        0 < z && z < v.width - 1,
        v.solid(x, y, z),
        forall|a: int, b: int, c: int| v.in_bounds(a, b, c) && !(a == x && b == y && c == z)
            ==> !v.solid(a, b, c),
    ensures
        face_list(v).len() == 6,
        mesh_positions(v).len() == 24,
        mesh_normals(v).len() == 24,
        mesh_uvs(v).len() == 24,
        mesh_indices(v, 0).len() == 36,
{
    lemma_faces_upto_collapse(v, v.width, x, y, z);
    assert(face_list(v) == cell_faces(v, x, y, z));
    assert forall|d: int| 0 <= d < 6 implies face_visible(v, x, y, z, d) by {
        let nx = x + dir_dx(d);
        let ny = y + dir_dy(d);
        let nz = z + dir_dz(d);
        assert(!(nx == x && ny == y && nz == z));
        assert(v.in_bounds(nx, ny, nz));
        assert(!v.solid(nx, ny, nz));
    }
    lemma_all_visible_len(v, x, y, z, 6);
}

/// A solid cell all six of whose neighbors are solid emits no faces at
/// all: none of its own, and no face of the chunk's list names its cell.
pub proof fn lemma_occluded_cell_no_faces(v: GridView, x: int, y: int, z: int)
    requires
        v.wf(),
        v.solid(x, y, z),
        v.solid(x + 1, y, z),
        v.solid(x - 1, y, z),
        v.solid(x, y + 1, z),
        v.solid(x, y - 1, z),
        v.solid(x, y, z + 1),
        v.solid(x, y, z - 1),
    ensures
        cell_faces(v, x, y, z) == Seq::<FaceId>::empty(),
        forall|f: FaceId| face_list(v).contains(f) ==> !(f.x == x && f.y == y && f.z == z),
{
    assert forall|d: int| 0 <= d < 6 implies !face_visible(v, x, y, z, d) by {}
    lemma_no_visible_dirs(v, x, y, z, 6);
    assert forall|f: FaceId| face_list(v).contains(f)
        implies !(f.x == x && f.y == y && f.z == z) by {
        lemma_face_list_membership(v, f);
    }
}

/// A solid cell on the minimum-`x` boundary always emits its `-x` face:
/// the out-of-range neighbor counts as air, whatever lies beyond the
/// chunk.
pub proof fn lemma_min_x_boundary_face(v: GridView, y: int, z: int)
    requires
        v.wf(),
        v.solid(0, y, z),
    ensures
        face_list(v).contains((FaceId { x: 0, y, z, dir: DIR_LEFT as int })),
{
    let f = FaceId { x: 0, y, z, dir: DIR_LEFT as int };
    assert(!v.solid(-1, y, z));
    assert(face_visible(v, 0, y, z, DIR_LEFT as int));
    lemma_face_list_membership(v, f);
}

/// Determinism of meshing: grids with equal extents and equal cell
/// contents produce identical face lists and identical buffers.
pub proof fn lemma_deterministic_mesh(v1: GridView, v2: GridView, base: int)
    requires
        v1.width == v2.width,
        v1.height == v2.height,
        v1.cells =~= v2.cells,
    ensures
        face_list(v1) == face_list(v2),
        mesh_positions(v1) == mesh_positions(v2),
        mesh_normals(v1) == mesh_normals(v2),
        mesh_uvs(v1) == mesh_uvs(v2),
        mesh_indices(v1, base) == mesh_indices(v2, base),
{
    assert(v1 =~= v2);
}

/// Determinism of the whole pipeline: generating from equal sample
/// classifications yields equal grids, and meshing them yields
/// byte-identical buffers.
pub proof fn lemma_deterministic_pipeline(
    w: int,
    h: int,
    s1: Seq<bool>,
    s2: Seq<bool>,
    base: int,
)
    requires
        s1 =~= s2,
    ensures
        generated_view(w, h, s1) == generated_view(w, h, s2),
        mesh_positions(generated_view(w, h, s1)) == mesh_positions(generated_view(w, h, s2)),
        mesh_normals(generated_view(w, h, s1)) == mesh_normals(generated_view(w, h, s2)),
        mesh_uvs(generated_view(w, h, s1)) == mesh_uvs(generated_view(w, h, s2)),
        mesh_indices(generated_view(w, h, s1), base)
            == mesh_indices(generated_view(w, h, s2), base),
{
    assert(s1 == s2);
}

/// Whether some slot of an index buffer references vertex `k`.
pub open spec fn references_vertex(s: Seq<u32>, k: int) -> bool {
    exists|j: int| 0 <= j < s.len() && ((#[trigger] s[j]) as int) == k
}

/// Index-cursor correctness: meshing a second chunk with the first
/// chunk's vertex count as its base shifts every one of its indices by
/// exactly that count; the first buffer references exactly the vertex
/// range below the count and the second exactly the range above it,
/// with no gaps and no overlaps.
pub proof fn lemma_concat_index_offsets(v1: GridView, v2: GridView)
    requires
        4 * (face_count(v1) + face_count(v2)) <= u32::MAX as int,
    ensures
        forall|j: int| 0 <= j < 6 * face_count(v2)
            ==> (#[trigger] mesh_indices(v2, 4 * face_count(v1))[j]) as int
                == mesh_indices(v2, 0)[j] as int + 4 * face_count(v1),
        forall|j: int| 0 <= j < 6 * face_count(v1)
            ==> ((#[trigger] mesh_indices(v1, 0)[j]) as int) < 4 * face_count(v1),
        forall|j: int| 0 <= j < 6 * face_count(v2)
            ==> 4 * face_count(v1) <= (#[trigger] mesh_indices(v2, 4 * face_count(v1))[j]) as int
                && ((mesh_indices(v2, 4 * face_count(v1))[j]) as int)
                    < 4 * (face_count(v1) + face_count(v2)),
        forall|k: int| 0 <= k < 4 * face_count(v1)
            ==> #[trigger] references_vertex(mesh_indices(v1, 0), k),
        forall|k: int| 4 * face_count(v1) <= k < 4 * (face_count(v1) + face_count(v2))
            ==> #[trigger] references_vertex(mesh_indices(v2, 4 * face_count(v1)), k),
{
    let fc1 = face_count(v1);
    let fc2 = face_count(v2);
    assert forall|j: int| 0 <= j < 6 * fc2
        implies (#[trigger] mesh_indices(v2, 4 * fc1)[j]) as int
            == mesh_indices(v2, 0)[j] as int + 4 * fc1
            && 4 * fc1 <= (mesh_indices(v2, 4 * fc1)[j]) as int
            && ((mesh_indices(v2, 4 * fc1)[j]) as int) < 4 * (fc1 + fc2) by {
        assert(0 <= j / 6 < fc2);
        assert(0 <= tri_step(j % 6) <= 3);
    }
    assert forall|j: int| 0 <= j < 6 * fc1
        implies ((#[trigger] mesh_indices(v1, 0)[j]) as int) < 4 * fc1 by {
        assert(0 <= j / 6 < fc1);
        assert(0 <= tri_step(j % 6) <= 3);
    }
    assert forall|k: int| 0 <= k < 4 * fc1
        implies #[trigger] references_vertex(mesh_indices(v1, 0), k) by {
        let i = k / 4;
        let c = k % 4;
        let j = 6 * i + (if c == 0 { 0int } else if c == 1 { 1int } else if c == 2 { 2int } else { 4int });
        assert(0 <= j < 6 * fc1);
        assert(j / 6 == i && tri_step(j % 6) == c);
        assert(((mesh_indices(v1, 0)[j]) as int) == k);
    }
    assert forall|k: int| 4 * fc1 <= k < 4 * (fc1 + fc2)
        implies #[trigger] references_vertex(mesh_indices(v2, 4 * fc1), k) by {
        let r = k - 4 * fc1;
        let i = r / 4;
        let c = r % 4;
        let j = 6 * i + (if c == 0 { 0int } else if c == 1 { 1int } else if c == 2 { 2int } else { 4int });
        assert(0 <= j < 6 * fc2);
        assert(j / 6 == i && tri_step(j % 6) == c);
        assert(((mesh_indices(v2, 4 * fc1)[j]) as int) == k);
    }
}

} // verus!
