//! Which texture and tint each face of a block is drawn with, where its
//! neighbour lies, and how a face's quad is split into triangles.

use vstd::prelude::*;
use crate::text::str_eq;
use crate::assoc::lookup;
use crate::world::block::registry::{opt_string_view, BlockRegistry, FaceNames, FaceTextures, Tint};

verus! {

/// The number of faces of a block.
pub const FACE_COUNT: usize = 6;

/// The texture of face `face_idx` of a block, faces numbered top, bottom,
/// north, south, east, west; any number past north, south and east is west.
pub open spec fn face_texture_spec(textures: FaceNames, face_idx: usize) -> Seq<char> {
    if face_idx == 0 {
        textures.top
    } else if face_idx == 1 {
        textures.bottom
    } else if face_idx == 2 {
        textures.north
    } else if face_idx == 3 {
        textures.south
    } else if face_idx == 4 {
        textures.east
    } else {
        textures.west
    }
}

/// The texture name of face `face_idx` of a block.
pub fn face_texture(textures: &FaceTextures, face_idx: usize) -> (r: &str)
    ensures
        r@ == face_texture_spec(textures@, face_idx),
{
    match face_idx {
        0 => textures.top.as_str(),
        1 => textures.bottom.as_str(),
        2 => textures.north.as_str(),
        3 => textures.south.as_str(),
        4 => textures.east.as_str(),
        _ => textures.west.as_str(),
    }
}

/// The colouring of a texture when meshed: the grass block's top and side
/// take the grass colour, everything else is drawn as it is.
pub open spec fn texture_tint_spec(name: Seq<char>) -> Tint {
    if name == "grass_block_top"@ || name == "grass_block_side"@ {
        Tint::Grass
    } else {
        Tint::Untinted
    }
}

/// The colouring of the texture `name` when meshed.
pub fn texture_tint(name: &str) -> (r: Tint)
    ensures
        r == texture_tint_spec(name@),
{
    if str_eq(name, "grass_block_top") || str_eq(name, "grass_block_side") {
        Tint::Grass
    } else {
        Tint::Untinted
    }
}

/// The direction from a block to the neighbour behind face `face_idx`.
pub open spec fn face_offset_spec(face_idx: usize) -> (i32, i32, i32) {
    if face_idx == 0 {
        (0, 1, 0)
    } else if face_idx == 1 {
        (0, -1i32, 0)
    } else if face_idx == 2 {
        (0, 0, -1i32)
    } else if face_idx == 3 {
        (0, 0, 1)
    } else if face_idx == 4 {
        (1, 0, 0)
    } else {
        (-1i32, 0, 0)
    }
}

/// Each face shows the texture of the side it looks out of: the face towards
/// +y the top, towards -y the bottom, towards -z the north, towards +z the
/// south, towards +x the east and towards -x the west texture; and the six
/// faces look out in six different directions.
pub proof fn lemma_face_directions(ft: FaceNames, f: usize, g: usize)
    requires
        f < FACE_COUNT,
        g < FACE_COUNT,
    ensures
        face_offset_spec(f) == (0i32, 1i32, 0i32) ==> face_texture_spec(ft, f) == ft.top,
        face_offset_spec(f) == (0i32, -1i32, 0i32) ==> face_texture_spec(ft, f) == ft.bottom,
        face_offset_spec(f) == (0i32, 0i32, -1i32) ==> face_texture_spec(ft, f) == ft.north,
        face_offset_spec(f) == (0i32, 0i32, 1i32) ==> face_texture_spec(ft, f) == ft.south,
        face_offset_spec(f) == (1i32, 0i32, 0i32) ==> face_texture_spec(ft, f) == ft.east,
        face_offset_spec(f) == (-1i32, 0i32, 0i32) ==> face_texture_spec(ft, f) == ft.west,
        f != g ==> face_offset_spec(f) != face_offset_spec(g),
{
}

/// The step from a block to the neighbour behind face `face_idx` (up, down,
/// north is -z, south is +z, east is +x, west is -x).
pub fn face_offset(face_idx: usize) -> (r: (i32, i32, i32))
    requires
        face_idx < FACE_COUNT,
    ensures
        r == face_offset_spec(face_idx),
{
    match face_idx {
        0 => (0, 1, 0),
        1 => (0, -1, 0),
        2 => (0, 0, -1),
        3 => (0, 0, 1),
        4 => (1, 0, 0),
        _ => (-1, 0, 0),
    }
}

/// The position of the neighbour of block (`x`, `y`, `z`) behind face `face_idx`.
pub fn neighbor_position(x: i32, y: i32, z: i32, face_idx: usize) -> (r: (i32, i32, i32))
    requires
        face_idx < FACE_COUNT,
        i32::MIN < x < i32::MAX,
        i32::MIN < y < i32::MAX,
        i32::MIN < z < i32::MAX,
    ensures
        r.0 == x + face_offset_spec(face_idx).0,
        r.1 == y + face_offset_spec(face_idx).1,
        r.2 == z + face_offset_spec(face_idx).2,
{
    let (dx, dy, dz) = face_offset(face_idx);
    (x + dx, y + dy, z + dz)
}

/// The indices of the two triangles of a face whose four vertices start at
/// `base`: (0, 1, 2) and (2, 3, 0) counted from `base`.
pub fn face_indices(base: u32) -> (r: [u32; 6])
    requires
        base <= u32::MAX - 3,
    ensures
        r@ == face_pattern(base as nat),
{
    let r = [base, base + 1, base + 2, base + 2, base + 3, base];
    assert(r@ =~= face_pattern(base as nat));
    r
}

/// The indices of the two triangles of a quad whose four vertices start at
/// `base`: (0, 1, 2) and (2, 3, 0) counted from `base`.
pub open spec fn face_pattern(base: nat) -> Seq<u32> {
    seq![base as u32, (base + 1) as u32, (base + 2) as u32, (base + 2) as u32, (base + 3) as u32, base as u32]
}

/// The index buffer of a mesh of `n` quads, each with its own four vertices
/// laid out one quad after the other.
pub open spec fn quad_indices_spec(n: nat) -> Seq<u32>
    decreases n,
{
    if n == 0 {
        Seq::empty()
    } else {
        quad_indices_spec((n - 1) as nat) + face_pattern(4 * (n - 1) as nat)
    }
}

/// Appends the indices of the quad whose vertices start at `base`.
pub fn push_face_indices(indices: &mut Vec<u32>, base: u32)
    requires
        base <= u32::MAX - 3,
    ensures
        final(indices)@ == old(indices)@ + face_pattern(base as nat),
{
    let quad = face_indices(base);
    let mut k: usize = 0;
    let ghost start = indices@;
    while k < 6
        invariant
            quad@ == face_pattern(base as nat),
            k <= 6,
            indices@ == start + quad@.take(k as int),
        decreases 6 - k,
    {
        indices.push(quad[k]);
        assert(quad@.take(k + 1) =~= quad@.take(k as int).push(quad@[k as int]));
        k = k + 1;
    }
    assert(quad@.take(6) =~= quad@);
}

/// In a mesh of `n` quads, index `k` of quad `q` is index `k` of the two
/// triangles over the vertices `4 * q` to `4 * q + 3`: quad `q`'s indices are
/// `4q, 4q+1, 4q+2, 4q+2, 4q+3, 4q`.
pub proof fn lemma_quad_indices(n: nat, q: nat, k: nat)
    requires
        q < n,
        k < 6,
    ensures
        quad_indices_spec(n).len() == 6 * n,
        quad_indices_spec(n)[(6 * q + k) as int] == face_pattern(4 * q)[k as int],
    decreases n,
{
    lemma_quad_indices_len(n);
    let m = (n - 1) as nat;
    lemma_quad_indices_len(m);
    assert(quad_indices_spec(n) == quad_indices_spec(m) + face_pattern(4 * m));
    if q < m {
        lemma_quad_indices(m, q, k);
    }
}

/// A mesh of `n` quads has six indices per quad.
proof fn lemma_quad_indices_len(n: nat)
    ensures
        quad_indices_spec(n).len() == 6 * n,
    decreases n,
{
    if n > 0 {
        lemma_quad_indices_len((n - 1) as nat);
    }
}

/// The faces of a block whose neighbour is air among the first `n` faces, in
/// face order.
pub open spec fn exposed_faces_spec(neighbor_air: Seq<bool>, n: nat) -> Seq<usize>
    decreases n,
{
    if n == 0 {
        Seq::empty()
    } else if neighbor_air[n - 1] {
        exposed_faces_spec(neighbor_air, (n - 1) as nat).push((n - 1) as usize)
    } else {
        exposed_faces_spec(neighbor_air, (n - 1) as nat)
    }
}

/// The faces of a solid, textured block that are drawn: those whose
/// neighbour (by [`face_offset`]) is air, in face order.
pub fn exposed_faces(neighbor_air: &[bool; 6]) -> (r: Vec<usize>)
    ensures
        r@ == exposed_faces_spec(neighbor_air@, FACE_COUNT as nat),
        forall|i: int| 0 <= i < r@.len() ==> r@[i] < FACE_COUNT && neighbor_air@[r@[i] as int],
{
    let mut faces: Vec<usize> = Vec::new();
    let mut i: usize = 0;
    while i < FACE_COUNT
        invariant
            i <= FACE_COUNT,
            neighbor_air@.len() == FACE_COUNT,
            faces@ == exposed_faces_spec(neighbor_air@, i as nat),
            forall|j: int| 0 <= j < faces@.len() ==> faces@[j] < i && neighbor_air@[faces@[j] as int],
        decreases FACE_COUNT - i,
    {
        if neighbor_air[i] {
            faces.push(i);
        }
        i = i + 1;
    }
    faces
}

/// The width and depth of a chunk, in blocks.
pub const CHUNK_WIDTH: usize = 16;

/// The width and depth of a chunk with the ring of neighbouring blocks
/// around it.
pub const PADDED_WIDTH: usize = 18;

/// A chunk's blocks by their string ids (`None` for air), together with the
/// ring of blocks around it that its faces border: `PADDED_WIDTH` columns in
/// x and in z, and `height + 2` levels, the chunk's own levels with one below
/// and one above. The cell of padded position (`px`, `py`, `pz`) is
/// `(pz * (height + 2) + py) * PADDED_WIDTH + px`.
pub struct ChunkBlocks {
    height: usize,
    cells: Vec<Option<String>>,
}

/// A chunk's blocks by their level count and cell contents.
pub struct ChunkBlocksView {
    pub height: nat,
    pub cells: Seq<Option<Seq<char>>>,
}

/// Optional strings by their characters.
pub open spec fn cells_view(c: Seq<Option<String>>) -> Seq<Option<Seq<char>>> {
    c.map_values(|o: Option<String>| opt_string_view(o))
}

/// The number of cells of a padded chunk of `height` levels.
pub open spec fn padded_len(height: nat) -> nat {
    PADDED_WIDTH as nat * PADDED_WIDTH as nat * (height + 2)
}

/// The cell of the block at chunk position (`x`, `y`, `z`), where each of them
/// may reach one block past the chunk on either side.
pub open spec fn cell_index(height: nat, x: int, y: int, z: int) -> int {
    ((z + 1) * (height + 2) + (y + 1)) * PADDED_WIDTH + (x + 1)
}

/// The block id at chunk position (`x`, `y`, `z`), `None` for air.
pub open spec fn block_at(c: Seq<Option<Seq<char>>>, height: nat, x: int, y: int, z: int) -> Option<Seq<char>> {
    c[cell_index(height, x, y, z)]
}

impl View for ChunkBlocks {
    type V = ChunkBlocksView;

    closed spec fn view(&self) -> ChunkBlocksView {
        ChunkBlocksView { height: self.height as nat, cells: cells_view(self.cells@) }
    }
}

impl ChunkBlocks {
    #[verifier::type_invariant]
    spec fn inv(self) -> bool {
        self.cells@.len() == padded_len(self.height as nat)
    }

    /// The chunk of `height` levels whose padded cells are `cells`; `None`
    /// where there are not exactly `18 * 18 * (height + 2)` cells.
    pub fn new(height: usize, cells: Vec<Option<String>>) -> (r: Option<Self>)
        ensures
            r matches Some(b) ==> b@ == (ChunkBlocksView { height: height as nat, cells: cells_view(cells@) }),
            r is None <==> cells@.len() != padded_len(height as nat),
    {
        let levels: u128 = height as u128 + 2;
        assert(levels * 324 <= 324 * 0x1_0000_0000_0000_0002u128 && levels * 324 == padded_len(height as nat))
            by (nonlinear_arith)
            requires
                levels <= 0x1_0000_0000_0000_0002u128,
                levels == height + 2,
        ;
        if levels * 324 != cells.len() as u128 {
            return None;
        }
        Some(ChunkBlocks { height, cells })
    }

    /// The number of block levels of the chunk.
    pub fn height(&self) -> (r: usize)
        ensures
            r == self@.height,
    {
        self.height
    }
}

/// A face to draw: the block at chunk position (`x`, `y`, `z`), which face
/// of it, the texture it shows and that texture's colouring.
pub struct Quad {
    pub x: usize,
    pub y: usize,
    pub z: usize,
    pub face: usize,
    pub texture: String,
    pub tint: Tint,
}

/// A quad by its texture name.
pub struct QuadView {
    pub x: usize,
    pub y: usize,
    pub z: usize,
    pub face: usize,
    pub texture: Seq<char>,
    pub tint: Tint,
}

impl View for Quad {
    type V = QuadView;

    open spec fn view(&self) -> QuadView {
        QuadView { x: self.x, y: self.y, z: self.z, face: self.face, texture: self.texture@, tint: self.tint }
    }
}

/// The quad of face `f` of the block at (`x`, `y`, `z`) with face textures `ft`.
pub open spec fn quad_of(ft: FaceNames, x: usize, y: usize, z: usize, f: usize) -> QuadView {
    QuadView {
        x,
        y,
        z,
        face: f,
        texture: face_texture_spec(ft, f),
        tint: texture_tint_spec(face_texture_spec(ft, f)),
    }
}

/// The drawn faces among the first `n` faces of the block at (`x`, `y`, `z`):
/// those whose neighbour is air.
pub open spec fn face_quads(
    ft: FaceNames,
    c: Seq<Option<Seq<char>>>,
    h: nat,
    x: usize,
    y: usize,
    z: usize,
    n: nat,
) -> Seq<QuadView>
    decreases n,
{
    if n == 0 {
        Seq::empty()
    } else {
        let f = (n - 1) as usize;
        let o = face_offset_spec(f);
        let prev = face_quads(ft, c, h, x, y, z, (n - 1) as nat);
        if block_at(c, h, x + o.0, y + o.1, z + o.2) is None {
            prev.push(quad_of(ft, x, y, z, f))
        } else {
            prev
        }
    }
}

/// The quads of the block at (`x`, `y`, `z`): none for air or for a block
/// the registry has no textures for, else one per face that borders air.
pub open spec fn block_quads(
    reg: Seq<(Seq<char>, FaceNames)>,
    c: Seq<Option<Seq<char>>>,
    h: nat,
    x: usize,
    y: usize,
    z: usize,
) -> Seq<QuadView> {
    match block_at(c, h, x as int, y as int, z as int) {
        None => Seq::empty(),
        Some(id) => match lookup(reg, id) {
            None => Seq::empty(),
            Some(ft) => face_quads(ft, c, h, x, y, z, FACE_COUNT as nat),
        },
    }
}

/// The quads of the first `n` levels of column (`x`, `z`), bottom up.
pub open spec fn column_quads(
    reg: Seq<(Seq<char>, FaceNames)>,
    c: Seq<Option<Seq<char>>>,
    h: nat,
    x: usize,
    z: usize,
    n: nat,
) -> Seq<QuadView>
    decreases n,
{
    if n == 0 {
        Seq::empty()
    } else {
        column_quads(reg, c, h, x, z, (n - 1) as nat) + block_quads(reg, c, h, x, (n - 1) as usize, z)
    }
}

/// The quads of the first `n` columns of row `z`, by increasing x.
pub open spec fn row_quads(reg: Seq<(Seq<char>, FaceNames)>, c: Seq<Option<Seq<char>>>, h: nat, z: usize, n: nat) -> Seq<QuadView>
    decreases n,
{
    if n == 0 {
        Seq::empty()
    } else {
        row_quads(reg, c, h, z, (n - 1) as nat) + column_quads(reg, c, h, (n - 1) as usize, z, h)
    }
}

/// The quads of the first `n` rows of the chunk, by increasing z.
pub open spec fn chunk_quads(reg: Seq<(Seq<char>, FaceNames)>, c: Seq<Option<Seq<char>>>, h: nat, n: nat) -> Seq<QuadView>
    decreases n,
{
    if n == 0 {
        Seq::empty()
    } else {
        chunk_quads(reg, c, h, (n - 1) as nat) + row_quads(reg, c, h, (n - 1) as usize, CHUNK_WIDTH as nat)
    }
}

/// Face `f` of the chunk block at (`x`, `y`, `z`) is to be drawn: the block is
/// not air, the registry has textures for it, and the block one step from it
/// in the direction of [`face_offset_spec`]`(f)` is air.
pub open spec fn face_visible(
    reg: Seq<(Seq<char>, FaceNames)>,
    c: Seq<Option<Seq<char>>>,
    h: nat,
    x: usize,
    y: usize,
    z: usize,
    f: usize,
) -> bool {
    &&& x < CHUNK_WIDTH && y < h && z < CHUNK_WIDTH && f < FACE_COUNT
    &&& block_at(c, h, x as int, y as int, z as int) is Some
    &&& lookup(reg, block_at(c, h, x as int, y as int, z as int)->0) is Some
    &&& block_at(c, h, x + face_offset_spec(f).0, y + face_offset_spec(f).1, z + face_offset_spec(f).2) is None
}

/// The registry textures of the chunk block at (`x`, `y`, `z`).
pub open spec fn textures_at(reg: Seq<(Seq<char>, FaceNames)>, c: Seq<Option<Seq<char>>>, h: nat, x: usize, y: usize, z: usize) -> FaceNames {
    lookup(reg, block_at(c, h, x as int, y as int, z as int)->0)->0
}

/// What a quad of the mesh must be: a visible face, showing that face's
/// texture of its block, coloured as that texture is.
pub open spec fn quad_ok(reg: Seq<(Seq<char>, FaceNames)>, c: Seq<Option<Seq<char>>>, h: nat, q: QuadView) -> bool {
    &&& face_visible(reg, c, h, q.x, q.y, q.z, q.face)
    &&& q.texture == face_texture_spec(textures_at(reg, c, h, q.x, q.y, q.z), q.face)
    &&& q.tint == texture_tint_spec(q.texture)
}

proof fn lemma_contains_concat<A>(a: Seq<A>, b: Seq<A>)
    ensures
        forall|e: A| a.contains(e) ==> #[trigger] (a + b).contains(e),
        forall|e: A| b.contains(e) ==> #[trigger] (a + b).contains(e),
        forall|e: A| #[trigger] (a + b).contains(e) ==> a.contains(e) || b.contains(e),
{
    assert forall|e: A| a.contains(e) implies #[trigger] (a + b).contains(e) by {
        let i = choose|i: int| 0 <= i < a.len() && a[i] == e;
        assert((a + b)[i] == e);
    }
    assert forall|e: A| b.contains(e) implies #[trigger] (a + b).contains(e) by {
        let i = choose|i: int| 0 <= i < b.len() && b[i] == e;
        assert((a + b)[a.len() + i] == e);
    }
    assert forall|e: A| #[trigger] (a + b).contains(e) implies a.contains(e) || b.contains(e) by {
        let i = choose|i: int| 0 <= i < (a + b).len() && (a + b)[i] == e;
        if i < a.len() {
            assert(a[i] == e);
        } else {
            assert(b[i - a.len()] == e);
        }
    }
}

proof fn lemma_face_quads(
    reg: Seq<(Seq<char>, FaceNames)>,
    c: Seq<Option<Seq<char>>>,
    h: nat,
    x: usize,
    y: usize,
    z: usize,
    n: nat,
)
    requires
        x < CHUNK_WIDTH,
        y < h,
        z < CHUNK_WIDTH,
        n <= FACE_COUNT,
        block_at(c, h, x as int, y as int, z as int) is Some,
        lookup(reg, block_at(c, h, x as int, y as int, z as int)->0) is Some,
    ensures
        forall|q: QuadView| #[trigger] face_quads(textures_at(reg, c, h, x, y, z), c, h, x, y, z, n).contains(q)
            ==> q.x == x && q.y == y && q.z == z && q.face < n && quad_ok(reg, c, h, q),
        forall|f: usize| f < n && #[trigger] face_visible(reg, c, h, x, y, z, f)
            ==> face_quads(textures_at(reg, c, h, x, y, z), c, h, x, y, z, n).contains(
                quad_of(textures_at(reg, c, h, x, y, z), x, y, z, f)),
    decreases n,
{
    let ft = textures_at(reg, c, h, x, y, z);
    if n > 0 {
        let m = (n - 1) as nat;
        lemma_face_quads(reg, c, h, x, y, z, m);
        let prev = face_quads(ft, c, h, x, y, z, m);
        let f = m as usize;
        let q = quad_of(ft, x, y, z, f);
        if face_visible(reg, c, h, x, y, z, f) {
            assert(face_quads(ft, c, h, x, y, z, n) == prev.push(q));
            assert(prev.push(q)[prev.len() as int] == q);
            assert forall|e: QuadView| #[trigger] prev.push(q).contains(e) implies e == q || prev.contains(e) by {
                let i = choose|i: int| 0 <= i < prev.len() + 1 && prev.push(q)[i] == e;
                if i < prev.len() {
                    assert(prev[i] == e);
                }
            }
            assert forall|e: QuadView| prev.contains(e) implies #[trigger] prev.push(q).contains(e) by {
                let i = choose|i: int| 0 <= i < prev.len() && prev[i] == e;
                assert(prev.push(q)[i] == e);
            }
        } else {
            assert(face_quads(ft, c, h, x, y, z, n) == prev);
        }
    }
}

proof fn lemma_block_quads(
    reg: Seq<(Seq<char>, FaceNames)>,
    c: Seq<Option<Seq<char>>>,
    h: nat,
    x: usize,
    y: usize,
    z: usize,
)
    requires
        x < CHUNK_WIDTH,
        y < h,
        z < CHUNK_WIDTH,
    ensures
        forall|q: QuadView| #[trigger] block_quads(reg, c, h, x, y, z).contains(q)
            ==> q.x == x && q.y == y && q.z == z && quad_ok(reg, c, h, q),
        forall|f: usize| #[trigger] face_visible(reg, c, h, x, y, z, f)
            ==> block_quads(reg, c, h, x, y, z).contains(quad_of(textures_at(reg, c, h, x, y, z), x, y, z, f)),
{
    let b = block_quads(reg, c, h, x, y, z);
    if block_at(c, h, x as int, y as int, z as int) is Some && lookup(reg, block_at(c, h, x as int, y as int, z as int)->0) is Some {
        lemma_face_quads(reg, c, h, x, y, z, FACE_COUNT as nat);
        assert(b == face_quads(textures_at(reg, c, h, x, y, z), c, h, x, y, z, FACE_COUNT as nat));
    } else {
        assert(b =~= Seq::<QuadView>::empty());
        assert forall|q: QuadView| #[trigger] b.contains(q) implies false by {}
    }
}

proof fn lemma_column_quads(reg: Seq<(Seq<char>, FaceNames)>, c: Seq<Option<Seq<char>>>, h: nat, x: usize, z: usize, n: nat)
    requires
        x < CHUNK_WIDTH,
        z < CHUNK_WIDTH,
        n <= h,
    ensures
        forall|q: QuadView| #[trigger] column_quads(reg, c, h, x, z, n).contains(q)
            ==> q.x == x && q.z == z && q.y < n && quad_ok(reg, c, h, q),
        forall|y: usize, f: usize| y < n && #[trigger] face_visible(reg, c, h, x, y, z, f)
            ==> column_quads(reg, c, h, x, z, n).contains(quad_of(textures_at(reg, c, h, x, y, z), x, y, z, f)),
    decreases n,
{
    if n > 0 {
        let m = (n - 1) as nat;
        lemma_column_quads(reg, c, h, x, z, m);
        lemma_block_quads(reg, c, h, x, m as usize, z);
        lemma_contains_concat(column_quads(reg, c, h, x, z, m), block_quads(reg, c, h, x, m as usize, z));
    }
}

proof fn lemma_row_quads(reg: Seq<(Seq<char>, FaceNames)>, c: Seq<Option<Seq<char>>>, h: nat, z: usize, n: nat)
    requires
        z < CHUNK_WIDTH,
        n <= CHUNK_WIDTH,
    ensures
        forall|q: QuadView| #[trigger] row_quads(reg, c, h, z, n).contains(q)
            ==> q.z == z && q.x < n && quad_ok(reg, c, h, q),
        forall|x: usize, y: usize, f: usize| x < n && #[trigger] face_visible(reg, c, h, x, y, z, f)
            ==> row_quads(reg, c, h, z, n).contains(quad_of(textures_at(reg, c, h, x, y, z), x, y, z, f)),
    decreases n,
{
    if n > 0 {
        let m = (n - 1) as nat;
        lemma_row_quads(reg, c, h, z, m);
        lemma_column_quads(reg, c, h, m as usize, z, h);
        lemma_contains_concat(row_quads(reg, c, h, z, m), column_quads(reg, c, h, m as usize, z, h));
    }
}

proof fn lemma_chunk_quads(reg: Seq<(Seq<char>, FaceNames)>, c: Seq<Option<Seq<char>>>, h: nat, n: nat)
    requires
        n <= CHUNK_WIDTH,
    ensures
        forall|q: QuadView| #[trigger] chunk_quads(reg, c, h, n).contains(q) ==> q.z < n && quad_ok(reg, c, h, q),
        forall|x: usize, y: usize, z: usize, f: usize| z < n && #[trigger] face_visible(reg, c, h, x, y, z, f)
            ==> chunk_quads(reg, c, h, n).contains(quad_of(textures_at(reg, c, h, x, y, z), x, y, z, f)),
    decreases n,
{
    if n > 0 {
        let m = (n - 1) as nat;
        lemma_chunk_quads(reg, c, h, m);
        lemma_row_quads(reg, c, h, m as usize, CHUNK_WIDTH as nat);
        lemma_contains_concat(chunk_quads(reg, c, h, m), row_quads(reg, c, h, m as usize, CHUNK_WIDTH as nat));
    }
}

/// The mesh of a chunk draws exactly the visible faces: every quad is a face
/// of a textured chunk block whose neighbour in that face's direction
/// ([`face_offset_spec`]: north is -z, south is +z, ...) is air, showing that
/// face's texture with its colouring; and every such face is drawn.
pub proof fn lemma_mesh_faces(reg: Seq<(Seq<char>, FaceNames)>, c: Seq<Option<Seq<char>>>, h: nat)
    ensures
        forall|q: QuadView| #[trigger] chunk_quads(reg, c, h, CHUNK_WIDTH as nat).contains(q) ==> quad_ok(reg, c, h, q),
        forall|x: usize, y: usize, z: usize, f: usize| #[trigger] face_visible(reg, c, h, x, y, z, f)
            ==> chunk_quads(reg, c, h, CHUNK_WIDTH as nat).contains(quad_of(textures_at(reg, c, h, x, y, z), x, y, z, f)),
{
    lemma_chunk_quads(reg, c, h, CHUNK_WIDTH as nat);
}

/// Quads by their views.
pub open spec fn quads_view(q: Seq<Quad>) -> Seq<QuadView> {
    q.map_values(|x: Quad| x@)
}

/// The cell of padded position (`px`, `py`, `pz`).
fn padded_index(height: usize, len: usize, px: usize, py: usize, pz: usize) -> (r: usize)
    requires
        len == padded_len(height as nat),
        px < PADDED_WIDTH,
        pz < PADDED_WIDTH,
        py < height + 2,
    ensures
        r == (pz * (height + 2) + py) * PADDED_WIDTH + px,
        r < len,
{
    assert((pz * (height + 2) + py) * 18 + px < 18 * 18 * (height + 2)) by (nonlinear_arith)
        requires
            px < 18,
            pz < 18,
            py < height + 2,
    ;
    (pz * (height + 2) + py) * PADDED_WIDTH + px
}

/// The faces a chunk shows: for each block, z outermost, then x, then y from
/// the bottom, each face of a block with registry textures whose neighbour
/// (inside the chunk or in the ring around it) is air, in face order, with
/// that face's texture and the texture's colouring.
pub fn mesh_chunk(blocks: &ChunkBlocks, registry: &BlockRegistry) -> (r: Vec<Quad>)
    ensures
        quads_view(r@) == chunk_quads(registry@, blocks@.cells, blocks@.height, CHUNK_WIDTH as nat),
        forall|q: QuadView| #[trigger] quads_view(r@).contains(q) ==> quad_ok(registry@, blocks@.cells, blocks@.height, q),
        forall|x: usize, y: usize, z: usize, f: usize| #[trigger] face_visible(registry@, blocks@.cells, blocks@.height, x, y, z, f)
            ==> quads_view(r@).contains(quad_of(textures_at(registry@, blocks@.cells, blocks@.height, x, y, z), x, y, z, f)),
{
    proof {
        use_type_invariant(blocks);
    }
    let h: usize = blocks.height;
    let len: usize = blocks.cells.len();
    let ghost c = blocks@.cells;
    let ghost reg = registry@;
    let ghost hn = h as nat;
    assert(h + 2 <= len) by (nonlinear_arith)
        requires
            len == 18 * 18 * (h + 2),
    ;
    let mut quads: Vec<Quad> = Vec::new();
    let mut z: usize = 0;
    while z < CHUNK_WIDTH
        invariant
            z <= CHUNK_WIDTH,
            h == blocks@.height,
            hn == h as nat,
            c == blocks@.cells,
            c == cells_view(blocks.cells@),
            reg == registry@,
            len == blocks.cells@.len(),
            len == padded_len(hn),
            h + 2 <= len,
            quads_view(quads@) == chunk_quads(reg, c, hn, z as nat),
        decreases CHUNK_WIDTH - z,
    {
        let mut x: usize = 0;
        while x < CHUNK_WIDTH
            invariant
                z < CHUNK_WIDTH,
                x <= CHUNK_WIDTH,
                hn == h as nat,
                c == cells_view(blocks.cells@),
                reg == registry@,
                len == blocks.cells@.len(),
                len == padded_len(hn),
                h + 2 <= len,
            h + 2 <= len,
                quads_view(quads@) == chunk_quads(reg, c, hn, z as nat) + row_quads(reg, c, hn, z, x as nat),
            decreases CHUNK_WIDTH - x,
        {
            let mut y: usize = 0;
            while y < h
                invariant
                    z < CHUNK_WIDTH,
                    x < CHUNK_WIDTH,
                    y <= h,
                    hn == h as nat,
                    c == cells_view(blocks.cells@),
                    reg == registry@,
                    len == blocks.cells@.len(),
                    len == padded_len(hn),
                    h + 2 <= len,
                h + 2 <= len,
            h + 2 <= len,
                    quads_view(quads@) == chunk_quads(reg, c, hn, z as nat) + row_quads(reg, c, hn, z, x as nat)
                        + column_quads(reg, c, hn, x, z, y as nat),
                decreases h - y,
            {
                let ghost before = quads_view(quads@);
                let idx = padded_index(h, len, x + 1, y + 1, z + 1);
                assert(c[idx as int] == block_at(c, hn, x as int, y as int, z as int));
                match &blocks.cells[idx] {
                    None => {
                        assert(block_quads(reg, c, hn, x, y, z) =~= Seq::<QuadView>::empty());
                    },
                    Some(id) => match registry.get_textures(id.as_str()) {
                        None => {
                            assert(block_quads(reg, c, hn, x, y, z) =~= Seq::<QuadView>::empty());
                        },
                        Some(ft) => {
                            let mut f: usize = 0;
                            while f < FACE_COUNT
                                invariant
                                    z < CHUNK_WIDTH,
                                    x < CHUNK_WIDTH,
                                    y < h,
                                    f <= FACE_COUNT,
                                    hn == h as nat,
                                    c == cells_view(blocks.cells@),
                                    len == blocks.cells@.len(),
                                    len == padded_len(hn),
                                    h + 2 <= len,
                    h + 2 <= len,
                h + 2 <= len,
            h + 2 <= len,
                                    quads_view(quads@) == before + face_quads(ft@, c, hn, x, y, z, f as nat),
                                decreases FACE_COUNT - f,
                            {
                                let (px, py, pz) = match f {
                                    0 => (x + 1, y + 2, z + 1),
                                    1 => (x + 1, y, z + 1),
                                    2 => (x + 1, y + 1, z),
                                    3 => (x + 1, y + 1, z + 2),
                                    4 => (x + 2, y + 1, z + 1),
                                    _ => (x, y + 1, z + 1),
                                };
                                let nidx = padded_index(h, len, px, py, pz);
                                let ghost o = face_offset_spec(f);
                                assert(nidx == cell_index(hn, x + o.0, y + o.1, z + o.2));
                                let ghost prev = quads_view(quads@);
                                if blocks.cells[nidx].is_none() {
                                    let tex = face_texture(ft, f);
                                    let q = Quad { x, y, z, face: f, texture: tex.to_owned(), tint: texture_tint(tex) };
                                    assert(q@ == quad_of(ft@, x, y, z, f));
                                    quads.push(q);
                                    assert(quads_view(quads@) =~= prev.push(quad_of(ft@, x, y, z, f)));
                                }
                                assert(before + face_quads(ft@, c, hn, x, y, z, (f + 1) as nat) =~= quads_view(quads@));
                                f = f + 1;
                            }
                        },
                    },
                }
                assert(quads_view(quads@) =~= chunk_quads(reg, c, hn, z as nat) + row_quads(reg, c, hn, z, x as nat)
                    + column_quads(reg, c, hn, x, z, (y + 1) as nat));
                y = y + 1;
            }
            assert(quads_view(quads@) =~= chunk_quads(reg, c, hn, z as nat) + row_quads(reg, c, hn, z, (x + 1) as nat));
            x = x + 1;
        }
        assert(quads_view(quads@) =~= chunk_quads(reg, c, hn, (z + 1) as nat));
        z = z + 1;
    }
    proof {
        lemma_mesh_faces(reg, c, hn);
    }
    quads
}

} // verus!
