use smallvec::SmallVec;
use vstd::prelude::*;

use crate::handles::TextureHandle;

verus! {

/// One vertex of a mesh. Every component is the IEEE-754 bit pattern of an `f32`:
/// position `x, y, z`, texture coordinates `u, v` and colour `r, g, b, a`.
#[derive(Copy, Clone, Debug)]
pub struct SpriteVertex {
    pub position: [u32; 3],
    pub tex_coords: [u32; 2],
    pub color: [u32; 4],
}

/// The vertices of one mesh, stored inline up to four.
#[verifier::external_body]
pub struct VertexList {
    items: SmallVec<[SpriteVertex; 4]>,
}

/// The indices of one mesh, stored inline up to six.
#[verifier::external_body]
pub struct IndexList {
    items: SmallVec<[u32; 6]>,
}

/// What a vertex list holds, in order.
pub uninterp spec fn vertex_list_items(v: VertexList) -> Seq<SpriteVertex>;

/// What an index list holds, in order.
pub uninterp spec fn index_list_items(v: IndexList) -> Seq<u32>;

impl View for VertexList {
    type V = Seq<SpriteVertex>;

    open spec fn view(&self) -> Seq<SpriteVertex> {
        vertex_list_items(*self)
    }
}

impl View for IndexList {
    type V = Seq<u32>;

    open spec fn view(&self) -> Seq<u32> {
        index_list_items(*self)
    }
}

impl VertexList {
    /// Relies on smallvec's `SmallVec::new`: a new vector is empty.
    #[verifier::external_body]
    pub fn new() -> (r: VertexList)
        ensures
            vertex_list_items(r) == Seq::<SpriteVertex>::empty(),
    {
        VertexList { items: SmallVec::new() }
    }

    /// Relies on smallvec's `SmallVec::push`: the item is appended at the end.
    #[verifier::external_body]
    pub fn push(&mut self, v: SpriteVertex)
        ensures
            vertex_list_items(*final(self)) == vertex_list_items(*old(self)).push(v),
    {
        self.items.push(v)
    }

    /// Relies on smallvec's `SmallVec::len`: the number of items held.
    #[verifier::external_body]
    pub fn len(&self) -> (r: usize)
        ensures
            r == vertex_list_items(*self).len(),
    {
        self.items.len()
    }

    /// Relies on smallvec's `SmallVec::as_slice`: the items held, in order.
    #[verifier::external_body]
    pub fn get(&self, i: usize) -> (r: SpriteVertex)
        requires
            i < self@.len(),
        ensures
            r == vertex_list_items(*self)[i as int],
    {
        self.items.as_slice()[i]
    }
}

impl IndexList {
    /// Relies on smallvec's `SmallVec::new`: a new vector is empty.
    #[verifier::external_body]
    pub fn new() -> (r: IndexList)
        ensures
            index_list_items(r) == Seq::<u32>::empty(),
    {
        IndexList { items: SmallVec::new() }
    }

    /// Relies on smallvec's `SmallVec::push`: the item is appended at the end.
    #[verifier::external_body]
    pub fn push(&mut self, v: u32)
        ensures
            index_list_items(*final(self)) == index_list_items(*old(self)).push(v),
    {
        self.items.push(v)
    }

    /// Relies on smallvec's `SmallVec::len`: the number of items held.
    #[verifier::external_body]
    pub fn len(&self) -> (r: usize)
        ensures
            r == index_list_items(*self).len(),
    {
        self.items.len()
    }

    /// Relies on smallvec's `SmallVec::as_slice`: the items held, in order.
    #[verifier::external_body]
    pub fn get(&self, i: usize) -> (r: u32)
        requires
            i < self@.len(),
        ensures
            r == index_list_items(*self)[i as int],
    {
        self.items.as_slice()[i]
    }
}

/// A drawable unit. `y_sort_key` is the screen depth used by y-sorting:
/// `ordered_key` of the bits of `origin.y + y_sort_offset`.
pub struct Mesh {
    pub y_sort_key: u32,
    pub vertices: VertexList,
    pub indices: IndexList,
    pub z_index: i32,
    pub texture: Option<TextureHandle>,
}

pub open spec fn ordered_key_spec(bits: u32) -> u32 {
    if bits & 0x7fff_ffffu32 > 0x7f80_0000u32 {
        0
    } else if bits == 0x8000_0000u32 {
        0x8000_0000u32
    } else if bits & 0x8000_0000u32 != 0 {
        !bits
    } else {
        bits | 0x8000_0000u32
    }
}

/// Maps the bit pattern of an `f32` to an unsigned key that orders as the
/// float does: negative values (sign bit set) are inverted, the others get the
/// sign bit set, so every negative key lies below every positive one. `-0.0`
/// gets the key of `+0.0`, and every NaN gets `0`, below all numbers, so that a
/// NaN depth is drawn last, as by a total float order in which NaN is greatest
/// and depth is sorted by its negation.
pub fn ordered_key(bits: u32) -> (r: u32)
    ensures
        r == ordered_key_spec(bits),
{
    if bits & 0x7fff_ffffu32 > 0x7f80_0000u32 {
        0
    } else if bits == 0x8000_0000u32 {
        0x8000_0000u32
    } else if bits & 0x8000_0000u32 != 0 {
        !bits
    } else {
        bits | 0x8000_0000u32
    }
}

pub open spec fn wrap_add(x: u32, off: int) -> u32 {
    ((x as int + off) % 0x1_0000_0000) as u32
}

/// The indices `idx`, each moved up by `off` (wrapping at 2^32).
pub open spec fn offset_indices(idx: Seq<u32>, off: int) -> Seq<u32> {
    idx.map_values(|x: u32| wrap_add(x, off))
}

/// All vertices of `meshes`, mesh after mesh.
pub open spec fn concat_vertices(meshes: Seq<Mesh>) -> Seq<SpriteVertex>
    decreases meshes.len(),
{
    if meshes.len() == 0 {
        Seq::empty()
    } else {
        concat_vertices(meshes.drop_last()) + meshes.last().vertices@
    }
}

/// All indices of `meshes`, mesh after mesh, each moved up by the number of
/// vertices that come before its mesh.
pub open spec fn concat_indices(meshes: Seq<Mesh>) -> Seq<u32>
    decreases meshes.len(),
{
    if meshes.len() == 0 {
        Seq::empty()
    } else {
        concat_indices(meshes.drop_last()) + offset_indices(
            meshes.last().indices@,
            concat_vertices(meshes.drop_last()).len() as int,
        )
    }
}

/// Concatenates the vertices and indices of `meshes` into one vertex and one
/// index list, offsetting each mesh's indices by the running vertex count.
pub fn batch_meshes(meshes: &Vec<Mesh>) -> (r: (Vec<SpriteVertex>, Vec<u32>))
    requires
        concat_vertices(meshes@).len() <= u32::MAX,
    ensures
        r.0@ == concat_vertices(meshes@),
        r.1@ == concat_indices(meshes@),
{
    let mut verts: Vec<SpriteVertex> = Vec::new();
    let mut idx: Vec<u32> = Vec::new();
    let mut i: usize = 0;
    while i < meshes.len()
        invariant
            i <= meshes@.len(),
            concat_vertices(meshes@).len() <= u32::MAX,
            verts@ == concat_vertices(meshes@.take(i as int)),
            idx@ == concat_indices(meshes@.take(i as int)),
        decreases meshes@.len() - i,
    {
        let ghost pre = meshes@.take(i as int);
        let ghost next = meshes@.take(i as int + 1);
        assert(next.drop_last() == pre);
        assert(next.last() == meshes@[i as int]);
        proof {
            lemma_concat_vertices_prefix(meshes@, i as int + 1);
        }
        let mesh = &meshes[i];
        let offset = verts.len() as u32;
        let nv = mesh.vertices.len();
        let mut j: usize = 0;
        while j < nv
            invariant
                j <= nv,
                nv == mesh.vertices@.len(),
                verts@ == concat_vertices(pre) + mesh.vertices@.take(j as int),
            decreases nv - j,
        {
            verts.push(mesh.vertices.get(j));
            assert(mesh.vertices@.take(j as int + 1) == mesh.vertices@.take(j as int).push(
                mesh.vertices@[j as int],
            ));
            j = j + 1;
        }
        assert(mesh.vertices@.take(nv as int) == mesh.vertices@);
        let ni = mesh.indices.len();
        let mut j: usize = 0;
        while j < ni
            invariant
                j <= ni,
                ni == mesh.indices@.len(),
                offset as int == concat_vertices(pre).len(),
                idx@ == concat_indices(pre) + offset_indices(mesh.indices@.take(j as int), offset as int),
            decreases ni - j,
        {
            let x = mesh.indices.get(j);
            idx.push(x.wrapping_add(offset));
            assert(offset_indices(mesh.indices@.take(j as int + 1), offset as int)
                =~= offset_indices(mesh.indices@.take(j as int), offset as int).push(wrap_add(x, offset as int)));
            j = j + 1;
        }
        assert(mesh.indices@.take(ni as int) == mesh.indices@);
        i = i + 1;
    }
    assert(meshes@.take(meshes@.len() as int) == meshes@);
    (verts, idx)
}

/// The vertices of a prefix never outnumber those of the whole sequence.
pub proof fn lemma_concat_vertices_prefix(meshes: Seq<Mesh>, n: int)
    requires
        0 <= n <= meshes.len(),
    ensures
        concat_vertices(meshes.take(n)).len() <= concat_vertices(meshes).len(),
    decreases meshes.len(),
{
    if n < meshes.len() {
        assert(meshes.drop_last().take(n) == meshes.take(n));
        lemma_concat_vertices_prefix(meshes.drop_last(), n);
    } else {
        assert(meshes.take(n) == meshes);
    }
}

} // verus!
