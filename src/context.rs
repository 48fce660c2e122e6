use vstd::prelude::*;

use crate::handles::{MeshGroupKey, BlendMode, RenderTargetId, ShaderId, ShaderInstanceId, TextureHandle};
use crate::mesh::Mesh;
use crate::queue::{groups_sorted, lookup, total_meshes, MeshGroup, RenderQueue};
use crate::shader::{find_uniform, ShaderInstance, Uniform};

verus! {

/// Relies on ahash's `RandomState::with_seeds(1, 2, 3, 4)` and its `hash_one`:
/// a 64-bit hash of the text.
#[verifier::external_body]
fn text_hash(text: &str) -> u64 {
    ahash::RandomState::with_seeds(1, 2, 3, 4).hash_one(text)
}

impl TextureHandle {
    /// The handle of the texture loaded from `path`: a hash of the path.
    pub fn from_path(path: &str) -> (r: TextureHandle)
        ensures
            r is Path,
    {
        TextureHandle::Path(text_hash(path))
    }

    /// The handle under which a texture was stored with `key`.
    pub fn key_unchecked(key: &str) -> (r: TextureHandle)
        ensures
            r is Path,
    {
        TextureHandle::Path(text_hash(key))
    }
}

/// The handle of the texture loaded from `path`.
pub fn texture_path(path: &str) -> (r: TextureHandle)
    ensures
        r is Path,
{
    TextureHandle::from_path(path)
}

/// The per-frame drawing state: the shader-instance table, the active shader
/// instance and render target, and the queue of submitted meshes.
pub struct DrawContext {
    pub instances: Vec<ShaderInstance>,
    pub current_shader: u32,
    pub current_target: u32,
    pub queue: RenderQueue,
    pub next_shader_id: u64,
    pub default_texture: TextureHandle,
}

impl DrawContext {
    /// The active instance is `0` or a table entry, the queue is well formed,
    /// and every queued group names an instance of the current table.
    pub open spec fn wf(&self) -> bool {
        &&& self.queue.wf()
        &&& self.current_shader <= self.instances@.len()
        &&& self.instances@.len() <= u32::MAX
        &&& forall|i: int|
            0 <= i < self.queue.groups@.len() ==> (#[trigger] self.queue.groups@[i]).key.shader.0
                <= self.instances@.len()
    }

    /// The instance that id `id` (1-based) designates.
    pub open spec fn instance(&self, id: u32) -> ShaderInstance {
        self.instances@[id - 1]
    }

    /// A context with nothing queued, no instances, the default shader and
    /// target, and `default_texture` (the `1px` texture) for meshes that carry none.
    pub fn new(default_texture: TextureHandle) -> (r: DrawContext)
        ensures
            r.wf(),
            r.instances@.len() == 0,
            r.current_shader == 0,
            r.current_target == 0,
            r.queue.groups@.len() == 0,
            r.next_shader_id == 0,
            r.default_texture == default_texture,
    {
        DrawContext {
            instances: Vec::new(),
            current_shader: 0,
            current_target: 0,
            queue: RenderQueue::new(),
            next_shader_id: 0,
            default_texture,
        }
    }
}

/// The key under which `mesh` is queued in `ctx` with `blend_mode`.
pub open spec fn key_for(ctx: DrawContext, mesh: Mesh, blend_mode: BlendMode) -> MeshGroupKey {
    MeshGroupKey {
        z_index: mesh.z_index,
        blend_mode,
        texture_id: match mesh.texture {
            Some(t) => t,
            None => ctx.default_texture,
        },
        shader: ShaderInstanceId(ctx.current_shader),
        render_target: RenderTargetId(ctx.current_target),
    }
}


/// `after` is `before` with `mesh` queued under `key_for(before, mesh, blend_mode)`;
/// nothing else changes.
pub open spec fn queued(before: DrawContext, after: DrawContext, mesh: Mesh, blend_mode: BlendMode) -> bool {
    &&& after.instances == before.instances
    &&& after.current_shader == before.current_shader
    &&& after.current_target == before.current_target
    &&& after.next_shader_id == before.next_shader_id
    &&& after.default_texture == before.default_texture
    &&& total_meshes(after.queue.groups@) == total_meshes(before.queue.groups@) + 1
    &&& forall|k: MeshGroupKey| #[trigger]
        after.queue.meshes_for(k) == if k == key_for(before, mesh, blend_mode) {
            before.queue.meshes_for(k).push(mesh)
        } else {
            before.queue.meshes_for(k)
        }
}

/// `after` is `before` with a new instance of `shader_id`, without overrides,
/// appended to the table and made active.
pub open spec fn shader_started(before: DrawContext, after: DrawContext, shader_id: ShaderId) -> bool {
    &&& after.instances@.len() == before.instances@.len() + 1
    &&& after.instances@.take(before.instances@.len() as int) == before.instances@
    &&& after.current_shader == after.instances@.len()
    &&& after.instance(after.current_shader).id == shader_id
    &&& after.instance(after.current_shader).entries().len() == 0
    &&& after.current_target == before.current_target
    &&& after.queue == before.queue
    &&& after.next_shader_id == before.next_shader_id
    &&& after.default_texture == before.default_texture
}

/// `after` is `before` with a copy of the active instance, extended by the
/// binding of `name` to `value`, appended to the table and made active.
pub open spec fn uniform_set(before: DrawContext, after: DrawContext, name: Seq<char>, value: Uniform) -> bool {
    &&& after.instances@.len() == before.instances@.len() + 1
    &&& after.instances@.take(before.instances@.len() as int) == before.instances@
    &&& after.current_shader == after.instances@.len()
    &&& after.instance(after.current_shader).id == before.instance(before.current_shader).id
    &&& after.instance(after.current_shader).entries() == before.instance(
        before.current_shader,
    ).entries().push((name, value))
    &&& after.current_target == before.current_target
    &&& after.queue == before.queue
    &&& after.next_shader_id == before.next_shader_id
    &&& after.default_texture == before.default_texture
}

/// Copy-on-write of shader instances: after `use_shader`, a mesh `a` queued
/// before `set_uniform(name, value)` keeps an instance that has no binding for
/// `name`, while a mesh `b` queued after it gets an instance that binds `name`
/// to `value`; both instances are of the same shader.
pub proof fn law_uniform_copy_on_write(
    c0: DrawContext,
    c1: DrawContext,
    c2: DrawContext,
    c3: DrawContext,
    c4: DrawContext,
    shader_id: ShaderId,
    a: Mesh,
    b: Mesh,
    blend_mode: BlendMode,
    name: Seq<char>,
    value: Uniform,
)
    requires
        c0.wf(),
        shader_started(c0, c1, shader_id),
        queued(c1, c2, a, blend_mode),
        uniform_set(c2, c3, name, value),
        queued(c3, c4, b, blend_mode),
    ensures
        ({
            let ka = key_for(c1, a, blend_mode);
            let kb = key_for(c3, b, blend_mode);
            &&& 0 < ka.shader.0 < kb.shader.0 <= c4.instances@.len()
            &&& c4.instance(ka.shader.0).id == shader_id
            &&& c4.instance(kb.shader.0).id == shader_id
            &&& c4.instance(ka.shader.0).override_of(name) is None
            &&& c4.instance(kb.shader.0).override_of(name) == Some(value)
        }),
{
    let ka = key_for(c1, a, blend_mode);
    let kb = key_for(c3, b, blend_mode);
    let n1 = c1.instances@.len();
    assert(c3.instances@.take(n1 as int)[ka.shader.0 - 1] == c3.instances@[ka.shader.0 - 1]);
    assert(c4.instance(ka.shader.0) == c1.instance(ka.shader.0));
    let e = c3.instance(kb.shader.0).entries();
    assert(e.drop_last() == c2.instance(c2.current_shader).entries());
    assert(e.last() == (name, value));
    assert(find_uniform(e, name) == Some(value));
}

/// `taken` is everything `before` had queued, and `after` is `before` with an
/// empty queue.
pub open spec fn consumed(before: DrawContext, after: DrawContext, taken: Seq<MeshGroup>) -> bool {
    &&& taken == before.queue.groups@
    &&& after.queue.groups@.len() == 0
    &&& after.instances == before.instances
    &&& after.current_shader == before.current_shader
    &&& after.current_target == before.current_target
    &&& after.next_shader_id == before.next_shader_id
    &&& after.default_texture == before.default_texture
}

/// Draining the queue twice in a row: the first drain hands out every queued
/// mesh, under its key, and the second hands out nothing.
pub proof fn law_consume_drains(
    c0: DrawContext,
    c1: DrawContext,
    c2: DrawContext,
    first: Seq<MeshGroup>,
    second: Seq<MeshGroup>,
)
    requires
        c0.wf(),
        consumed(c0, c1, first),
        consumed(c1, c2, second),
    ensures
        forall|k: MeshGroupKey| #[trigger] lookup(first, k) == c0.queue.meshes_for(k),
        second.len() == 0,
        c2.queue.groups@.len() == 0,
{
}

/// The meshes of the first `n` submissions whose key is `k`, in submission
/// order; submission `i` queues `meshes[i]` with `blends[i]` from state `states[i]`.
pub open spec fn submitted_under(
    states: Seq<DrawContext>,
    meshes: Seq<Mesh>,
    blends: Seq<BlendMode>,
    k: MeshGroupKey,
    n: int,
) -> Seq<Mesh>
    decreases n,
{
    if n <= 0 {
        Seq::empty()
    } else {
        let before = submitted_under(states, meshes, blends, k, n - 1);
        if key_for(states[n - 1], meshes[n - 1], blends[n - 1]) == k {
            before.push(meshes[n - 1])
        } else {
            before
        }
    }
}

/// After a run of submissions into an empty queue, each key holds exactly the
/// meshes submitted under it, in submission order, and draining hands out
/// exactly that: as many meshes as were submitted, and an empty queue after.
pub proof fn law_queue_holds_submissions(
    states: Seq<DrawContext>,
    meshes: Seq<Mesh>,
    blends: Seq<BlendMode>,
    last: DrawContext,
    taken: Seq<MeshGroup>,
)
    requires
        states.len() == meshes.len() + 1,
        blends.len() == meshes.len(),
        states[0].queue.groups@.len() == 0,
        forall|i: int|
            0 <= i < meshes.len() ==> queued(states[i], #[trigger] states[i + 1], meshes[i], blends[i]),
        consumed(states[meshes.len() as int], last, taken),
    ensures
        forall|k: MeshGroupKey| #[trigger]
            lookup(taken, k) == submitted_under(states, meshes, blends, k, meshes.len() as int),
        total_meshes(taken) == meshes.len(),
        last.queue.groups@.len() == 0,
{
    lemma_submission_count(states, meshes, blends, meshes.len() as int);
    assert forall|k: MeshGroupKey| #[trigger]
        lookup(taken, k) == submitted_under(states, meshes, blends, k, meshes.len() as int) by {
        lemma_submissions_prefix(states, meshes, blends, k, meshes.len() as int);
    }
}

proof fn lemma_submission_count(
    states: Seq<DrawContext>,
    meshes: Seq<Mesh>,
    blends: Seq<BlendMode>,
    n: int,
)
    requires
        states.len() == meshes.len() + 1,
        blends.len() == meshes.len(),
        states[0].queue.groups@.len() == 0,
        forall|i: int|
            0 <= i < meshes.len() ==> queued(states[i], #[trigger] states[i + 1], meshes[i], blends[i]),
        0 <= n <= meshes.len(),
    ensures
        total_meshes(states[n].queue.groups@) == n,
    decreases n,
{
    if n > 0 {
        lemma_submission_count(states, meshes, blends, n - 1);
        let i = n - 1;
        assert(queued(states[i], states[i + 1], meshes[i], blends[i]));
        assert(states[i + 1] == states[n]);
    }
}

proof fn lemma_submissions_prefix(
    states: Seq<DrawContext>,
    meshes: Seq<Mesh>,
    blends: Seq<BlendMode>,
    k: MeshGroupKey,
    n: int,
)
    requires
        states.len() == meshes.len() + 1,
        blends.len() == meshes.len(),
        states[0].queue.groups@.len() == 0,
        forall|i: int|
            0 <= i < meshes.len() ==> queued(states[i], #[trigger] states[i + 1], meshes[i], blends[i]),
        0 <= n <= meshes.len(),
    ensures
        states[n].queue.meshes_for(k) == submitted_under(states, meshes, blends, k, n),
    decreases n,
{
    if n == 0 {
        assert(states[0].queue.groups@ =~= Seq::<MeshGroup>::empty());
    } else {
        lemma_submissions_prefix(states, meshes, blends, k, n - 1);
        let i = n - 1;
        assert(queued(states[i], states[i + 1], meshes[i], blends[i]));
        assert(states[i + 1] == states[n]);
    }
}

/// Queues `mesh` under the active shader instance and render target.
pub fn queue_mesh_draw(ctx: &mut DrawContext, mesh: Mesh, blend_mode: BlendMode)
    requires
        old(ctx).wf(),
    ensures
        final(ctx).wf(),
        queued(*old(ctx), *final(ctx), mesh, blend_mode),
{
    let texture_id = match mesh.texture {
        Some(t) => t,
        None => ctx.default_texture,
    };
    let key = MeshGroupKey {
        z_index: mesh.z_index,
        blend_mode,
        texture_id,
        shader: ShaderInstanceId(ctx.current_shader),
        render_target: RenderTargetId(ctx.current_target),
    };
    let ghost g0 = ctx.queue.groups@;
    ctx.queue.push(key, mesh);
    proof {
        let g1 = ctx.queue.groups@;
        assert forall|i: int| 0 <= i < g1.len() implies (#[trigger] g1[i]).key.shader.0
            <= ctx.instances@.len() by {
            let k = g1[i].key;
            crate::queue::lemma_lookup_at(g1, i);
            if k != key {
                if forall|j: int| 0 <= j < g0.len() ==> g0[j].key != k {
                    crate::queue::lemma_lookup_absent(g0, k);
                    assert(ctx.queue.meshes_for(k).len() == 0);
                } else {
                    let j = choose|j: int| 0 <= j < g0.len() && g0[j].key == k;
                    assert(g0[j].key.shader.0 <= ctx.instances@.len());
                }
            }
        }
    }
}

/// Hands out everything queued this frame, in key order, and empties the queue.
pub fn consume_render_queues(ctx: &mut DrawContext) -> (r: Vec<MeshGroup>)
    requires
        old(ctx).wf(),
    ensures
        final(ctx).wf(),
        groups_sorted(r@),
        consumed(*old(ctx), *final(ctx), r@),
{
    ctx.queue.take_all()
}

/// Starts a new instance of shader `shader_id` with no overrides and makes it active.
pub fn use_shader(ctx: &mut DrawContext, shader_id: ShaderId)
    requires
        old(ctx).wf(),
        old(ctx).instances@.len() < u32::MAX,
    ensures
        final(ctx).wf(),
        shader_started(*old(ctx), *final(ctx), shader_id),
{
    ctx.instances.push(ShaderInstance { id: shader_id, uniforms: Vec::new() });
    ctx.current_shader = ctx.instances.len() as u32;
    assert(ctx.instances@.take(ctx.instances@.len() - 1) == old(ctx).instances@);
}

/// Binds `name` to `value` for the draws that follow: the active instance is
/// copied with the new binding, the copy is appended, and the copy becomes active.
/// Instances made before are left as they were.
pub fn set_uniform(ctx: &mut DrawContext, name: &str, value: Uniform)
    requires
        old(ctx).wf(),
        old(ctx).current_shader > 0,
        old(ctx).instances@.len() < u32::MAX,
    ensures
        final(ctx).wf(),
        uniform_set(*old(ctx), *final(ctx), name@, value),
{
    let idx = (ctx.current_shader - 1) as usize;
    let copy = ctx.instances[idx].with_uniform(name, value);
    ctx.instances.push(copy);
    ctx.current_shader = ctx.instances.len() as u32;
    assert(ctx.instances@.take(ctx.instances@.len() - 1) == old(ctx).instances@);
}

/// Makes the built-in sprite pipeline active again.
pub fn use_default_shader(ctx: &mut DrawContext)
    requires
        old(ctx).wf(),
    ensures
        final(ctx).wf(),
        *final(ctx) == (DrawContext { current_shader: 0, ..*old(ctx) }),
{
    ctx.current_shader = 0;
}

/// The active shader instance.
pub fn get_current_shader(ctx: &DrawContext) -> (r: ShaderInstanceId)
    ensures
        r.0 == ctx.current_shader,
{
    ShaderInstanceId(ctx.current_shader)
}

/// The instance that `id` designates.
pub fn get_shader_instance(ctx: &DrawContext, id: ShaderInstanceId) -> (r: &ShaderInstance)
    requires
        0 < id.0 <= ctx.instances@.len(),
    ensures
        *r == ctx.instance(id.0),
{
    &ctx.instances[(id.0 - 1) as usize]
}

/// Empties the instance table at the end of a frame and makes the default
/// shader active; the frame's queue must have been consumed.
pub fn clear_shader_uniform_table(ctx: &mut DrawContext)
    requires
        old(ctx).wf(),
        old(ctx).queue.groups@.len() == 0,
    ensures
        final(ctx).wf(),
        final(ctx).instances@.len() == 0,
        final(ctx).current_shader == 0,
        final(ctx).current_target == old(ctx).current_target,
        final(ctx).queue == old(ctx).queue,
        final(ctx).next_shader_id == old(ctx).next_shader_id,
        final(ctx).default_texture == old(ctx).default_texture,
{
    ctx.instances.clear();
    ctx.current_shader = 0;
}

/// Directs the draws that follow into render target `id`.
pub fn use_render_target(ctx: &mut DrawContext, id: RenderTargetId)
    requires
        old(ctx).wf(),
    ensures
        final(ctx).wf(),
        *final(ctx) == (DrawContext { current_target: id.0, ..*old(ctx) }),
{
    ctx.current_target = id.0;
}

/// Directs the draws that follow into the default target.
pub fn use_default_render_target(ctx: &mut DrawContext)
    requires
        old(ctx).wf(),
    ensures
        final(ctx).wf(),
        *final(ctx) == (DrawContext { current_target: 0, ..*old(ctx) }),
{
    ctx.current_target = 0;
}

/// The render target that draws go to.
pub fn get_current_render_target(ctx: &DrawContext) -> (r: RenderTargetId)
    ensures
        r.0 == ctx.current_target,
{
    RenderTargetId(ctx.current_target)
}

/// A fresh shader id: ids are handed out in increasing order from `0`.
pub fn gen_shader_id(ctx: &mut DrawContext) -> (r: ShaderId)
    requires
        old(ctx).next_shader_id < u64::MAX,
    ensures
        r.0 == old(ctx).next_shader_id,
        *final(ctx) == (DrawContext { next_shader_id: (old(ctx).next_shader_id + 1) as u64, ..*old(ctx) }),
{
    let id = ctx.next_shader_id;
    ctx.next_shader_id = id + 1;
    ShaderId(id)
}

} // verus!
