use vstd::prelude::*;

use crate::handles::{key_lt, BlendMode, MeshGroupKey, RenderTargetId, ShaderInstanceId, TextureHandle};
use crate::mesh::{batch_meshes, concat_indices, concat_vertices, Mesh, SpriteVertex};
use crate::queue::{groups_sorted, MeshGroup};
use crate::ysort::{get_y_sort, YSortFlags};

verus! {

/// `i` is the first position of `s` whose depth key lies below `k`.
pub open spec fn is_first_below(s: Seq<Mesh>, k: u32, i: int) -> bool {
    &&& 0 <= i < s.len()
    &&& s[i].y_sort_key < k
    &&& forall|j: int| 0 <= j < i ==> s[j].y_sort_key >= k
}

/// Where a mesh of depth key `k` goes in `s`: before the first mesh that lies
/// below it, else at the end.
pub open spec fn first_below(s: Seq<Mesh>, k: u32) -> int {
    if exists|i: int| is_first_below(s, k, i) {
        choose|i: int| is_first_below(s, k, i)
    } else {
        s.len() as int
    }
}

/// `s` arranged back to front: by descending depth key, meshes of equal key
/// in submission order.
pub open spec fn y_sorted(s: Seq<Mesh>) -> Seq<Mesh>
    decreases s.len(),
{
    if s.len() == 0 {
        Seq::empty()
    } else {
        let rest = y_sorted(s.drop_last());
        rest.insert(first_below(rest, s.last().y_sort_key), s.last())
    }
}

proof fn lemma_below_has_first(s: Seq<Mesh>, k: u32, i: int)
    requires
        0 <= i < s.len(),
        s[i].y_sort_key < k,
    ensures
        exists|q: int| is_first_below(s, k, q),
    decreases i,
{
    if !is_first_below(s, k, i) {
        let j = choose|j: int| 0 <= j < i && s[j].y_sort_key < k;
        lemma_below_has_first(s, k, j);
    }
}

proof fn lemma_first_below_range(s: Seq<Mesh>, k: u32)
    ensures
        0 <= first_below(s, k) <= s.len(),
        forall|j: int| 0 <= j < first_below(s, k) ==> s[j].y_sort_key >= k,
        first_below(s, k) < s.len() ==> s[first_below(s, k)].y_sort_key < k,
{
    if !exists|q: int| is_first_below(s, k, q) {
        assert forall|j: int| 0 <= j < s.len() implies s[j].y_sort_key >= k by {
            if s[j].y_sort_key < k {
                lemma_below_has_first(s, k, j);
            }
        }
    }
}

proof fn lemma_concat_len_insert(s: Seq<Mesh>, p: int, x: Mesh)
    requires
        0 <= p <= s.len(),
    ensures
        concat_vertices(s.insert(p, x)).len() == concat_vertices(s).len() + x.vertices@.len(),
    decreases s.len(),
{
    if p == s.len() {
        assert(s.insert(p, x).drop_last() == s);
    } else {
        assert(s.insert(p, x).drop_last() == s.drop_last().insert(p, x));
        lemma_concat_len_insert(s.drop_last(), p, x);
    }
}

/// Arranging meshes by depth keeps their vertex count.
pub proof fn lemma_y_sorted_vertex_count(s: Seq<Mesh>)
    ensures
        concat_vertices(y_sorted(s)).len() == concat_vertices(s).len(),
        y_sorted(s).len() == s.len(),
    decreases s.len(),
{
    if s.len() > 0 {
        lemma_y_sorted_vertex_count(s.drop_last());
        let rest = y_sorted(s.drop_last());
        lemma_first_below_range(rest, s.last().y_sort_key);
        lemma_concat_len_insert(rest, first_below(rest, s.last().y_sort_key), s.last());
    }
}

/// Holds of a mesh whose depth key is `k`.
pub open spec fn key_is(k: u32) -> spec_fn(Mesh) -> bool {
    |m: Mesh| m.y_sort_key == k
}

proof fn lemma_filter_none(s: Seq<Mesh>, k: u32)
    requires
        forall|i: int| 0 <= i < s.len() ==> s[i].y_sort_key != k,
    ensures
        s.filter(key_is(k)) == Seq::<Mesh>::empty(),
{
    let f = key_is(k);
    if s.filter(f).len() > 0 {
        s.lemma_filter_pred(f, 0);
        assert(s.filter(f).contains(s.filter(f)[0]));
        s.lemma_filter_contains_rev(f, s.filter(f)[0]);
    }
    assert(s.filter(f) =~= Seq::<Mesh>::empty());
}

proof fn lemma_filter_one(x: Mesh, k: u32)
    ensures
        seq![x].filter(key_is(k)) == if x.y_sort_key == k {
            seq![x]
        } else {
            Seq::<Mesh>::empty()
        },
{
    reveal_with_fuel(Seq::filter, 2);
    assert(seq![x].drop_last() =~= Seq::<Mesh>::empty());
    assert(Seq::<Mesh>::empty().push(x) =~= seq![x]);
}

/// Arranging by depth keeps the meshes of each depth key in their order.
proof fn lemma_y_sorted_stable(s: Seq<Mesh>, k: u32)
    ensures
        y_sorted(s).filter(key_is(k)) == s.filter(key_is(k)),
    decreases s.len(),
{
    if s.len() > 0 {
        let rest = y_sorted(s.drop_last());
        let x = s.last();
        let p = first_below(rest, x.y_sort_key);
        let f = key_is(k);
        lemma_y_sorted_stable(s.drop_last(), k);
        lemma_first_below_range(rest, x.y_sort_key);
        law_y_sorted_back_to_front(s.drop_last());
        let a = rest.take(p);
        let b = rest.skip(p);
        assert(rest.insert(p, x) =~= (a + seq![x]) + b);
        assert(rest =~= a + b);
        assert(s =~= s.drop_last() + seq![x]);
        Seq::filter_distributes_over_add(a + seq![x], b, f);
        Seq::filter_distributes_over_add(a, seq![x], f);
        Seq::filter_distributes_over_add(a, b, f);
        Seq::filter_distributes_over_add(s.drop_last(), seq![x], f);
        lemma_filter_one(x, k);
        if x.y_sort_key == k {
            assert forall|i: int| 0 <= i < b.len() implies b[i].y_sort_key != k by {
                assert(b[i] == rest[p + i]);
                if i > 0 {
                    assert(rest[p].y_sort_key >= rest[p + i].y_sort_key);
                }
            }
            lemma_filter_none(b, k);
            assert(b.filter(f) + Seq::<Mesh>::empty() =~= b.filter(f));
            assert(a.filter(f) + Seq::<Mesh>::empty() =~= a.filter(f));
        } else {
            assert(a.filter(f) + Seq::<Mesh>::empty() =~= a.filter(f));
            assert(s.drop_last().filter(f) + Seq::<Mesh>::empty() =~= s.drop_last().filter(f));
        }
    }
}

/// Arranging by depth only reorders.
proof fn lemma_y_sorted_multiset(s: Seq<Mesh>)
    ensures
        y_sorted(s).to_multiset() == s.to_multiset(),
    decreases s.len(),
{
    broadcast use vstd::seq_lib::group_to_multiset_ensures;

    if s.len() > 0 {
        let rest = y_sorted(s.drop_last());
        lemma_y_sorted_multiset(s.drop_last());
        lemma_first_below_range(rest, s.last().y_sort_key);
        assert(s == s.drop_last().push(s.last()));
    }
}

/// Arranges `meshes` back to front, as `y_sorted` describes: a reordering
/// of the input whose depth keys never increase, in which the meshes of each
/// key keep their submission order.
pub fn y_sort_meshes(meshes: Vec<Mesh>) -> (r: Vec<Mesh>)
    ensures
        r@ == y_sorted(meshes@),
        r@.to_multiset() == meshes@.to_multiset(),
        forall|i: int, j: int| 0 <= i < j < r@.len() ==> r@[i].y_sort_key >= r@[j].y_sort_key,
        forall|k: u32| #[trigger] r@.filter(key_is(k)) == meshes@.filter(key_is(k)),
{
    proof {
        lemma_y_sorted_multiset(meshes@);
        law_y_sorted_back_to_front(meshes@);
        assert forall|k: u32| #[trigger] y_sorted(meshes@).filter(key_is(k)) == meshes@.filter(key_is(k)) by {
            lemma_y_sorted_stable(meshes@, k);
        }
    }
    let ghost orig = meshes@;
    let mut input = meshes;
    let mut out: Vec<Mesh> = Vec::new();
    let ghost mut n: int = 0;
    while input.len() > 0
        invariant
            0 <= n <= orig.len(),
            input@ == orig.skip(n),
            out@ == y_sorted(orig.take(n)),
        decreases input@.len(),
    {
        let m = input.remove(0);
        let k = m.y_sort_key;
        let mut p: usize = 0;
        while p < out.len() && out[p].y_sort_key >= k
            invariant
                p <= out@.len(),
                forall|j: int| 0 <= j < p ==> out@[j].y_sort_key >= k,
            decreases out@.len() - p,
        {
            p = p + 1;
        }
        proof {
            let s = out@;
            if p < s.len() {
                assert(is_first_below(s, k, p as int));
                let c = choose|i: int| is_first_below(s, k, i);
                if c < p {
                    assert(s[c].y_sort_key >= k);
                }
                if c > p {
                    assert(s[p as int].y_sort_key >= k);
                }
            } else {
                assert(!exists|i: int| is_first_below(s, k, i));
            }
            assert(first_below(s, k) == p);
            let t = orig.take(n + 1);
            assert(t.drop_last() == orig.take(n));
            assert(t.last() == m);
            assert(orig.skip(n + 1) == orig.skip(n).drop_first());
        }
        out.insert(p, m);
        proof {
            n = n + 1;
        }
    }
    assert(orig.take(n) == orig);
    out
}

/// The meshes of `g` in drawing order: y-sorted when its z-index asks for it.
pub open spec fn arranged(g: MeshGroup, flags: YSortFlags) -> Seq<Mesh> {
    if flags.enabled(g.key.z_index) {
        y_sorted(g.meshes@)
    } else {
        g.meshes@
    }
}

/// What a pass samples as its texture.
#[derive(Copy, Clone, Debug, PartialEq, Eq, Structural)]
pub enum TextureBinding {
    /// A registered texture.
    Texture(TextureHandle),
    /// The resolved colour of a render target.
    TargetBlit(RenderTargetId),
}

/// The binding used for texture `h`: a render target that does not exist falls
/// back to the default target, a texture that is not registered to `error_texture`.
pub open spec fn binding_for(
    h: TextureHandle,
    textures: Seq<TextureHandle>,
    targets: Seq<RenderTargetId>,
    error_texture: TextureHandle,
) -> TextureBinding {
    match h {
        TextureHandle::RenderTarget(id) => if targets.contains(id) {
            TextureBinding::TargetBlit(id)
        } else {
            TextureBinding::TargetBlit(RenderTargetId(0))
        },
        _ => if textures.contains(h) {
            TextureBinding::Texture(h)
        } else {
            TextureBinding::Texture(error_texture)
        },
    }
}

fn has_texture(textures: &Vec<TextureHandle>, h: TextureHandle) -> (r: bool)
    ensures
        r == textures@.contains(h),
{
    let mut i: usize = 0;
    while i < textures.len()
        invariant
            i <= textures@.len(),
            forall|j: int| 0 <= j < i ==> textures@[j] != h,
        decreases textures@.len() - i,
    {
        if textures[i] == h {
            return true;
        }
        i = i + 1;
    }
    false
}

fn has_target(targets: &Vec<RenderTargetId>, id: RenderTargetId) -> (r: bool)
    ensures
        r == targets@.contains(id),
{
    let mut i: usize = 0;
    while i < targets.len()
        invariant
            i <= targets@.len(),
            forall|j: int| 0 <= j < i ==> targets@[j] != id,
        decreases targets@.len() - i,
    {
        if targets[i].0 == id.0 {
            return true;
        }
        i = i + 1;
    }
    false
}

/// Resolves texture `h` against the registered textures and render targets,
/// substituting the error texture or the default target for what is missing.
pub fn resolve_texture_binding(
    h: TextureHandle,
    textures: &Vec<TextureHandle>,
    targets: &Vec<RenderTargetId>,
    error_texture: TextureHandle,
) -> (r: TextureBinding)
    requires
        textures@.contains(error_texture),
        targets@.contains(RenderTargetId(0)),
    ensures
        r == binding_for(h, textures@, targets@, error_texture),
        r matches TextureBinding::Texture(t) ==> textures@.contains(t),
        r matches TextureBinding::TargetBlit(id) ==> targets@.contains(id),
{
    match h {
        TextureHandle::RenderTarget(id) => {
            if has_target(targets, id) {
                TextureBinding::TargetBlit(id)
            } else {
                TextureBinding::TargetBlit(RenderTargetId(0))
            }
        },
        _ => {
            if has_texture(textures, h) {
                TextureBinding::Texture(h)
            } else {
                TextureBinding::Texture(error_texture)
            }
        },
    }
}

/// How a pass treats what its target already holds.
#[derive(Copy, Clone, Debug, PartialEq, Eq, Structural)]
pub enum LoadAction {
    /// Clear colour and depth first.
    Clear,
    /// Keep the earlier contents.
    Load,
}

/// The draw a pass issues.
#[derive(Copy, Clone, Debug, PartialEq, Eq, Structural)]
pub enum DrawCall {
    /// Draw this many indices.
    Indexed(usize),
    /// Draw this many vertices, without indices.
    NonIndexed(usize),
}

/// One render pass of a frame: its batching key, the texture it samples, its
/// merged geometry, how it loads its target and what it draws.
pub struct PassPlan {
    pub key: MeshGroupKey,
    pub texture: TextureBinding,
    pub vertices: Vec<SpriteVertex>,
    pub indices: Vec<u32>,
    pub load: LoadAction,
    pub draw: DrawCall,
}

/// No group before position `i` draws into the target of group `i`.
pub open spec fn first_into_target(groups: Seq<MeshGroup>, i: int) -> bool {
    forall|j: int|
        0 <= j < i ==> groups[j].key.render_target != groups[i].key.render_target
}

pub open spec fn load_for(groups: Seq<MeshGroup>, i: int) -> LoadAction {
    if first_into_target(groups, i) {
        LoadAction::Clear
    } else {
        LoadAction::Load
    }
}

pub open spec fn draw_for(vertex_count: int, indices: Seq<u32>) -> DrawCall {
    if indices.len() == 0 {
        DrawCall::NonIndexed(vertex_count as usize)
    } else {
        DrawCall::Indexed(indices.len() as usize)
    }
}

/// The key of the pass drawn on a frame with nothing queued.
pub open spec fn empty_frame_key(texture: TextureHandle) -> MeshGroupKey {
    MeshGroupKey {
        z_index: 0,
        blend_mode: BlendMode::Alpha,
        texture_id: texture,
        shader: ShaderInstanceId(0),
        render_target: RenderTargetId(0),
    }
}

/// Pass `p` is what group `i` of `groups` turns into.
pub open spec fn pass_of_group(
    p: PassPlan,
    groups: Seq<MeshGroup>,
    i: int,
    flags: YSortFlags,
    textures: Seq<TextureHandle>,
    targets: Seq<RenderTargetId>,
    error_texture: TextureHandle,
) -> bool {
    let g = groups[i];
    let ms = arranged(g, flags);
    &&& p.key == g.key
    &&& p.texture == binding_for(g.key.texture_id, textures, targets, error_texture)
    &&& p.vertices@ == concat_vertices(ms)
    &&& p.indices@ == concat_indices(ms)
    &&& p.load == load_for(groups, i)
    &&& p.draw == draw_for(p.vertices@.len() as int, p.indices@)
}

/// Pass `p` is the one drawn on an empty frame: nothing drawn, the default
/// target cleared.
pub open spec fn is_empty_frame_pass(
    p: PassPlan,
    textures: Seq<TextureHandle>,
    targets: Seq<RenderTargetId>,
    error_texture: TextureHandle,
    fallback_texture: TextureHandle,
) -> bool {
    &&& p.key == empty_frame_key(fallback_texture)
    &&& p.texture == binding_for(fallback_texture, textures, targets, error_texture)
    &&& p.vertices@.len() == 0
    &&& p.indices@.len() == 0
    &&& p.load == LoadAction::Clear
    &&& p.draw == DrawCall::NonIndexed(0)
}

/// Turns the drained queue into the frame's passes, one per group in key
/// order; a frame with no groups gets one empty pass so that the default target
/// is still cleared. Every group must draw into a registered render target.
pub fn plan_frame(
    groups: Vec<MeshGroup>,
    flags: &YSortFlags,
    textures: &Vec<TextureHandle>,
    targets: &Vec<RenderTargetId>,
    error_texture: TextureHandle,
    fallback_texture: TextureHandle,
) -> (r: Vec<PassPlan>)
    requires
        groups_sorted(groups@),
        forall|i: int|
            0 <= i < groups@.len() ==> concat_vertices(#[trigger] groups@[i].meshes@).len()
                <= u32::MAX,
        textures@.contains(error_texture),
        targets@.contains(RenderTargetId(0)),
        forall|i: int|
            0 <= i < groups@.len() ==> targets@.contains(#[trigger] groups@[i].key.render_target),
    ensures
        groups@.len() == 0 ==> r@.len() == 1 && is_empty_frame_pass(
            r@[0],
            textures@,
            targets@,
            error_texture,
            fallback_texture,
        ),
        groups@.len() > 0 ==> r@.len() == groups@.len() && forall|i: int|
            0 <= i < r@.len() ==> pass_of_group(
                #[trigger] r@[i],
                groups@,
                i,
                *flags,
                textures@,
                targets@,
                error_texture,
            ),
{
    let ghost orig = groups@;
    let mut out: Vec<PassPlan> = Vec::new();
    if groups.len() == 0 {
        let texture = resolve_texture_binding(fallback_texture, textures, targets, error_texture);
        let key = MeshGroupKey {
            z_index: 0,
            blend_mode: BlendMode::Alpha,
            texture_id: fallback_texture,
            shader: ShaderInstanceId(0),
            render_target: RenderTargetId(0),
        };
        out.push(
            PassPlan {
                key,
                texture,
                vertices: Vec::new(),
                indices: Vec::new(),
                load: LoadAction::Clear,
                draw: DrawCall::NonIndexed(0),
            },
        );
        return out;
    }
    let total = groups.len();
    let mut input = groups;
    let mut seen: Vec<u32> = Vec::new();
    let mut i: usize = 0;
    while input.len() > 0
        invariant
            i <= orig.len(),
            orig.len() == total,
            input@ == orig.skip(i as int),
            out@.len() == i,
            forall|j: int|
                0 <= j < i ==> pass_of_group(
                    #[trigger] out@[j],
                    orig,
                    j,
                    *flags,
                    textures@,
                    targets@,
                    error_texture,
                ),
            forall|t: u32|
                seen@.contains(t) <==> exists|j: int|
                    0 <= j < i && #[trigger] orig[j].key.render_target.0 == t,
            forall|j: int|
                0 <= j < orig.len() ==> concat_vertices(#[trigger] orig[j].meshes@).len()
                    <= u32::MAX,
            textures@.contains(error_texture),
            targets@.contains(RenderTargetId(0)),
        decreases input@.len(),
    {
        assert(i < orig.len());
        let g = input.remove(0);
        assert(g == orig[i as int]);
        assert(orig.skip(i as int + 1) == orig.skip(i as int).drop_first());
        let key = g.key;
        let target = key.render_target.0;
        let mut k: usize = 0;
        let mut found = false;
        while k < seen.len()
            invariant
                k <= seen@.len(),
                found == exists|j: int| 0 <= j < k && seen@[j] == target,
            decreases seen@.len() - k,
        {
            if seen[k] == target {
                found = true;
            }
            k = k + 1;
        }
        let load = if found {
            LoadAction::Load
        } else {
            LoadAction::Clear
        };
        proof {
            if found {
                let j = choose|j: int| 0 <= j < k && seen@[j] == target;
                assert(seen@.contains(target));
                let j2 = choose|j2: int| 0 <= j2 < i && #[trigger] orig[j2].key.render_target.0 == target;
                assert(orig[j2].key.render_target == key.render_target);
                assert(!first_into_target(orig, i as int));
            } else {
                assert(!seen@.contains(target));
                assert forall|j: int| 0 <= j < i implies orig[j].key.render_target
                    != orig[i as int].key.render_target by {
                    if orig[j].key.render_target == orig[i as int].key.render_target {
                        assert(orig[j].key.render_target.0 == target);
                    }
                }
            }
        }
        let ghost seen0 = seen@;
        if !found {
            seen.push(target);
        }
        proof {
            assert forall|t: u32|
                seen@.contains(t) <==> exists|j: int|
                    0 <= j < i + 1 && #[trigger] orig[j].key.render_target.0 == t by {
                if seen@.contains(t) {
                    if seen0.contains(t) {
                        let j = choose|j: int| 0 <= j < i && #[trigger] orig[j].key.render_target.0 == t;
                        assert(0 <= j < i + 1 && orig[j].key.render_target.0 == t);
                    } else {
                        let j = choose|j: int| 0 <= j < seen@.len() && seen@[j] == t;
                        if !found {
                            if j < seen0.len() {
                                assert(seen0[j] == t);
                            }
                        } else {
                            assert(seen0[j] == t);
                        }
                        assert(t == target);
                        assert(orig[i as int].key.render_target.0 == t);
                    }
                }
                if exists|j: int| 0 <= j < i + 1 && #[trigger] orig[j].key.render_target.0 == t {
                    let j = choose|j: int| 0 <= j < i + 1 && #[trigger] orig[j].key.render_target.0 == t;
                    if j < i {
                        assert(seen0.contains(t));
                        let q = choose|q: int| 0 <= q < seen0.len() && seen0[q] == t;
                        assert(seen@[q] == t);
                    } else {
                        assert(t == target);
                        if found {
                            let q = choose|q: int| 0 <= q < k && seen@[q] == target;
                            assert(seen@[q] == t);
                        } else {
                            assert(seen@[seen@.len() - 1] == t);
                        }
                    }
                }
            }
        }
        let texture = resolve_texture_binding(key.texture_id, textures, targets, error_texture);
        let ghost before_sort = g.meshes@;
        let meshes = if get_y_sort(flags, key.z_index) {
            proof {
                lemma_y_sorted_vertex_count(before_sort);
            }
            y_sort_meshes(g.meshes)
        } else {
            g.meshes
        };
        let (vertices, indices) = batch_meshes(&meshes);
        let draw = if indices.len() == 0 {
            DrawCall::NonIndexed(vertices.len())
        } else {
            DrawCall::Indexed(indices.len())
        };
        out.push(PassPlan { key, texture, vertices, indices, load, draw });
        i = i + 1;
    }
    assert(orig.skip(i as int).len() == 0);
    out
}

/// Passes are issued in key order: a group of lower z-index is always drawn
/// before a group of higher z-index.
pub proof fn law_z_order(
    passes: Seq<PassPlan>,
    groups: Seq<MeshGroup>,
    flags: YSortFlags,
    textures: Seq<TextureHandle>,
    targets: Seq<RenderTargetId>,
    error_texture: TextureHandle,
    i: int,
    j: int,
)
    requires
        groups_sorted(groups),
        passes.len() == groups.len(),
        forall|k: int|
            0 <= k < passes.len() ==> pass_of_group(
                #[trigger] passes[k],
                groups,
                k,
                flags,
                textures,
                targets,
                error_texture,
            ),
        0 <= i < passes.len(),
        0 <= j < passes.len(),
        passes[i].key.z_index < passes[j].key.z_index,
    ensures
        i < j,
{
    assert(pass_of_group(passes[i], groups, i, flags, textures, targets, error_texture));
    assert(pass_of_group(passes[j], groups, j, flags, textures, targets, error_texture));
    if j < i {
        assert(key_lt(groups[j].key, groups[i].key));
    }
}

/// Within a frame each render target is cleared once: the first pass into a
/// target clears it and every later pass into the same target loads it.
pub proof fn law_clear_once_per_target(
    passes: Seq<PassPlan>,
    groups: Seq<MeshGroup>,
    flags: YSortFlags,
    textures: Seq<TextureHandle>,
    targets: Seq<RenderTargetId>,
    error_texture: TextureHandle,
    i: int,
    j: int,
)
    requires
        passes.len() == groups.len(),
        forall|k: int|
            0 <= k < passes.len() ==> pass_of_group(
                #[trigger] passes[k],
                groups,
                k,
                flags,
                textures,
                targets,
                error_texture,
            ),
        0 <= i < j < passes.len(),
        passes[i].key.render_target == passes[j].key.render_target,
        forall|k: int|
            0 <= k < i ==> #[trigger] passes[k].key.render_target != passes[i].key.render_target,
    ensures
        passes[i].load == LoadAction::Clear,
        passes[j].load == LoadAction::Load,
{
    assert(pass_of_group(passes[i], groups, i, flags, textures, targets, error_texture));
    assert(pass_of_group(passes[j], groups, j, flags, textures, targets, error_texture));
    assert forall|k: int| 0 <= k < i implies groups[k].key.render_target
        != groups[i].key.render_target by {
        assert(pass_of_group(passes[k], groups, k, flags, textures, targets, error_texture));
    }
}

/// A texture that is not registered is drawn with the error texture, and a
/// render target that does not exist with the default target.
pub proof fn law_missing_texture_fallback(
    passes: Seq<PassPlan>,
    groups: Seq<MeshGroup>,
    flags: YSortFlags,
    textures: Seq<TextureHandle>,
    targets: Seq<RenderTargetId>,
    error_texture: TextureHandle,
    i: int,
)
    requires
        0 <= i < passes.len(),
        pass_of_group(passes[i], groups, i, flags, textures, targets, error_texture),
    ensures
        !(groups[i].key.texture_id is RenderTarget) && !textures.contains(groups[i].key.texture_id)
            ==> passes[i].texture == TextureBinding::Texture(error_texture),
        groups[i].key.texture_id matches TextureHandle::RenderTarget(id) && !targets.contains(id)
            ==> passes[i].texture == TextureBinding::TargetBlit(RenderTargetId(0)),
{
}

/// Arranging by depth puts meshes back to front: keys never increase along
/// the result.
pub proof fn law_y_sorted_back_to_front(s: Seq<Mesh>)
    ensures
        forall|i: int, j: int|
            0 <= i < j < y_sorted(s).len() ==> y_sorted(s)[i].y_sort_key >= y_sorted(
                s,
            )[j].y_sort_key,
    decreases s.len(),
{
    if s.len() > 0 {
        law_y_sorted_back_to_front(s.drop_last());
        let rest = y_sorted(s.drop_last());
        let m = s.last();
        let k = m.y_sort_key;
        let p = first_below(rest, k);
        lemma_first_below_range(rest, k);
        let r = rest.insert(p, m);
        assert forall|i: int, j: int| 0 <= i < j < r.len() implies r[i].y_sort_key
            >= r[j].y_sort_key by {
            if i < p && j == p {
                assert(rest[i].y_sort_key >= k);
            } else if i == p && j > p {
                assert(rest[j - 1].y_sort_key <= rest[p].y_sort_key);
            } else if i < p && j > p {
                assert(rest[i].y_sort_key >= rest[j - 1].y_sort_key);
            } else if i > p {
                assert(rest[i - 1].y_sort_key >= rest[j - 1].y_sort_key);
            }
        }
    }
}

/// Of two meshes with y-sorting on, the one further back (larger depth key) is
/// drawn first, whichever was submitted first.
pub proof fn law_y_sort_two_meshes(front: Mesh, back: Mesh)
    requires
        front.y_sort_key < back.y_sort_key,
    ensures
        y_sorted(seq![front, back]) == seq![back, front],
        y_sorted(seq![back, front]) == seq![back, front],
{
    let s1 = seq![front, back];
    assert(s1.drop_last() == seq![front]);
    assert(seq![front].drop_last() == Seq::<Mesh>::empty());
    let one = y_sorted(seq![front]);
    assert(y_sorted(Seq::<Mesh>::empty()) == Seq::<Mesh>::empty());
    assert(first_below(Seq::<Mesh>::empty(), front.y_sort_key) == 0);
    assert(Seq::<Mesh>::empty().insert(0, front) == seq![front]);
    assert(one == seq![front]);
    assert(is_first_below(one, back.y_sort_key, 0));
    let c = choose|q: int| is_first_below(one, back.y_sort_key, q);
    assert(c == 0);
    assert(y_sorted(s1) == seq![back, front]);
    let s2 = seq![back, front];
    assert(s2.drop_last() == seq![back]);
    assert(seq![back].drop_last() == Seq::<Mesh>::empty());
    assert(first_below(Seq::<Mesh>::empty(), back.y_sort_key) == 0);
    let two = y_sorted(seq![back]);
    assert(Seq::<Mesh>::empty().insert(0, back) == seq![back]);
    assert(two == seq![back]);
    assert(!exists|q: int| is_first_below(two, front.y_sort_key, q));
    assert(y_sorted(s2) == seq![back, front]);
}

} // verus!
