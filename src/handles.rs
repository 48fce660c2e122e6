use vstd::prelude::*;

verus! {

/// Identifies a registered shader program.
#[derive(Copy, Clone, Debug, PartialEq, Eq, Hash, Structural)]
pub struct ShaderId(pub u64);

/// Identifies a shader instance in the per-frame instance table.
/// `0` stands for the built-in sprite pipeline; real instances are numbered from `1`.
#[derive(Copy, Clone, Debug, Default, PartialEq, Eq, Hash, PartialOrd, Ord, Structural)]
pub struct ShaderInstanceId(pub u32);

/// Identifies a render target; `0` is the window-backed default target.
#[derive(Copy, Clone, Debug, Default, PartialEq, Eq, Hash, PartialOrd, Ord, Structural)]
pub struct RenderTargetId(pub u32);

/// How the fragments of a draw are combined with the target. `Unset` takes
/// the default alpha blend of the built-in pipeline.
#[derive(Copy, Clone, Debug, PartialEq, Eq, Hash, PartialOrd, Ord, Structural)]
pub enum BlendMode {
    Unset,
    Additive,
    Alpha,
}

/// Where a mesh takes its texture from.
#[derive(Copy, Clone, Debug, PartialEq, Eq, Hash, PartialOrd, Ord, Structural)]
pub enum TextureHandle {
    Path(u64),
    Raw(u64),
    RenderTarget(RenderTargetId),
}

/// The batching key: meshes that share it are drawn in one pass.
#[derive(Copy, Clone, Debug, PartialEq, Eq, Hash, PartialOrd, Ord, Structural)]
pub struct MeshGroupKey {
    pub z_index: i32,
    pub blend_mode: BlendMode,
    pub texture_id: TextureHandle,
    pub shader: ShaderInstanceId,
    pub render_target: RenderTargetId,
}

pub open spec fn blend_rank(b: BlendMode) -> int {
    match b {
        BlendMode::Unset => 0,
        BlendMode::Additive => 1,
        BlendMode::Alpha => 2,
    }
}

pub open spec fn texture_rank(t: TextureHandle) -> int {
    match t {
        TextureHandle::Path(_) => 0,
        TextureHandle::Raw(_) => 1,
        TextureHandle::RenderTarget(_) => 2,
    }
}

pub open spec fn texture_payload(t: TextureHandle) -> int {
    match t {
        TextureHandle::Path(h) => h as int,
        TextureHandle::Raw(h) => h as int,
        TextureHandle::RenderTarget(id) => id.0 as int,
    }
}

/// Strict order of textures: by variant, then by payload.
pub open spec fn texture_lt(a: TextureHandle, b: TextureHandle) -> bool {
    texture_rank(a) < texture_rank(b) || (texture_rank(a) == texture_rank(b) && texture_payload(a)
        < texture_payload(b))
}

/// Strict total order of group keys: z-index first, then blend mode, texture,
/// shader instance and render target (the field order of the key).
pub open spec fn key_lt(a: MeshGroupKey, b: MeshGroupKey) -> bool {
    if a.z_index != b.z_index {
        a.z_index < b.z_index
    } else if a.blend_mode != b.blend_mode {
        blend_rank(a.blend_mode) < blend_rank(b.blend_mode)
    } else if a.texture_id != b.texture_id {
        texture_lt(a.texture_id, b.texture_id)
    } else if a.shader != b.shader {
        a.shader.0 < b.shader.0
    } else {
        a.render_target.0 < b.render_target.0
    }
}

pub proof fn lemma_texture_order(a: TextureHandle, b: TextureHandle)
    ensures
        a == b <==> (texture_rank(a) == texture_rank(b) && texture_payload(a) == texture_payload(b)),
{
}

/// `key_lt` is a strict total order.
pub proof fn lemma_key_order(a: MeshGroupKey, b: MeshGroupKey, c: MeshGroupKey)
    ensures
        !key_lt(a, a),
        a != b ==> (key_lt(a, b) || key_lt(b, a)),
        !(key_lt(a, b) && key_lt(b, a)),
        key_lt(a, b) && key_lt(b, c) ==> key_lt(a, c),
        a.z_index < b.z_index ==> key_lt(a, b),
{
    lemma_texture_order(a.texture_id, b.texture_id);
    lemma_texture_order(b.texture_id, c.texture_id);
    lemma_texture_order(a.texture_id, c.texture_id);
}

fn blend_code(b: BlendMode) -> (r: u8)
    ensures
        r as int == blend_rank(b),
{
    match b {
        BlendMode::Unset => 0,
        BlendMode::Additive => 1,
        BlendMode::Alpha => 2,
    }
}

fn texture_parts(t: TextureHandle) -> (r: (u8, u64))
    ensures
        r.0 as int == texture_rank(t),
        r.1 as int == texture_payload(t),
{
    match t {
        TextureHandle::Path(h) => (0, h),
        TextureHandle::Raw(h) => (1, h),
        TextureHandle::RenderTarget(id) => (2, id.0 as u64),
    }
}

/// Three-way comparison of group keys under `key_lt`.
pub fn compare_keys(a: &MeshGroupKey, b: &MeshGroupKey) -> (r: i8)
    ensures
        r < 0 <==> key_lt(*a, *b),
        r == 0 <==> *a == *b,
        r > 0 <==> key_lt(*b, *a),
{
    proof {
        lemma_key_order(*a, *b, *b);
        lemma_texture_order(a.texture_id, b.texture_id);
    }
    if a.z_index != b.z_index {
        return if a.z_index < b.z_index { -1 } else { 1 };
    }
    let ba = blend_code(a.blend_mode);
    let bb = blend_code(b.blend_mode);
    if ba != bb {
        return if ba < bb { -1 } else { 1 };
    }
    let ta = texture_parts(a.texture_id);
    let tb = texture_parts(b.texture_id);
    if ta.0 != tb.0 {
        return if ta.0 < tb.0 { -1 } else { 1 };
    }
    if ta.1 != tb.1 {
        return if ta.1 < tb.1 { -1 } else { 1 };
    }
    if a.shader.0 != b.shader.0 {
        return if a.shader.0 < b.shader.0 { -1 } else { 1 };
    }
    if a.render_target.0 != b.render_target.0 {
        return if a.render_target.0 < b.render_target.0 { -1 } else { 1 };
    }
    0
}

} // verus!
