use mesh_batcher::batching::{
    plan_frame, resolve_texture_binding, y_sort_meshes, DrawCall, LoadAction, TextureBinding,
};
use mesh_batcher::buffers::{BufferType, SizedBuffer, UploadAction};
use mesh_batcher::context::{
    consume_render_queues, get_current_render_target, get_current_shader, get_shader_instance,
    queue_mesh_draw, set_uniform, use_default_render_target, use_default_shader,
    use_render_target, use_shader, DrawContext,
};
use mesh_batcher::frame::{end_frame, upload_pass};
use mesh_batcher::handles::{BlendMode, RenderTargetId, ShaderId, TextureHandle};
use mesh_batcher::mesh::{batch_meshes, ordered_key, IndexList, Mesh, SpriteVertex, VertexList};
use mesh_batcher::pipeline::{pipeline_key, PipelineCache};
use mesh_batcher::shader::Uniform;
use mesh_batcher::ysort::{get_y_sort, set_y_sort, YSortFlags};

fn vertex(x: f32, y: f32) -> SpriteVertex {
    SpriteVertex {
        position: [x.to_bits(), y.to_bits(), 0f32.to_bits()],
        tex_coords: [0f32.to_bits(), 0f32.to_bits()],
        color: [1f32.to_bits(); 4],
    }
}

fn quad(z_index: i32, y: f32, texture: Option<TextureHandle>) -> Mesh {
    let mut vertices = VertexList::new();
    vertices.push(vertex(0.0, y));
    vertices.push(vertex(1.0, y));
    vertices.push(vertex(1.0, y + 1.0));
    vertices.push(vertex(0.0, y + 1.0));
    let mut indices = IndexList::new();
    for i in [0u32, 1, 2, 0, 2, 3] {
        indices.push(i);
    }
    Mesh { y_sort_key: ordered_key(y.to_bits()), vertices, indices, z_index, texture }
}

fn registries(ctx: &DrawContext) -> (Vec<TextureHandle>, Vec<RenderTargetId>, TextureHandle) {
    let error = TextureHandle::from_path("error");
    (vec![ctx.default_texture, error], vec![RenderTargetId(0), RenderTargetId(1)], error)
}

#[test]
fn lower_z_index_is_drawn_first() {
    let mut ctx = DrawContext::new(TextureHandle::from_path("1px"));
    queue_mesh_draw(&mut ctx, quad(5, 0.0, None), BlendMode::Alpha);
    queue_mesh_draw(&mut ctx, quad(-2, 0.0, None), BlendMode::Alpha);
    queue_mesh_draw(&mut ctx, quad(1, 0.0, None), BlendMode::Alpha);
    let groups = consume_render_queues(&mut ctx);
    let (textures, targets, error) = registries(&ctx);
    let passes = plan_frame(groups, &YSortFlags::new(), &textures, &targets, error, ctx.default_texture);
    let zs: Vec<i32> = passes.iter().map(|p| p.key.z_index).collect();
    assert_eq!(zs, vec![-2, 1, 5]);
}

#[test]
fn meshes_with_one_key_share_a_group() {
    let mut ctx = DrawContext::new(TextureHandle::from_path("1px"));
    queue_mesh_draw(&mut ctx, quad(0, 0.0, None), BlendMode::Alpha);
    queue_mesh_draw(&mut ctx, quad(0, 3.0, None), BlendMode::Alpha);
    queue_mesh_draw(&mut ctx, quad(0, 0.0, None), BlendMode::Additive);
    let groups = consume_render_queues(&mut ctx);
    assert_eq!(groups.len(), 2);
    assert_eq!(groups[0].key.blend_mode, BlendMode::Additive);
    assert_eq!(groups[1].meshes.len(), 2);
    assert_eq!(groups[1].meshes[1].y_sort_key, ordered_key(3.0f32.to_bits()));
}

#[test]
fn consuming_twice_gives_everything_then_nothing() {
    let mut ctx = DrawContext::new(TextureHandle::from_path("1px"));
    queue_mesh_draw(&mut ctx, quad(0, 0.0, None), BlendMode::Alpha);
    queue_mesh_draw(&mut ctx, quad(3, 0.0, None), BlendMode::Alpha);
    let first = consume_render_queues(&mut ctx);
    let second = consume_render_queues(&mut ctx);
    assert_eq!(first.len(), 2);
    assert_eq!(second.len(), 0);
}

#[test]
fn set_uniform_copies_the_instance() {
    let mut ctx = DrawContext::new(TextureHandle::from_path("1px"));
    use_shader(&mut ctx, ShaderId(7));
    queue_mesh_draw(&mut ctx, quad(0, 0.0, None), BlendMode::Alpha);
    set_uniform(&mut ctx, "x", Uniform::F32(1.0f32.to_bits()));
    queue_mesh_draw(&mut ctx, quad(0, 0.0, None), BlendMode::Alpha);
    let groups = consume_render_queues(&mut ctx);
    assert_eq!(groups.len(), 2);
    let a = get_shader_instance(&ctx, groups[0].key.shader);
    let b = get_shader_instance(&ctx, groups[1].key.shader);
    assert_eq!(a.id, ShaderId(7));
    assert_eq!(b.id, ShaderId(7));
    assert!(a.uniforms.iter().all(|(n, _)| n != "x"));
    assert_eq!(b.uniforms, vec![("x".to_string(), Uniform::F32(1.0f32.to_bits()))]);
}

#[test]
fn ambient_state_switches() {
    let mut ctx = DrawContext::new(TextureHandle::from_path("1px"));
    assert_eq!(get_current_shader(&ctx).0, 0);
    use_shader(&mut ctx, ShaderId(1));
    use_shader(&mut ctx, ShaderId(2));
    assert_eq!(get_current_shader(&ctx).0, 2);
    use_default_shader(&mut ctx);
    assert_eq!(get_current_shader(&ctx).0, 0);
    use_render_target(&mut ctx, RenderTargetId(3));
    assert_eq!(get_current_render_target(&ctx), RenderTargetId(3));
    queue_mesh_draw(&mut ctx, quad(0, 0.0, None), BlendMode::Alpha);
    use_default_render_target(&mut ctx);
    assert_eq!(get_current_render_target(&ctx), RenderTargetId(0));
    let groups = consume_render_queues(&mut ctx);
    assert_eq!(groups[0].key.render_target, RenderTargetId(3));
    assert_eq!(groups[0].key.texture_id, TextureHandle::from_path("1px"));
}

#[test]
fn y_sort_draws_higher_y_first() {
    let mut ctx = DrawContext::new(TextureHandle::from_path("1px"));
    let mut flags = YSortFlags::new();
    set_y_sort(&mut flags, 0, true);
    assert!(get_y_sort(&flags, 0));
    assert!(!get_y_sort(&flags, 1));
    queue_mesh_draw(&mut ctx, quad(0, 10.0, None), BlendMode::Alpha);
    queue_mesh_draw(&mut ctx, quad(0, 20.0, None), BlendMode::Alpha);
    let groups = consume_render_queues(&mut ctx);
    let (textures, targets, error) = registries(&ctx);
    let passes = plan_frame(groups, &flags, &textures, &targets, error, ctx.default_texture);
    assert_eq!(passes.len(), 1);
    assert_eq!(passes[0].vertices[0].position[1], 20.0f32.to_bits());
    assert_eq!(passes[0].vertices[4].position[1], 10.0f32.to_bits());
    assert_eq!(passes[0].indices[6..], [4, 5, 6, 4, 6, 7]);
}

#[test]
fn y_sort_keeps_submission_order_for_equal_depth() {
    let mut a = quad(0, 5.0, None);
    a.texture = Some(TextureHandle::Raw(1));
    let mut b = quad(0, 5.0, None);
    b.texture = Some(TextureHandle::Raw(2));
    let c = quad(0, -3.0, None);
    let sorted = y_sort_meshes(vec![c, a, b]);
    let order: Vec<Option<TextureHandle>> = sorted.iter().map(|m| m.texture).collect();
    assert_eq!(order, vec![Some(TextureHandle::Raw(1)), Some(TextureHandle::Raw(2)), None]);
}

#[test]
fn ordered_key_follows_float_order() {
    let values = [-100.5f32, -1.0, 0.0, 0.25, 10.0, 20.0, 1e9];
    for w in values.windows(2) {
        assert!(ordered_key(w[0].to_bits()) < ordered_key(w[1].to_bits()));
    }
    assert_eq!(ordered_key(0x3f80_0000), 0xbf80_0000);
    assert_eq!(ordered_key((-0.0f32).to_bits()), ordered_key(0.0f32.to_bits()));
    assert_eq!(ordered_key(f32::NAN.to_bits()), 0);
    assert!(ordered_key(f32::NEG_INFINITY.to_bits()) > 0);
    assert_eq!(ordered_key(0xbf80_0000), 0x407f_ffff);
}

#[test]
fn first_pass_into_a_target_clears() {
    let mut ctx = DrawContext::new(TextureHandle::from_path("1px"));
    queue_mesh_draw(&mut ctx, quad(0, 0.0, None), BlendMode::Alpha);
    queue_mesh_draw(&mut ctx, quad(1, 0.0, None), BlendMode::Alpha);
    use_render_target(&mut ctx, RenderTargetId(1));
    queue_mesh_draw(&mut ctx, quad(2, 0.0, None), BlendMode::Alpha);
    let groups = consume_render_queues(&mut ctx);
    let (textures, targets, error) = registries(&ctx);
    let passes = plan_frame(groups, &YSortFlags::new(), &textures, &targets, error, ctx.default_texture);
    let loads: Vec<LoadAction> = passes.iter().map(|p| p.load).collect();
    assert_eq!(loads, vec![LoadAction::Clear, LoadAction::Load, LoadAction::Clear]);
}

#[test]
fn empty_frame_still_clears() {
    let mut ctx = DrawContext::new(TextureHandle::from_path("1px"));
    let groups = consume_render_queues(&mut ctx);
    let (textures, targets, error) = registries(&ctx);
    let passes = plan_frame(groups, &YSortFlags::new(), &textures, &targets, error, ctx.default_texture);
    assert_eq!(passes.len(), 1);
    assert_eq!(passes[0].load, LoadAction::Clear);
    assert_eq!(passes[0].draw, DrawCall::NonIndexed(0));
    assert_eq!(passes[0].key.blend_mode, BlendMode::Alpha);
    assert_eq!(passes[0].key.render_target, RenderTargetId(0));
    assert!(passes[0].vertices.is_empty());
}

#[test]
fn pipeline_cache_reuses_equal_configurations() {
    let mut ctx = DrawContext::new(TextureHandle::from_path("1px"));
    use_shader(&mut ctx, ShaderId(3));
    let mut cache = PipelineCache::new();
    let k1 = pipeline_key(&ctx.instances, get_current_shader(&ctx), BlendMode::Alpha, false, 4);
    let k2 = pipeline_key(&ctx.instances, get_current_shader(&ctx), BlendMode::Alpha, false, 4);
    assert_eq!(k1.user_shader, Some(ShaderId(3)));
    assert_eq!(cache.resolve(k1), (0, true));
    assert_eq!(cache.resolve(k2), (0, false));
    let variants = [
        pipeline_key(&ctx.instances, get_current_shader(&ctx), BlendMode::Additive, false, 4),
        pipeline_key(&ctx.instances, get_current_shader(&ctx), BlendMode::Alpha, true, 4),
        pipeline_key(&ctx.instances, get_current_shader(&ctx), BlendMode::Alpha, false, 1),
        pipeline_key(&ctx.instances, mesh_batcher::handles::ShaderInstanceId(0), BlendMode::Alpha, false, 4),
    ];
    for (n, k) in variants.into_iter().enumerate() {
        assert_eq!(cache.resolve(k), (n + 1, true));
    }
    assert_eq!(cache.keys.len(), 5);
}

#[test]
fn missing_texture_renders_with_error_texture() {
    let ctx = DrawContext::new(TextureHandle::from_path("1px"));
    let (textures, targets, error) = registries(&ctx);
    let unknown = TextureHandle::Raw(12345);
    assert_eq!(
        resolve_texture_binding(unknown, &textures, &targets, error),
        TextureBinding::Texture(error)
    );
    assert_eq!(
        resolve_texture_binding(ctx.default_texture, &textures, &targets, error),
        TextureBinding::Texture(ctx.default_texture)
    );
    assert_eq!(
        resolve_texture_binding(TextureHandle::RenderTarget(RenderTargetId(9)), &textures, &targets, error),
        TextureBinding::TargetBlit(RenderTargetId(0))
    );
    assert_eq!(
        resolve_texture_binding(TextureHandle::RenderTarget(RenderTargetId(1)), &textures, &targets, error),
        TextureBinding::TargetBlit(RenderTargetId(1))
    );
}

#[test]
fn missing_texture_in_a_frame() {
    let mut ctx = DrawContext::new(TextureHandle::from_path("1px"));
    queue_mesh_draw(&mut ctx, quad(0, 0.0, Some(TextureHandle::Raw(99))), BlendMode::Alpha);
    let groups = consume_render_queues(&mut ctx);
    let (textures, targets, error) = registries(&ctx);
    let passes = plan_frame(groups, &YSortFlags::new(), &textures, &targets, error, ctx.default_texture);
    assert_eq!(passes[0].texture, TextureBinding::Texture(error));
    assert_eq!(passes[0].key.texture_id, TextureHandle::Raw(99));
}

#[test]
fn one_quad_frame_end_to_end() {
    let mut ctx = DrawContext::new(TextureHandle::from_path("1px"));
    queue_mesh_draw(&mut ctx, quad(0, 0.0, None), BlendMode::Alpha);
    let groups = consume_render_queues(&mut ctx);
    let (textures, targets, error) = registries(&ctx);
    let passes = plan_frame(groups, &YSortFlags::new(), &textures, &targets, error, ctx.default_texture);
    assert_eq!(passes.len(), 1);
    let mut cache = PipelineCache::new();
    let mut vertex_buffer = SizedBuffer::new(0, BufferType::Vertex);
    let mut index_buffer = SizedBuffer::new(0, BufferType::Index);
    for pass in &passes {
        let key = pipeline_key(&ctx.instances, pass.key.shader, pass.key.blend_mode, false, 4);
        cache.resolve(key);
        let (v, i) = upload_pass(pass, &mut vertex_buffer, &mut index_buffer);
        assert_eq!(v, UploadAction::Recreate(4 * 36));
        assert_eq!(i, UploadAction::Recreate(6 * 4));
    }
    assert_eq!(cache.keys.len(), 1);
    assert_eq!(cache.keys[0].user_shader, None);
    assert_eq!(passes[0].draw, DrawCall::Indexed(6));
    assert_eq!(passes[0].indices, vec![0, 1, 2, 0, 2, 3]);
    end_frame(&mut ctx, &mut vertex_buffer, &mut index_buffer);
    assert_eq!(vertex_buffer.used, 0);
    assert_eq!(index_buffer.used, 0);
    assert_eq!(vertex_buffer.size, 144);
    assert!(ctx.instances.is_empty());
}

#[test]
fn batching_offsets_indices() {
    let meshes = vec![quad(0, 0.0, None), quad(0, 1.0, None), quad(0, 2.0, None)];
    let (vertices, indices) = batch_meshes(&meshes);
    assert_eq!(vertices.len(), 12);
    assert_eq!(indices, vec![0, 1, 2, 0, 2, 3, 4, 5, 6, 4, 6, 7, 8, 9, 10, 8, 10, 11]);
}

#[test]
fn mesh_without_indices_draws_vertices() {
    let mut ctx = DrawContext::new(TextureHandle::from_path("1px"));
    let mut vertices = VertexList::new();
    vertices.push(vertex(0.0, 0.0));
    vertices.push(vertex(1.0, 0.0));
    vertices.push(vertex(0.0, 1.0));
    let mesh = Mesh { y_sort_key: 0, vertices, indices: IndexList::new(), z_index: 0, texture: None };
    queue_mesh_draw(&mut ctx, mesh, BlendMode::Unset);
    let groups = consume_render_queues(&mut ctx);
    let (textures, targets, error) = registries(&ctx);
    let passes = plan_frame(groups, &YSortFlags::new(), &textures, &targets, error, ctx.default_texture);
    assert_eq!(passes[0].draw, DrawCall::NonIndexed(3));
}

#[test]
fn group_order_ignores_submission_order() {
    let submit = |order: &[(i32, BlendMode)]| {
        let mut ctx = DrawContext::new(TextureHandle::from_path("1px"));
        for (z, blend) in order {
            queue_mesh_draw(&mut ctx, quad(*z, 0.0, None), *blend);
        }
        consume_render_queues(&mut ctx).iter().map(|g| (g.key, g.meshes.len())).collect::<Vec<_>>()
    };
    let a = submit(&[(3, BlendMode::Alpha), (1, BlendMode::Additive), (3, BlendMode::Alpha), (1, BlendMode::Alpha)]);
    let b = submit(&[(1, BlendMode::Alpha), (3, BlendMode::Alpha), (1, BlendMode::Additive), (3, BlendMode::Alpha)]);
    assert_eq!(a, b);
    assert_eq!(a.iter().map(|(k, _)| k.z_index).collect::<Vec<_>>(), vec![1, 1, 3]);
}

#[test]
fn nan_depth_is_drawn_last() {
    let mut nan = quad(0, 0.0, Some(TextureHandle::Raw(7)));
    nan.y_sort_key = ordered_key(f32::NAN.to_bits());
    let low = quad(0, -1e30, None);
    let sorted = y_sort_meshes(vec![nan, low]);
    assert_eq!(sorted[1].texture, Some(TextureHandle::Raw(7)));
}
