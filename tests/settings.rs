use mesh_batcher::assets::{texture_id, texture_id_safe, Assets};
use mesh_batcher::buffers::{BufferType, SizedBuffer, UploadAction};
use mesh_batcher::config::{
    get_camera, set_camera, set_default_camera, set_target_frame_rate, IRect, IVec2, Msaa,
    ResolutionConfig, RunTimeContext,
};
use mesh_batcher::context::texture_path;
use mesh_batcher::handles::{RenderTargetId, TextureHandle};
use mesh_batcher::targets::{create_default_rt, create_render_target, RenderTargetParams, RenderTargetRegistry};
use mesh_batcher::timing::{detect_frametime, frame_limit_ns, get_fps, update, SleepTimer, Time};

#[test]
fn resolution_with_a_zero_side_becomes_one_by_one() {
    let mut r = ResolutionConfig::Physical(0, 720);
    assert_eq!(r.ensure_non_zero(), ResolutionConfig::Physical(1, 1));
    let mut l = ResolutionConfig::Logical(800, 600);
    assert_eq!(l.ensure_non_zero(), ResolutionConfig::Logical(800, 600));
    assert_eq!(l.width(), 800);
    assert_eq!(l.height(), 600);
}

#[test]
fn msaa_sample_counts() {
    assert_eq!(u32::from(Msaa::Off), 1);
    assert_eq!(u32::from(Msaa::Sample2), 2);
    assert_eq!(u32::from(Msaa::default()), 4);
    assert_eq!(Msaa::Sample8.sample_count(), 8);
    assert!(!Msaa::Off.is_multisampled());
}

#[test]
fn camera_setting() {
    let mut ctx: RunTimeContext<&'static str> = RunTimeContext::new();
    assert!(get_camera(&ctx).is_none());
    set_camera(&mut ctx, "main");
    assert_eq!(get_camera(&ctx), Some(&"main"));
    set_default_camera(&mut ctx);
    assert!(get_camera(&ctx).is_none());
    set_target_frame_rate(&mut ctx, 60);
    assert_eq!(ctx.target_frame_rate, Some(60));
}

#[test]
fn rect_new() {
    let r = IRect::new(IVec2 { x: 1, y: -2 }, IVec2 { x: 3, y: 4 });
    assert_eq!(r.offset, IVec2 { x: 1, y: -2 });
    assert_eq!(r.size, IVec2 { x: 3, y: 4 });
}

#[test]
fn render_target_ids_count_from_zero() {
    let mut reg = RenderTargetRegistry::new();
    let (id, params) = create_default_rt(&mut reg, 0, 720);
    assert_eq!(id, RenderTargetId(0));
    assert_eq!(params.label, "Default RT");
    assert_eq!((params.size.x, params.size.y), (1, 720));
    let other = create_render_target(
        &mut reg,
        &RenderTargetParams { label: "rt".to_string(), size: params.size },
    );
    assert_eq!(other, RenderTargetId(1));
    assert_eq!(reg.ids(), vec![RenderTargetId(0), RenderTargetId(1)]);
}

#[test]
fn fps_averages_the_window() {
    let mut t = Time::new(1_000);
    assert_eq!(get_fps(&t), 0);
    for k in 1..=60u64 {
        update(&mut t, 1_000 + k * 16_000_000);
    }
    assert_eq!(t.delta_ns, 16_000_000);
    assert_eq!(t.current_ns, 60 * 16_000_000);
    assert_eq!(get_fps(&t), 63);
}

#[test]
fn frame_limiter() {
    assert_eq!(frame_limit_ns(Some(120), None), 8_333_333);
    assert_eq!(detect_frametime(Some(60_000)), 16_806_722);
    assert_eq!(detect_frametime(None), 33_898_305);
    let mut s = SleepTimer::new();
    assert_eq!(s.sleep_duration(10_000, 4_000), 6_000);
    s.record(10_000, 4_000, 10_500);
    assert_eq!(s.oversleep_ns, 500);
    assert_eq!(s.sleep_duration(10_000, 4_000), 5_500);
    assert_eq!(s.sleep_duration(10_000, 12_000), 0);
}

#[test]
fn texture_names() {
    let mut assets = Assets::new();
    assert_eq!(texture_id_safe(&assets, "grass"), None);
    assets.insert_handle("error", TextureHandle::Raw(1));
    assets.insert_handle("grass", texture_path("grass"));
    assert_eq!(texture_id_safe(&assets, "grass"), Some(texture_path("grass")));
    assert_eq!(texture_id(&assets, "stone"), TextureHandle::Raw(1));
    assert_eq!(texture_path("grass"), TextureHandle::from_path("grass"));
    assert_eq!(TextureHandle::key_unchecked("grass"), texture_path("grass"));
    assert_ne!(texture_path("grass"), texture_path("stone"));
}

#[test]
fn buffers_grow_and_clear() {
    assert!(BufferType::Index.usage().index);
    assert!(BufferType::Read.usage().map_read);
    let mut b = SizedBuffer::new(100, BufferType::Vertex);
    assert_eq!(b.ensure_size_and_copy(50), UploadAction::Overwrite);
    assert_eq!(b.ensure_size_and_copy(150), UploadAction::Recreate(150));
    assert_eq!(b.size, 150);
    b.clear();
    assert_eq!((b.used, b.size), (0, 150));
}
