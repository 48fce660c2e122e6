use mesh_batcher::context::{gen_shader_id, use_shader, set_uniform, get_shader_instance, get_current_shader, DrawContext};
use mesh_batcher::handles::{ShaderId, ShaderInstanceId, TextureHandle};
use mesh_batcher::pipeline::{first_missing_uniform, resolve_uniform_values};
use mesh_batcher::shader::{Shader, ShaderMap, Uniform, UniformDef};
use mesh_batcher::shader_source::{
    build_shader_source, create_shader, decimal_text, parse_and_remove_uniforms,
    post_process_shader_from_fragment, sprite_shader_from_fragment, text_contains,
    uniform_defs_to_bindings, ShaderError, POST_PROCESSING_PREFIX, SPRITE_SHADER_PREFIX,
    TIME_DECLARATION,
};
use mesh_batcher::uniforms::scan_uniforms;

const GLOW: &str = "var<uniform> power: f32;
var <uniform>   tint :vec4 ;
@fragment
fn fs_main(in: VertexOutput) -> @location(0) vec4<f32> {
    return in.color * power;
}
";

fn shader_with_power(default: Option<f32>) -> Shader {
    Shader {
        id: ShaderId(1),
        name: "glow Shader".to_string(),
        source: String::new(),
        uniform_defs: vec![("power".to_string(), UniformDef::F32(default.map(f32::to_bits)))],
        bindings: vec![("power".to_string(), 0)],
    }
}

#[test]
fn scan_finds_and_removes_declarations() {
    let (decls, cleaned) = scan_uniforms(GLOW);
    assert_eq!(
        decls,
        vec![("power".to_string(), "f32".to_string()), ("tint".to_string(), "vec4".to_string())]
    );
    assert!(cleaned.starts_with("\n\n@fragment"));
    assert!(!cleaned.contains("uniform"));
}

#[test]
fn scan_needs_white_space_after_the_bracket() {
    let (decls, cleaned) = scan_uniforms("var<uniform>x: f32; var<uniform>\u{a0}y : vec2;");
    assert_eq!(decls, vec![("y".to_string(), "vec2".to_string())]);
    assert_eq!(cleaned, "var<uniform>x: f32; ");
}

#[test]
fn parse_keeps_the_last_declaration_of_a_name() {
    let (defs, cleaned) = parse_and_remove_uniforms("var<uniform> a: vec2; var<uniform> a: vec3;x");
    assert_eq!(defs.len(), 2);
    assert_eq!(defs[0].0, "time");
    assert!(matches!(defs[0].1, UniformDef::Vec4(Some((0, 0, 0, 0)))));
    assert_eq!(defs[1].0, "a");
    assert!(matches!(defs[1].1, UniformDef::Vec3(Some((0, 0, 0)))));
    assert_eq!(cleaned, "\n x");
}

#[test]
fn empty_source_still_declares_time() {
    let (defs, cleaned) = parse_and_remove_uniforms("");
    assert_eq!(defs.len(), 1);
    assert_eq!(defs[0].0, "time");
    assert_eq!(cleaned, "\n");
}

#[test]
fn time_declared_by_the_source_is_not_added_twice() {
    let source = format!("{}\nfn f() {{}}", TIME_DECLARATION);
    let (defs, cleaned) = parse_and_remove_uniforms(&source);
    assert_eq!(defs.len(), 1);
    assert_eq!(cleaned, "\nfn f() {}");
}

#[test]
fn unknown_types_become_scalars() {
    let (defs, _) = parse_and_remove_uniforms("var<uniform> c: vec4<f32>;");
    assert_eq!(defs[1].0, "c");
    assert!(matches!(defs[1].1, UniformDef::F32(Some(0))));
}

#[test]
fn bindings_follow_name_order() {
    let defs = vec![
        ("zeta".to_string(), UniformDef::F32(None)),
        ("alpha".to_string(), UniformDef::F32(None)),
        ("mid".to_string(), UniformDef::Vec2(None)),
    ];
    let bindings = uniform_defs_to_bindings(&defs);
    assert_eq!(
        bindings,
        vec![("alpha".to_string(), 0), ("mid".to_string(), 1), ("zeta".to_string(), 2)]
    );
}

#[test]
fn shader_source_declares_each_binding() {
    let defs = vec![("b".to_string(), UniformDef::Vec2(None)), ("a".to_string(), UniformDef::F32(None))];
    let bindings = vec![("a".to_string(), 0), ("b".to_string(), 12)];
    let src = build_shader_source("FRAG", &bindings, &defs);
    assert_eq!(
        src,
        "@group(2) @binding(0)\n            var<uniform> a: f32;@group(2) @binding(12)\n            var<uniform> b: vec2<f32>;\nFRAG"
    );
}

#[test]
fn decimal_digits() {
    assert_eq!(decimal_text(0), "0");
    assert_eq!(decimal_text(7), "7");
    assert_eq!(decimal_text(1090), "1090");
    assert_eq!(decimal_text(u32::MAX), "4294967295");
}

#[test]
fn text_search() {
    assert!(text_contains("fn main() { @vertex }", "@vertex"));
    assert!(!text_contains("@verte", "@vertex"));
    assert!(text_contains("abc", ""));
}

#[test]
fn prefixes_are_prepended() {
    assert_eq!(sprite_shader_from_fragment("X"), format!("{}X", SPRITE_SHADER_PREFIX));
    assert_eq!(post_process_shader_from_fragment("Y"), format!("{}Y", POST_PROCESSING_PREFIX));
}

#[test]
fn create_shader_registers_the_full_source() {
    let mut ctx = DrawContext::new(TextureHandle::from_path("1px"));
    let mut shaders = ShaderMap::new();
    let id = create_shader(&mut ctx, &mut shaders, "glow", GLOW).unwrap();
    assert_eq!(id, ShaderId(0));
    let shader = shaders.get(id).unwrap();
    assert_eq!(shader.name, "glow Shader");
    assert_eq!(
        shader.bindings,
        vec![("power".to_string(), 0), ("time".to_string(), 1), ("tint".to_string(), 2)]
    );
    assert!(shader.source.starts_with(
        "@group(2) @binding(0)\n            var<uniform> power: f32;@group(2) @binding(1)\n            var<uniform> time: vec4<f32>;@group(2) @binding(2)\n            var<uniform> tint: vec4<f32>;\n"
    ));
    assert!(shader.source.contains(SPRITE_SHADER_PREFIX));
    assert!(shader.source.ends_with("@fragment\nfn fs_main(in: VertexOutput) -> @location(0) vec4<f32> {\n    return in.color * power;\n}\n"));
    let second = create_shader(&mut ctx, &mut shaders, "plain", "@fragment fn f() {}").unwrap();
    assert_eq!(second, ShaderId(1));
    assert!(shaders.contains(ShaderId(0)) && shaders.contains(ShaderId(1)));
}

#[test]
fn plain_shader_gets_only_time() {
    let mut ctx = DrawContext::new(TextureHandle::from_path("1px"));
    let mut shaders = ShaderMap::new();
    let id = create_shader(&mut ctx, &mut shaders, "plain", "@fragment fn f() {}").unwrap();
    let shader = shaders.get(id).unwrap();
    assert_eq!(shader.bindings, vec![("time".to_string(), 0)]);
    assert_eq!(shader.uniform_defs.len(), 1);
    assert!(!text_contains(&shader.source, TIME_DECLARATION));
}

#[test]
fn create_shader_refuses_a_taken_id() {
    let mut ctx = DrawContext::new(TextureHandle::from_path("1px"));
    let mut shaders = ShaderMap::new();
    shaders.insert_shader(ShaderId(0), shader_with_power(None).with_id(ShaderId(0)));
    let r = create_shader(&mut ctx, &mut shaders, "dup", "@fragment fn f() {}");
    match r {
        Err(ShaderError::AlreadyExists(name)) => assert_eq!(name, "dup"),
        _ => panic!("expected AlreadyExists"),
    }
}

trait WithId {
    fn with_id(self, id: ShaderId) -> Self;
}

impl WithId for Shader {
    fn with_id(mut self, id: ShaderId) -> Self {
        self.id = id;
        self
    }
}

#[test]
fn shader_ids_count_up() {
    let mut ctx = DrawContext::new(TextureHandle::from_path("1px"));
    assert_eq!(gen_shader_id(&mut ctx), ShaderId(0));
    assert_eq!(gen_shader_id(&mut ctx), ShaderId(1));
    assert_eq!(gen_shader_id(&mut ctx), ShaderId(2));
}

#[test]
fn uniform_default_and_override() {
    let shader = shader_with_power(Some(0.03));
    let mut ctx = DrawContext::new(TextureHandle::from_path("1px"));
    use_shader(&mut ctx, shader.id);
    let base = get_current_shader(&ctx);
    set_uniform(&mut ctx, "power", Uniform::F32(0.5f32.to_bits()));
    let derived = get_current_shader(&ctx);
    assert_eq!(first_missing_uniform(&shader, get_shader_instance(&ctx, base)), None);
    let base_values = resolve_uniform_values(&shader, get_shader_instance(&ctx, base));
    let derived_values = resolve_uniform_values(&shader, get_shader_instance(&ctx, derived));
    assert_eq!(base_values, vec![(0, Uniform::F32(0.03f32.to_bits()))]);
    assert_eq!(derived_values, vec![(0, Uniform::F32(0.5f32.to_bits()))]);
    assert_eq!(base, ShaderInstanceId(1));
    assert_eq!(derived, ShaderInstanceId(2));
}

#[test]
fn uniform_without_default_or_override_is_an_error() {
    let shader = shader_with_power(None);
    let mut ctx = DrawContext::new(TextureHandle::from_path("1px"));
    use_shader(&mut ctx, shader.id);
    let r = first_missing_uniform(&shader, get_shader_instance(&ctx, get_current_shader(&ctx)));
    assert_eq!(r, Some(0));
}
