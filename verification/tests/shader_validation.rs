use kefirdrop::shader::assemble;

/// A minimal prelude in the shape of the bundled one: the vertex output
/// struct that `fs_main` takes, and a fullscreen-triangle vertex shader.
const PRELUDE: &str = r#"
struct VsOut {
    @builtin(position) pos: vec4<f32>,
    @location(0) uv: vec2<f32>,
};

@vertex
fn vs_main(@builtin(vertex_index) i: u32) -> VsOut {
    let x = f32((i << 1u) & 2u);
    let y = f32(i & 2u);
    var out: VsOut;
    out.pos = vec4<f32>(x * 2.0 - 1.0, 1.0 - y * 2.0, 0.0, 1.0);
    out.uv = vec2<f32>(x, y);
    return out;
}
"#;

/// Parse and fully validate a WGSL source the same way wgpu would at runtime.
fn validate(source: &str) -> Result<(), String> {
    let module = naga::front::wgsl::parse_str(source).map_err(|e| e.emit_to_string(source))?;
    let mut validator = naga::valid::Validator::new(
        naga::valid::ValidationFlags::all(),
        naga::valid::Capabilities::all(),
    );
    validator.validate(&module).map(|_| ()).map_err(|e| format!("{e:?}"))
}

#[test]
fn assembled_preset_validates() {
    let body = "fn render(uv: vec2<f32>) -> vec4<f32> {\n    return vec4<f32>(uv, 0.0, 1.0);\n}";
    let source = assemble(PRELUDE, body);
    validate(&source).unwrap_or_else(|e| panic!("assembled shader must validate:\n{e}"));
}

#[test]
fn entry_point_needs_the_preset_render_function() {
    let source = assemble(PRELUDE, "fn not_render() {}");
    assert!(validate(&source).is_err(), "fs_main must call the preset's render");
}
