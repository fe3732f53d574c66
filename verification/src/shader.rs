//! Shader assembly.
//!
//! A preset shader only defines `fn render(uv: vec2<f32>) -> vec4<f32>`. It is
//! sandwiched between the shared prelude (uniforms, bindings, vertex shader and
//! helpers) and a fixed `fs_main` that calls `render`. WGSL has no forward
//! references, so `render` must appear before `fs_main`.

use vstd::prelude::*;

verus! {

/// The line that separates the prelude from the preset body.
pub const PRESET_MARKER: &'static str = "\n// ---- preset ----\n";

/// The entry-point fragment shader appended after the preset body.
pub const FS_MAIN: &'static str = "\n@fragment\nfn fs_main(in: VsOut) -> @location(0) vec4<f32> {\n    return render(in.uv);\n}\n";

/// The complete shader module source for a prelude and a preset body.
pub open spec fn assembled(prelude: Seq<char>, preset_body: Seq<char>) -> Seq<char> {
    prelude + PRESET_MARKER@ + preset_body + "\n"@ + FS_MAIN@
}

/// Combine the prelude and a preset body into a complete shader module source.
pub fn assemble(prelude: &str, preset_body: &str) -> (source: String)
    ensures
        source@ == assembled(prelude@, preset_body@),
{
    let mut source = String::from_str(prelude);
    source.append(PRESET_MARKER);
    source.append(preset_body);
    source.append("\n");
    source.append(FS_MAIN);
    source
}

/// The assembled module starts with the prelude, holds the preset body right
/// after the separator line, and ends with `fs_main`, so `render` is defined
/// before the entry point that calls it.
pub proof fn lemma_assembled_layout(prelude: Seq<char>, preset_body: Seq<char>)
    ensures
        ({
            let s = assembled(prelude, preset_body);
            let body_start = prelude.len() + PRESET_MARKER@.len();
            let body_end = body_start + preset_body.len();
            &&& s.subrange(0, prelude.len() as int) == prelude
            &&& s.subrange(body_start as int, body_end as int) == preset_body
            &&& s.subrange(s.len() - FS_MAIN@.len(), s.len() as int) == FS_MAIN@
            &&& s.len() == body_end + 1 + FS_MAIN@.len()
            &&& s[body_end as int] == '\n'
            &&& s.subrange(prelude.len() as int, body_start as int) == PRESET_MARKER@
        }),
{
    let s = assembled(prelude, preset_body);
    let body_start = prelude.len() + PRESET_MARKER@.len();
    let body_end = body_start + preset_body.len();
    assert(s.subrange(0, prelude.len() as int) =~= prelude);
    assert(s.subrange(body_start as int, body_end as int) =~= preset_body);
    assert(s.subrange(s.len() - FS_MAIN@.len(), s.len() as int) =~= FS_MAIN@);
    assert(s.subrange(prelude.len() as int, body_start as int) =~= PRESET_MARKER@);
    reveal_strlit("\n");
}

} // verus!
