use std::path::Path;
use aetheria::paths::{file_stem, output_path};
use aetheria::shader::{
    module_file_name, module_source, shader_kind, stage_name, struct_name, Shader, ShaderKind, ShaderStage,
};

#[test]
fn stage_is_read_before_the_extension() {
    assert_eq!(stage_name("shaders/ui.vert.glsl"), vec!['v', 'e', 'r', 't']);
    assert_eq!(ShaderStage::of_path("shaders/ui.vert.glsl"), ShaderStage::Vertex);
    assert_eq!(ShaderStage::of_path("a/b.frag.glsl"), ShaderStage::Fragment);
    assert_eq!(stage_name("a/b.comp.glsl"), vec!['c', 'o', 'm', 'p']);
}

#[test]
fn short_paths_give_short_stage_names() {
    assert_eq!(stage_name("abc"), Vec::<char>::new());
    assert_eq!(stage_name("ab.glsl"), vec!['a', 'b']);
    assert_eq!(ShaderStage::from_name(&['c', 'o', 'm', 'p']), None);
    assert_eq!(ShaderStage::from_name(&['v', 'e', 'r', 't']), Some(ShaderStage::Vertex));
}

#[test]
fn compiled_shader_kind_is_the_last_segment() {
    assert_eq!(shader_kind("test.comp"), ShaderKind::Compute);
    assert_eq!(shader_kind("ui.vert"), ShaderKind::Vertex);
    assert_eq!(shader_kind("a.b.frag"), ShaderKind::Fragment);
    assert_eq!(shader_kind("comp"), ShaderKind::Compute);
}

#[test]
fn generated_names() {
    assert_eq!(struct_name("ui.vert"), "UiVertexShader");
    assert_eq!(struct_name("mesh.frag"), "MeshFragmentShader");
    assert_eq!(struct_name("test.comp"), "TestCompShader");
    assert_eq!(module_file_name("ui.vert"), "ui_vert.rs");
    assert_eq!(module_file_name("plain"), "plain.rs");
}

#[test]
fn capitalization_follows_unicode() {
    assert_eq!(struct_name("\u{df}x.vert"), "SSxVertexShader");
}

fn expected_source(name: &str, stage: &str, path: &str) -> String {
    let header = "use assets_macros::impl_load;
use crate::{Shader, ShaderStage};
use bytemuck::cast_slice;";
    let shader = format!(
        "pub struct {0} {{
    shader: Shader,
}}

impl_load!({0});

impl {0} {{
    fn new() -> Self {{
        let shader = Shader {{
            stage: ShaderStage::{1},
            code: cast_slice::<u8, u32>(&std::fs::read(\"{2}\").unwrap()).to_owned()
        }};

        Self {{ shader }}
    }}
}}
        ",
        name, stage, path
    );
    format!("{}\n{}", header, shader)
}

#[test]
fn shader_reads_its_stage_and_code() {
    let s = Shader::new("shaders/ui.frag.glsl", b"void main() {}");
    assert_eq!(s.stage, ShaderStage::Fragment);
    assert_eq!(s.code, "void main() {}");
    assert_eq!(s.path, "shaders/ui.frag.glsl");
    assert_eq!(Shader::new("shaders/ui.vert.glsl", "é".as_bytes()).stage, ShaderStage::Vertex);
}

#[test]
fn codegen_names_its_file_and_type_and_loads_from_out() {
    let (file, source) = Shader::new("ui.vert.glsl", b"void main() {}").codegen();
    assert_eq!(file, "ui_vert.rs");
    assert_eq!(source, expected_source("UiVertexShader", "Vertex", "./out/ui.vert.spv"));
    let (file, source) = Shader::new("./shaders/post.frag.glsl", b"").codegen();
    assert_eq!(file, "post_frag.rs");
    assert_eq!(source, expected_source("PostFragmentShader", "Fragment", "./out/./shaders/post.frag.spv"));
}

#[test]
fn output_paths_replace_the_extension_under_out() {
    assert_eq!(output_path("shaders/ui.vert.glsl", "spv"), "./out/shaders/ui.vert.spv");
    assert_eq!(output_path("/abs/tex.png", "qoi"), "/abs/tex.qoi");
    assert_eq!(output_path("a.b/noext", "spv"), "./out/a.b/noext.spv");
    assert_eq!(output_path(".hidden", "spv"), "./out/.hidden.spv");
    assert_eq!(output_path("dir/name.", "spv"), "./out/dir/name.spv");
}

#[test]
fn file_stems_drop_the_last_extension() {
    assert_eq!(file_stem("shaders/ui.vert.glsl"), "ui.vert");
    assert_eq!(file_stem("a.b/noext"), "noext");
    assert_eq!(file_stem(".hidden"), ".hidden");
    assert_eq!(file_stem("dir/name."), "name");
}

#[test]
fn module_source_fills_the_template() {
    assert_eq!(
        module_source("LightShader", ShaderStage::Fragment, "x.spv"),
        expected_source("LightShader", "Fragment", "x.spv")
    );
}

#[test]
fn paths_agree_with_std_path_operations() {
    for p in [
        "shaders/ui.vert.glsl",
        "./shaders/post.frag.glsl",
        "/abs/tex.png",
        "a.b/noext",
        ".hidden",
        "dir/name.",
        "x",
        "a//b.c",
        "d/.e.f",
        "tex.jpeg",
    ] {
        let std_out = Path::new("./out").join(p).with_extension("spv");
        assert_eq!(output_path(p, "spv"), std_out.to_str().unwrap(), "{}", p);
        let std_stem = Path::new(p).file_stem().unwrap().to_str().unwrap().to_owned();
        assert_eq!(file_stem(p), std_stem, "{}", p);
    }
}
