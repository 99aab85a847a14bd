use aetheria::assets::{asset_kind, outside_output, shaders_index, AssetKind};

fn strings(v: &[&str]) -> Vec<String> {
    v.iter().map(|s| s.to_string()).collect()
}

#[test]
fn files_are_sorted_by_extension() {
    assert_eq!(asset_kind("glsl"), Some(AssetKind::Shader));
    assert_eq!(asset_kind("glb"), Some(AssetKind::Model));
    assert_eq!(asset_kind("jpg"), Some(AssetKind::Texture));
    assert_eq!(asset_kind("jpeg"), Some(AssetKind::Texture));
    assert_eq!(asset_kind("png"), Some(AssetKind::Texture));
    assert_eq!(asset_kind("rs"), None);
    assert_eq!(asset_kind("PNG"), None);
    assert_eq!(asset_kind(""), None);
}

#[test]
fn output_directory_is_skipped() {
    assert!(outside_output(&strings(&[".", "shaders", "ui.vert.glsl"])));
    assert!(!outside_output(&strings(&[".", "out", "shaders", "ui.vert.spv"])));
    assert!(outside_output(&strings(&["outside", "output"])));
    assert!(outside_output(&[]));
}

#[test]
fn shader_index_declares_and_reexports_each_module() {
    assert_eq!(
        shaders_index(&strings(&["ui_vert", "mod", "post_frag"])),
        "mod ui_vert;\npub use ui_vert::*;\nmod post_frag;\npub use post_frag::*;"
    );
    assert_eq!(shaders_index(&strings(&["mod", "light_comp"])), "mod light_comp;\npub use light_comp::*;");
    assert_eq!(shaders_index(&strings(&["mod"])), "");
    assert_eq!(shaders_index(&[]), "");
}
