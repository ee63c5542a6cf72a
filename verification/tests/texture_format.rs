use learn_opengl::gl_enums::{
    GL_RED, GL_RG, GL_RGB, GL_RGBA, GL_SRGB, GL_SRGB_ALPHA, GL_TEXTURE_CUBE_MAP_POSITIVE_X,
};
use learn_opengl::texture_format::{
    cubemap_face_target, cubemap_face_targets, gamma_texture_formats, model_texture_format,
    ColorKind, PixelLayout,
};

#[test]
fn model_texture_format_by_channel_count() {
    assert_eq!(model_texture_format(PixelLayout::Luma8), GL_RED);
    assert_eq!(model_texture_format(PixelLayout::LumaA8), GL_RG);
    assert_eq!(model_texture_format(PixelLayout::Rgb8), GL_RGB);
    assert_eq!(model_texture_format(PixelLayout::Rgba8), GL_RGBA);
}

#[test]
fn gl_enum_values() {
    assert_eq!(GL_RED, 0x1903);
    assert_eq!(GL_RG, 0x8227);
    assert_eq!(GL_RGB, 0x1907);
    assert_eq!(GL_RGBA, 0x1908);
    assert_eq!(GL_SRGB, 0x8C40);
    assert_eq!(GL_SRGB_ALPHA, 0x8C42);
    assert_eq!(GL_TEXTURE_CUBE_MAP_POSITIVE_X, 0x8515);
}

#[test]
fn gamma_formats_without_correction() {
    assert_eq!(gamma_texture_formats(ColorKind::Gray, false), Some((GL_RED, GL_RED)));
    assert_eq!(gamma_texture_formats(ColorKind::Rgb, false), Some((GL_RGB, GL_RGB)));
    assert_eq!(gamma_texture_formats(ColorKind::Rgba, false), Some((GL_RGBA, GL_RGBA)));
}

#[test]
fn gamma_formats_with_correction_use_srgb() {
    assert_eq!(gamma_texture_formats(ColorKind::Gray, true), Some((GL_RED, GL_RED)));
    assert_eq!(gamma_texture_formats(ColorKind::Rgb, true), Some((GL_SRGB, GL_RGB)));
    assert_eq!(gamma_texture_formats(ColorKind::Rgba, true), Some((GL_SRGB_ALPHA, GL_RGBA)));
}

#[test]
fn gamma_formats_reject_other_color_types() {
    for gamma in [false, true] {
        assert_eq!(gamma_texture_formats(ColorKind::GrayAlpha, gamma), None);
        assert_eq!(gamma_texture_formats(ColorKind::Palette, gamma), None);
        assert_eq!(gamma_texture_formats(ColorKind::Bgr, gamma), None);
        assert_eq!(gamma_texture_formats(ColorKind::Bgra, gamma), None);
    }
}

#[test]
fn cubemap_faces_follow_positive_x() {
    let targets = cubemap_face_targets(6);
    assert_eq!(targets, vec![0x8515, 0x8516, 0x8517, 0x8518, 0x8519, 0x851A]);
    assert_eq!(cubemap_face_target(3), 0x8518);
    assert!(cubemap_face_targets(0).is_empty());
}
