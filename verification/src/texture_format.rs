use vstd::prelude::*;

use crate::gl_enums::{
    GL_RED, GL_RG, GL_RGB, GL_RGBA, GL_SRGB, GL_SRGB_ALPHA, GL_TEXTURE_CUBE_MAP_POSITIVE_X,
};

verus! {

/// How the pixels of a decoded image are laid out: one variant per kind of
/// image the decoder hands back for model textures.
#[derive(Clone, Copy, Debug, PartialEq, Eq, Structural)]
pub enum PixelLayout {
    /// one 8-bit luminance channel
    Luma8,
    /// 8-bit luminance and alpha
    LumaA8,
    /// 8-bit red, green, blue
    Rgb8,
    /// 8-bit red, green, blue, alpha
    Rgba8,
}

/// The color type an image decoder reports, without its bit depth.
#[derive(Clone, Copy, Debug, PartialEq, Eq, Structural)]
pub enum ColorKind {
    Gray,
    GrayAlpha,
    Rgb,
    Rgba,
    Palette,
    Bgr,
    Bgra,
}

/// The pixel format under which a model texture of the given layout is
/// uploaded: one channel is red, two are red-green, three RGB, four RGBA.
pub open spec fn model_texture_format_spec(layout: PixelLayout) -> u32 {
    match layout {
        PixelLayout::Luma8 => GL_RED,
        PixelLayout::LumaA8 => GL_RG,
        PixelLayout::Rgb8 => GL_RGB,
        PixelLayout::Rgba8 => GL_RGBA,
    }
}

/// Format (used both as internal and as data format) of a model texture.
pub fn model_texture_format(layout: PixelLayout) -> (format: u32)
    ensures
        format == model_texture_format_spec(layout),
{
    match layout {
        PixelLayout::Luma8 => GL_RED,
        PixelLayout::LumaA8 => GL_RG,
        PixelLayout::Rgb8 => GL_RGB,
        PixelLayout::Rgba8 => GL_RGBA,
    }
}

/// Internal and data format of a texture loaded with optional gamma
/// correction; `None` for the color types the loader does not support.
pub open spec fn gamma_texture_formats_spec(color: ColorKind, gamma_correction: bool) -> Option<(u32, u32)> {
    match color {
        ColorKind::Gray => Some((GL_RED, GL_RED)),
        ColorKind::Rgb => Some((if gamma_correction { GL_SRGB } else { GL_RGB }, GL_RGB)),
        ColorKind::Rgba => Some((if gamma_correction { GL_SRGB_ALPHA } else { GL_RGBA }, GL_RGBA)),
        _ => None,
    }
}

/// Picks `(internal_format, data_format)` for a texture of the given color
/// type. Gray images are single channel; RGB and RGBA images are stored in
/// an sRGB internal format when gamma correction is asked for. Any other
/// color type is unsupported and gives `None`.
pub fn gamma_texture_formats(color: ColorKind, gamma_correction: bool) -> (formats: Option<(u32, u32)>)
    ensures
        formats == gamma_texture_formats_spec(color, gamma_correction),
{
    match color {
        ColorKind::Gray => Some((GL_RED, GL_RED)),
        ColorKind::Rgb => {
            if gamma_correction {
                Some((GL_SRGB, GL_RGB))
            } else {
                Some((GL_RGB, GL_RGB))
            }
        },
        ColorKind::Rgba => {
            if gamma_correction {
                Some((GL_SRGB_ALPHA, GL_RGBA))
            } else {
                Some((GL_RGBA, GL_RGBA))
            }
        },
        _ => None,
    }
}

/// The texture target of face `index` of a cube map: the faces are numbered
/// from `GL_TEXTURE_CUBE_MAP_POSITIVE_X` on.
pub fn cubemap_face_target(index: u32) -> (target: u32)
    requires
        GL_TEXTURE_CUBE_MAP_POSITIVE_X + index <= u32::MAX,
    ensures
        target == GL_TEXTURE_CUBE_MAP_POSITIVE_X + index,
{
    GL_TEXTURE_CUBE_MAP_POSITIVE_X + index
}

/// The targets of the faces of a cube map built from `face_count` images, in
/// the order of the images.
pub fn cubemap_face_targets(face_count: u32) -> (targets: Vec<u32>)
    requires
        GL_TEXTURE_CUBE_MAP_POSITIVE_X + face_count <= u32::MAX + 1,
    ensures
        targets@.len() == face_count,
        forall|i: int| 0 <= i < face_count ==> targets@[i] == GL_TEXTURE_CUBE_MAP_POSITIVE_X + i,
{
    let mut targets: Vec<u32> = Vec::new();
    let mut i: u32 = 0;
    while i < face_count
        invariant
            i <= face_count,
            GL_TEXTURE_CUBE_MAP_POSITIVE_X + face_count <= u32::MAX + 1,
            targets@.len() == i,
            forall|k: int| 0 <= k < i ==> targets@[k] == GL_TEXTURE_CUBE_MAP_POSITIVE_X + k,
        decreases face_count - i,
    {
        targets.push(cubemap_face_target(i));
        i = i + 1;
    }
    targets
}

/// What the texture formats mean: a model texture is uploaded in the format
/// of its channel count, and the four layouts get four different formats;
/// with gamma correction off a texture is stored as it is handed over
/// (internal format equals data format, the one of its channel count);
/// gamma correction changes only the internal format, to the sRGB one of
/// the same channels, and leaves single-channel images alone; exactly the
/// gray, RGB and RGBA color types are supported.
pub proof fn lemma_texture_formats_meaning(color: ColorKind, gamma_correction: bool)
    ensures
        model_texture_format_spec(PixelLayout::Luma8) == gamma_texture_formats_spec(ColorKind::Gray, false).unwrap().0,
        model_texture_format_spec(PixelLayout::Rgb8) == gamma_texture_formats_spec(ColorKind::Rgb, false).unwrap().0,
        model_texture_format_spec(PixelLayout::Rgba8) == gamma_texture_formats_spec(ColorKind::Rgba, false).unwrap().0,
        forall|a: PixelLayout, b: PixelLayout| #[trigger] model_texture_format_spec(a) == #[trigger] model_texture_format_spec(b) ==> a == b,
        gamma_texture_formats_spec(color, gamma_correction).is_some() == (color == ColorKind::Gray
            || color == ColorKind::Rgb || color == ColorKind::Rgba),
        gamma_texture_formats_spec(color, gamma_correction).is_some() ==> {
            let (internal, data) = gamma_texture_formats_spec(color, gamma_correction).unwrap();
            &&& data == gamma_texture_formats_spec(color, false).unwrap().1
            &&& !gamma_correction ==> internal == data
            &&& gamma_correction && color == ColorKind::Rgb ==> internal == GL_SRGB && data == GL_RGB
            &&& gamma_correction && color == ColorKind::Rgba ==> internal == GL_SRGB_ALPHA && data == GL_RGBA
            &&& color == ColorKind::Gray ==> internal == GL_RED && data == GL_RED
        },
{
}

/// Cube map faces get consecutive, hence distinct, targets from
/// `GL_TEXTURE_CUBE_MAP_POSITIVE_X` on, in the order of the images.
pub proof fn lemma_cubemap_targets_distinct(targets: Seq<u32>, face_count: u32)
    requires
        targets.len() == face_count,
        forall|i: int| 0 <= i < face_count ==> targets[i] == GL_TEXTURE_CUBE_MAP_POSITIVE_X + i,
    ensures
        face_count > 0 ==> targets[0] == GL_TEXTURE_CUBE_MAP_POSITIVE_X,
        forall|i: int| 0 <= i < face_count - 1 ==> #[trigger] targets[i + 1] == targets[i] + 1,
        forall|i: int, j: int| 0 <= i < j < face_count ==> #[trigger] targets[i] != #[trigger] targets[j],
{
}

} // verus!
