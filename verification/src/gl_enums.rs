use vstd::prelude::*;

verus! {

// Values of the OpenGL enumerants that the texture logic hands to the driver,
// as fixed by the OpenGL registry (gl.xml).

/// `GL_RED`
pub const GL_RED: u32 = 0x1903;
/// `GL_RG`
pub const GL_RG: u32 = 0x8227;
/// `GL_RGB`
pub const GL_RGB: u32 = 0x1907;
/// `GL_RGBA`
pub const GL_RGBA: u32 = 0x1908;
/// `GL_SRGB`
pub const GL_SRGB: u32 = 0x8C40;
/// `GL_SRGB_ALPHA`
pub const GL_SRGB_ALPHA: u32 = 0x8C42;
/// `GL_TEXTURE_CUBE_MAP_POSITIVE_X`; the other five faces follow it.
pub const GL_TEXTURE_CUBE_MAP_POSITIVE_X: u32 = 0x8515;

} // verus!
