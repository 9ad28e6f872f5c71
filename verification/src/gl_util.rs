//! GL enum values used when wrapping textures, and the key mixer of the
//! effect caches.

use vstd::prelude::*;

verus! {

/// GLES2 / GLES3 enum value for `GL_TEXTURE_2D`.
pub fn gles_texture_2d() -> (v: u32)
    ensures
        v == 0x0DE1,
{
    0x0DE1
}

/// GLES3 sized internal format `GL_RGBA8`, as used for image textures.
pub fn gl_rgba8_size() -> (v: u32)
    ensures
        v == 0x8058,
{
    0x8058
}

/// GLES3 sized internal format `GL_RGBA8`, as used for canvas surfaces.
pub fn gl_rgba8() -> (v: u32)
    ensures
        v == 0x8058,
{
    0x8058
}

/// `x` rotated left by 13 bits.
pub open spec fn rotl13(x: u32) -> u32 {
    ((x << 13u32) | (x >> 19u32)) as u32
}

/// The effect-cache key mix: `a * 0x9E3779B9 + rotl(b, 13)`, both modulo
/// 2^32.
pub open spec fn mix_spec(a: u32, b: u32) -> u32 {
    ((a as int * 0x9E37_79B9 + rotl13(b) as int) % 0x1_0000_0000) as u32
}

/// Mix two 32-bit values so both contribute independently to a packed
/// cache key.
pub fn mix_u32(a: u32, b: u32) -> (r: u32)
    ensures
        r == mix_spec(a, b),
{
    let rot = (b << 13u32) | (b >> 19u32);
    let m = a.wrapping_mul(0x9E37_79B9);
    let r = m.wrapping_add(rot);
    proof {
        assert(m == (a as int * 0x9E37_79B9) % 0x1_0000_0000);
        assert(r == (m as int + rot as int) % 0x1_0000_0000);
        assert(((a as int * 0x9E37_79B9) % 0x1_0000_0000 + rot as int) % 0x1_0000_0000 == (a as int
            * 0x9E37_79B9 + rot as int) % 0x1_0000_0000) by (nonlinear_arith);
    }
    r
}

} // verus!
