//! Texture upload path selection.

use crate::text::{has_prefix, has_substring, str_contains, str_starts_with};
use vstd::prelude::*;

verus! {

/// Configuration for PBO uploads.
pub struct PboConfig {
    /// Enable PBO usage (requires ES 3.0+).
    pub enabled: bool,
    /// Maximum PBO buffer size in bytes (for the reuse pool).
    pub max_buffer_size: usize,
}

impl Default for PboConfig {
    fn default() -> (c: Self)
        ensures
            c.enabled,
            c.max_buffer_size == 4 * 1024 * 1024,
    {
        PboConfig { enabled: true, max_buffer_size: 4 * 1024 * 1024 }
    }
}

/// Whether a `GL_VERSION` string names a context with pixel buffer objects:
/// OpenGL ES 3 or a desktop OpenGL 3.x / 4.x.
pub fn pbo_supported_by_version(version: &str) -> (b: bool)
    ensures
        b == (has_substring(version@, "OpenGL ES 3"@) || has_prefix(version@, "3."@)
            || has_prefix(version@, "4."@)),
{
    if str_contains(version, "OpenGL ES 3") {
        return true;
    }
    str_starts_with(version, "3.") || str_starts_with(version, "4.")
}

/// Which texture-upload path an upload takes.
#[derive(Debug, Clone, Copy, PartialEq, Eq, Structural)]
pub enum TextureUploadPath {
    /// Immutable storage filled through a PBO.  Fastest.
    PboImmutable,
    /// Mutable storage filled through a PBO.
    PboMutable,
    /// Direct upload from client memory.  Synchronous fallback.
    Synchronous,
}

/// The decision table: no data forces the synchronous path; otherwise a
/// PBO with immutable storage when both are available, a PBO alone when
/// only it is.
pub open spec fn upload_path_spec(use_pbo: bool, has_tex_storage: bool, has_data: bool) -> TextureUploadPath {
    if !has_data {
        TextureUploadPath::Synchronous
    } else if use_pbo && has_tex_storage {
        TextureUploadPath::PboImmutable
    } else if use_pbo {
        TextureUploadPath::PboMutable
    } else {
        TextureUploadPath::Synchronous
    }
}

impl TextureUploadPath {
    /// Pure decision table for the upload path.
    pub fn select(use_pbo: bool, has_tex_storage: bool, has_data: bool) -> (p: Self)
        ensures
            p == upload_path_spec(use_pbo, has_tex_storage, has_data),
    {
        if !has_data {
            return TextureUploadPath::Synchronous;
        }
        if use_pbo && has_tex_storage {
            return TextureUploadPath::PboImmutable;
        }
        if use_pbo {
            return TextureUploadPath::PboMutable;
        }
        TextureUploadPath::Synchronous
    }
}

/// Without a PBO the upload is always synchronous, and without data no PBO
/// is ever used.
pub proof fn law_pbo_needs_pbo_and_data(use_pbo: bool, has_tex_storage: bool, has_data: bool)
    ensures
        !use_pbo ==> upload_path_spec(use_pbo, has_tex_storage, has_data)
            == TextureUploadPath::Synchronous,
        !has_data ==> upload_path_spec(use_pbo, has_tex_storage, has_data)
            == TextureUploadPath::Synchronous,
{
}

/// Why decoded image dimensions were refused.
#[derive(Debug, Clone, Copy, PartialEq, Eq, Structural)]
pub enum DimensionError {
    /// A width or height of zero.
    ZeroDimensions,
    /// More pixels than the image budget allows.
    TooManyPixels { pixels: u64 },
    /// The RGBA byte size does not fit in `usize`.
    ByteSizeOverflow,
}

/// The RGBA byte size of a decoded `width` x `height` image, or why it is
/// refused: zero dimensions, more than `max_pixels` pixels, or a byte size
/// beyond `usize`.
pub open spec fn image_byte_size_spec(width: u32, height: u32, max_pixels: u64) -> Result<usize, DimensionError> {
    if width == 0 || height == 0 {
        Err(DimensionError::ZeroDimensions)
    } else if width * height > max_pixels {
        Err(DimensionError::TooManyPixels { pixels: (width * height) as u64 })
    } else if ((width * height) as u64 as usize) * 4 > usize::MAX {
        Err(DimensionError::ByteSizeOverflow)
    } else {
        Ok((((width * height) as u64 as usize) * 4) as usize)
    }
}

/// Check decoded image dimensions and give the RGBA byte size.
pub fn validate_dimensions(width: u32, height: u32, max_pixels: u64) -> (r: Result<usize, DimensionError>)
    ensures
        r == image_byte_size_spec(width, height, max_pixels),
{
    if width == 0 || height == 0 {
        return Err(DimensionError::ZeroDimensions);
    }
    assert((width as u64) * (height as u64) <= u64::MAX) by (nonlinear_arith)
        requires
            width <= u32::MAX,
            height <= u32::MAX,
    ;
    let pixels: u64 = (width as u64) * (height as u64);
    if pixels > max_pixels {
        return Err(DimensionError::TooManyPixels { pixels });
    }
    let p: usize = pixels as usize;
    if p > usize::MAX / 4 {
        return Err(DimensionError::ByteSizeOverflow);
    }
    Ok(p * 4)
}

} // verus!
