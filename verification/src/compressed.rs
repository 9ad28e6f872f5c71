//! Compressed texture formats (ETC2 / ASTC) uploaded straight to the GPU.

use crate::text::{has_substring, str_contains};
use vstd::prelude::*;

verus! {

/// `GL_COMPRESSED_RGB8_ETC2`
pub const GL_COMPRESSED_RGB8_ETC2: u32 = 0x9274;

/// `GL_COMPRESSED_RGBA8_ETC2_EAC`
pub const GL_COMPRESSED_RGBA8_ETC2_EAC: u32 = 0x9278;

/// `GL_COMPRESSED_RGBA_ASTC_4x4_KHR`
pub const GL_COMPRESSED_RGBA_ASTC_4X4_KHR: u32 = 0x93B0;

/// `GL_COMPRESSED_RGBA_ASTC_6x6_KHR`
pub const GL_COMPRESSED_RGBA_ASTC_6X6_KHR: u32 = 0x93B4;

/// `GL_COMPRESSED_RGBA_ASTC_8x8_KHR`
pub const GL_COMPRESSED_RGBA_ASTC_8X8_KHR: u32 = 0x93B9;

/// Compressed texture format for GPU upload.
#[derive(Debug, Clone, Copy, PartialEq, Eq, Structural)]
pub enum CompressedFormat {
    /// ETC2 RGB (no alpha), 0.5 bytes/pixel.
    Etc2Rgb,
    /// ETC2 RGBA, 1 byte/pixel.
    Etc2Rgba,
    /// ASTC 4x4 block, 1 byte/pixel.
    Astc4x4,
    /// ASTC 6x6 block, about 0.44 bytes/pixel.
    Astc6x6,
    /// ASTC 8x8 block, 0.25 bytes/pixel.
    Astc8x8,
}

/// Block footprint `(width, height)` in texels.
pub open spec fn block_dims_spec(f: CompressedFormat) -> (u32, u32) {
    match f {
        CompressedFormat::Etc2Rgb | CompressedFormat::Etc2Rgba | CompressedFormat::Astc4x4 => (4, 4),
        CompressedFormat::Astc6x6 => (6, 6),
        CompressedFormat::Astc8x8 => (8, 8),
    }
}

/// Bytes per compressed block.
pub open spec fn bytes_per_block_spec(f: CompressedFormat) -> u64 {
    match f {
        CompressedFormat::Etc2Rgb => 8,
        _ => 16,
    }
}

/// `ceil(a / b)`.
pub open spec fn ceil_div(a: int, b: int) -> int {
    (a + b - 1) / b
}

/// Byte length of a tightly packed level-0 image, saturated at `u64::MAX`.
pub open spec fn level0_bytes_spec(f: CompressedFormat, width: u32, height: u32) -> u64 {
    let (bw, bh) = block_dims_spec(f);
    let total = ceil_div(width as int, bw as int) * ceil_div(height as int, bh as int)
        * bytes_per_block_spec(f);
    if total > u64::MAX {
        u64::MAX
    } else {
        total as u64
    }
}

/// `u64::div_ceil`: `ceil(a / b)`.
fn div_ceil_u64(a: u64, b: u64) -> (r: u64)
    requires
        b > 0,
    ensures
        r == ceil_div(a as int, b as int),
{
    let q = a / b;
    proof {
        assert(a % b != 0 ==> q < u64::MAX) by (nonlinear_arith)
            requires
                b > 0,
                q == a / b,
                a <= u64::MAX,
        {
            if a % b != 0 {
                assert(b > 1);
                assert(q * b <= a);
                assert(q <= a / 2);
            }
        }
    }
    let r = if a % b != 0 { q + 1 } else { q };
    proof {
        assert(ceil_div(a as int, b as int) == r) by (nonlinear_arith)
            requires
                b > 0,
                q == a / b,
                r == (if a % b != 0 { q + 1 } else { q as int }),
        {
        }
    }
    r
}

impl CompressedFormat {
    /// Map a Vulkan format code (from a KTX2 header) to a format.
    pub fn from_vk_format(vk_format: u32) -> (f: Option<Self>)
        ensures
            f == (if vk_format == 147 {
                Some(CompressedFormat::Etc2Rgb)
            } else if vk_format == 151 {
                Some(CompressedFormat::Etc2Rgba)
            } else if vk_format == 157 {
                Some(CompressedFormat::Astc4x4)
            } else if vk_format == 163 {
                Some(CompressedFormat::Astc6x6)
            } else if vk_format == 169 {
                Some(CompressedFormat::Astc8x8)
            } else {
                None
            }),
    {
        match vk_format {
            147 => Some(CompressedFormat::Etc2Rgb),
            151 => Some(CompressedFormat::Etc2Rgba),
            157 => Some(CompressedFormat::Astc4x4),
            163 => Some(CompressedFormat::Astc6x6),
            169 => Some(CompressedFormat::Astc8x8),
            _ => None,
        }
    }

    /// Whether the format needs the ASTC extension.
    pub fn requires_astc(self) -> (b: bool)
        ensures
            b == (self == CompressedFormat::Astc4x4 || self == CompressedFormat::Astc6x6 || self
                == CompressedFormat::Astc8x8),
    {
        match self {
            CompressedFormat::Astc4x4 | CompressedFormat::Astc6x6 | CompressedFormat::Astc8x8 => true,
            _ => false,
        }
    }

    /// The OpenGL ES internal format constant.
    pub fn gl_internal_format(self) -> (v: u32)
        ensures
            v == (match self {
                CompressedFormat::Etc2Rgb => GL_COMPRESSED_RGB8_ETC2,
                CompressedFormat::Etc2Rgba => GL_COMPRESSED_RGBA8_ETC2_EAC,
                CompressedFormat::Astc4x4 => GL_COMPRESSED_RGBA_ASTC_4X4_KHR,
                CompressedFormat::Astc6x6 => GL_COMPRESSED_RGBA_ASTC_6X6_KHR,
                CompressedFormat::Astc8x8 => GL_COMPRESSED_RGBA_ASTC_8X8_KHR,
            }),
    {
        match self {
            CompressedFormat::Etc2Rgb => GL_COMPRESSED_RGB8_ETC2,
            CompressedFormat::Etc2Rgba => GL_COMPRESSED_RGBA8_ETC2_EAC,
            CompressedFormat::Astc4x4 => GL_COMPRESSED_RGBA_ASTC_4X4_KHR,
            CompressedFormat::Astc6x6 => GL_COMPRESSED_RGBA_ASTC_6X6_KHR,
            CompressedFormat::Astc8x8 => GL_COMPRESSED_RGBA_ASTC_8X8_KHR,
        }
    }

    /// Human-readable label for logging.
    pub fn label(self) -> (s: &'static str)
        ensures
            s@ == (match self {
                CompressedFormat::Etc2Rgb => "ETC2_RGB"@,
                CompressedFormat::Etc2Rgba => "ETC2_RGBA"@,
                CompressedFormat::Astc4x4 => "ASTC_4x4"@,
                CompressedFormat::Astc6x6 => "ASTC_6x6"@,
                CompressedFormat::Astc8x8 => "ASTC_8x8"@,
            }),
    {
        match self {
            CompressedFormat::Etc2Rgb => "ETC2_RGB",
            CompressedFormat::Etc2Rgba => "ETC2_RGBA",
            CompressedFormat::Astc4x4 => "ASTC_4x4",
            CompressedFormat::Astc6x6 => "ASTC_6x6",
            CompressedFormat::Astc8x8 => "ASTC_8x8",
        }
    }

    /// Compressed-block footprint `(width, height)` in texels.
    pub fn block_dims(self) -> (d: (u32, u32))
        ensures
            d == block_dims_spec(self),
    {
        match self {
            CompressedFormat::Etc2Rgb | CompressedFormat::Etc2Rgba | CompressedFormat::Astc4x4 => (
                4,
                4,
            ),
            CompressedFormat::Astc6x6 => (6, 6),
            CompressedFormat::Astc8x8 => (8, 8),
        }
    }

    /// Bytes per compressed block.
    pub fn bytes_per_block(self) -> (n: u64)
        ensures
            n == bytes_per_block_spec(self),
    {
        match self {
            CompressedFormat::Etc2Rgb => 8,
            CompressedFormat::Etc2Rgba | CompressedFormat::Astc4x4 | CompressedFormat::Astc6x6
            | CompressedFormat::Astc8x8 => 16,
        }
    }

    /// Exact byte length a tightly packed level-0 image of `width` x
    /// `height` has in this format: blocks per row times blocks per column
    /// times bytes per block, saturated at `u64::MAX`.
    pub fn expected_level0_bytes(self, width: u32, height: u32) -> (n: u64)
        ensures
            n == level0_bytes_spec(self, width, height),
    {
        let (bw, bh) = self.block_dims();
        let blocks_x = div_ceil_u64(width as u64, bw as u64);
        let blocks_y = div_ceil_u64(height as u64, bh as u64);
        let bpb = self.bytes_per_block();
        let xy = match blocks_x.checked_mul(blocks_y) {
            Some(v) => v,
            None => u64::MAX,
        };
        let total = match xy.checked_mul(bpb) {
            Some(v) => v,
            None => u64::MAX,
        };
        proof {
            let exact = blocks_x * blocks_y * bpb;
            if blocks_x * blocks_y > u64::MAX {
                assert(exact > u64::MAX) by (nonlinear_arith)
                    requires
                        blocks_x * blocks_y > u64::MAX,
                        bpb >= 8,
                        exact == blocks_x * blocks_y * bpb,
                {
                }
                assert(xy * bpb > u64::MAX) by (nonlinear_arith)
                    requires
                        xy == u64::MAX,
                        bpb >= 8,
                {
                }
            }
        }
        total
    }
}

/// Compressed-format support flags, detected once at initialization.
#[derive(Debug, Clone, Copy)]
pub struct CompressedFormatSupport {
    pub etc2: bool,
    pub astc: bool,
}

impl CompressedFormatSupport {
    /// Support flags from the driver's `GL_VERSION` and `GL_EXTENSIONS`
    /// strings: ETC2 comes with OpenGL ES 3.x and 4.x, ASTC with either
    /// ASTC extension.
    pub fn from_gl_strings(version: &str, extensions: &str) -> (s: Self)
        ensures
            s.etc2 == (has_substring(version@, "OpenGL ES 3."@) || has_substring(
                version@,
                "OpenGL ES 4."@,
            )),
            s.astc == (has_substring(extensions@, "GL_KHR_texture_compression_astc_ldr"@)
                || has_substring(extensions@, "GL_KHR_texture_compression_astc_hdr"@)),
    {
        let etc2 = str_contains(version, "OpenGL ES 3.") || str_contains(version, "OpenGL ES 4.");
        let astc = str_contains(extensions, "GL_KHR_texture_compression_astc_ldr") || str_contains(
            extensions,
            "GL_KHR_texture_compression_astc_hdr",
        );
        CompressedFormatSupport { etc2, astc }
    }

    /// Whether the given compressed format is supported.
    pub fn is_supported(&self, format: CompressedFormat) -> (b: bool)
        ensures
            b == (if format == CompressedFormat::Etc2Rgb || format == CompressedFormat::Etc2Rgba {
                self.etc2
            } else {
                self.astc
            }),
    {
        match format {
            CompressedFormat::Etc2Rgb | CompressedFormat::Etc2Rgba => self.etc2,
            CompressedFormat::Astc4x4 | CompressedFormat::Astc6x6 | CompressedFormat::Astc8x8 => {
                self.astc
            },
        }
    }
}

/// A format that does not need the ASTC extension is an ETC2 format.
pub proof fn law_astc_split(f: CompressedFormat)
    ensures
        !(f == CompressedFormat::Astc4x4 || f == CompressedFormat::Astc6x6 || f
            == CompressedFormat::Astc8x8) <==> (f == CompressedFormat::Etc2Rgb || f
            == CompressedFormat::Etc2Rgba),
{
}

} // verus!
