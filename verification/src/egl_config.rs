//! EGL context configuration and rendering-backend selection.

use crate::text::{has_substring, str_contains};
use vstd::prelude::*;

verus! {

/// `EGL_CONTEXT_CLIENT_VERSION`
pub const EGL_CONTEXT_CLIENT_VERSION: i32 = 0x3098;

/// `EGL_NONE`, the attribute list terminator.
pub const EGL_NONE: i32 = 0x3038;

/// `EGL_CONTEXT_OPENGL_RESET_NOTIFICATION_STRATEGY_EXT`
pub const EGL_CONTEXT_OPENGL_RESET_NOTIFICATION_STRATEGY_EXT: i32 = 0x3138;

/// `EGL_LOSE_CONTEXT_ON_RESET_EXT`
pub const EGL_LOSE_CONTEXT_ON_RESET_EXT: i32 = 0x31BF;

/// The context attribute list for a GLES `gles_major` context, asking for
/// lose-context-on-reset notification when the driver offers robustness.
pub open spec fn ctx_attribs_spec(gles_major: u32, has_robust_context: bool) -> Seq<i32> {
    if has_robust_context {
        seq![
            EGL_CONTEXT_CLIENT_VERSION,
            gles_major as i32,
            EGL_CONTEXT_OPENGL_RESET_NOTIFICATION_STRATEGY_EXT,
            EGL_LOSE_CONTEXT_ON_RESET_EXT,
            EGL_NONE,
        ]
    } else {
        seq![EGL_CONTEXT_CLIENT_VERSION, gles_major as i32, EGL_NONE]
    }
}

/// Build the `eglCreateContext` attribute list.
pub fn build_ctx_attribs(gles_major: u32, has_robust_context: bool) -> (a: Vec<i32>)
    ensures
        a@ == ctx_attribs_spec(gles_major, has_robust_context),
{
    let mut attribs: Vec<i32> = Vec::new();
    attribs.push(EGL_CONTEXT_CLIENT_VERSION);
    attribs.push(gles_major as i32);
    if has_robust_context {
        attribs.push(EGL_CONTEXT_OPENGL_RESET_NOTIFICATION_STRATEGY_EXT);
        attribs.push(EGL_LOSE_CONTEXT_ON_RESET_EXT);
    }
    attribs.push(EGL_NONE);
    proof {
        assert(attribs@ =~= ctx_attribs_spec(gles_major, has_robust_context));
    }
    attribs
}

/// The attribute list always ends with `EGL_NONE` and starts with the
/// client version pair.
pub proof fn law_attribs_terminated(gles_major: u32, has_robust_context: bool)
    ensures
        ctx_attribs_spec(gles_major, has_robust_context).last() == EGL_NONE,
        ctx_attribs_spec(gles_major, has_robust_context)[0] == EGL_CONTEXT_CLIENT_VERSION,
        ctx_attribs_spec(gles_major, has_robust_context).len() % 2 == 1,
{
}

/// Whether an `EGL_EXTENSIONS` string offers GLES 3 contexts
/// (`EGL_KHR_create_context`).
pub fn gles3_supported_by_extensions(extensions: &str) -> (b: bool)
    ensures
        b == has_substring(extensions@, "EGL_KHR_create_context"@),
{
    str_contains(extensions, "EGL_KHR_create_context")
}

/// Supported rendering API backends.
#[derive(Debug, Clone, Copy, PartialEq, Eq, Structural)]
pub enum BackendType {
    /// OpenGL ES via EGL (Android, Linux).
    OpenGLES,
    /// OpenGL via EGL (desktop Linux, Windows via ANGLE).
    OpenGL,
    /// Metal (iOS, macOS).
    Metal,
    /// Direct3D 11 (Windows).
    Direct3D11,
    /// Vulkan.
    Vulkan,
}

/// The default backend for an operating system named as in
/// `std::env::consts::OS`.
pub open spec fn backend_for_os_spec(os: Seq<char>) -> BackendType {
    if os == "android"@ {
        BackendType::OpenGLES
    } else if os == "ios"@ || os == "macos"@ {
        BackendType::Metal
    } else if os == "windows"@ {
        BackendType::Direct3D11
    } else {
        BackendType::OpenGL
    }
}

/// `str` equality.
fn str_eq(a: &str, b: &str) -> (r: bool)
    ensures
        r == (a@ == b@),
{
    let av = crate::text::chars_of(a);
    let bv = crate::text::chars_of(b);
    if av.len() != bv.len() {
        return false;
    }
    let mut i: usize = 0;
    while i < av.len()
        invariant
            av@ == a@,
            bv@ == b@,
            av@.len() == bv@.len(),
            0 <= i <= av@.len(),
            forall|k: int| 0 <= k < i ==> av@[k] == bv@[k],
        decreases av@.len() - i,
    {
        if av[i] != bv[i] {
            return false;
        }
        i = i + 1;
    }
    assert(a@ =~= b@);
    true
}

impl BackendType {
    /// The default backend for the operating system `os`.
    pub fn default_for_os(os: &str) -> (b: Self)
        ensures
            b == backend_for_os_spec(os@),
    {
        proof {
            reveal_strlit("android");
            reveal_strlit("ios");
            reveal_strlit("macos");
            reveal_strlit("windows");
        }
        if str_eq(os, "android") {
            BackendType::OpenGLES
        } else if str_eq(os, "ios") || str_eq(os, "macos") {
            BackendType::Metal
        } else if str_eq(os, "windows") {
            BackendType::Direct3D11
        } else {
            BackendType::OpenGL
        }
    }
}

/// Texture format for surfaces and framebuffers.
#[derive(Debug, Clone, Copy, PartialEq, Eq, Structural)]
pub enum PixelFormat {
    RGBA8,
    BGRA8,
    RGB565,
    RGBA16F,
}

/// Surface configuration for creating render surfaces.
#[derive(Debug, Clone, Copy)]
pub struct SurfaceConfig {
    pub width: u32,
    pub height: u32,
    pub pixel_format: PixelFormat,
    pub depth_bits: u8,
    pub stencil_bits: u8,
    pub sample_count: u8,
    pub vsync: bool,
}

impl Default for SurfaceConfig {
    fn default() -> (c: Self)
        ensures
            c.width == 0 && c.height == 0,
            c.pixel_format == PixelFormat::RGBA8,
            c.depth_bits == 0 && c.stencil_bits == 0,
            c.sample_count == 1,
            c.vsync,
    {
        SurfaceConfig {
            width: 0,
            height: 0,
            pixel_format: PixelFormat::RGBA8,
            depth_bits: 0,
            stencil_bits: 0,
            sample_count: 1,
            vsync: true,
        }
    }
}

/// `EGL_OPENGL_ES2_BIT`
pub const EGL_OPENGL_ES2_BIT: i32 = 0x0004;

/// `EGL_OPENGL_ES3_BIT_KHR`
pub const EGL_OPENGL_ES3_BIT: i32 = 0x0040;

/// A framebuffer configuration to ask the driver for, in preference order.
#[derive(Debug, Clone, Copy, PartialEq, Eq, Structural)]
pub struct ConfigCandidate {
    pub depth: i32,
    pub stencil: i32,
    pub renderable: i32,
    pub gles_major: u32,
}

/// The configurations tried, best first: GLES 3 before GLES 2, and within
/// each, depth 16 with stencil 8, then depth 24 with stencil 8 (drivers
/// that only pack D24S8), then depth 16 without stencil.
pub open spec fn config_candidates_spec() -> Seq<ConfigCandidate> {
    seq![
        ConfigCandidate { depth: 16, stencil: 8, renderable: EGL_OPENGL_ES3_BIT, gles_major: 3 },
        ConfigCandidate { depth: 24, stencil: 8, renderable: EGL_OPENGL_ES3_BIT, gles_major: 3 },
        ConfigCandidate { depth: 16, stencil: 0, renderable: EGL_OPENGL_ES3_BIT, gles_major: 3 },
        ConfigCandidate { depth: 16, stencil: 8, renderable: EGL_OPENGL_ES2_BIT, gles_major: 2 },
        ConfigCandidate { depth: 24, stencil: 8, renderable: EGL_OPENGL_ES2_BIT, gles_major: 2 },
        ConfigCandidate { depth: 16, stencil: 0, renderable: EGL_OPENGL_ES2_BIT, gles_major: 2 },
    ]
}

/// The configurations to try, in preference order; the first one the
/// driver offers is used.
pub fn config_candidates() -> (v: Vec<ConfigCandidate>)
    ensures
        v@ == config_candidates_spec(),
{
    let mut v: Vec<ConfigCandidate> = Vec::new();
    v.push(ConfigCandidate { depth: 16, stencil: 8, renderable: EGL_OPENGL_ES3_BIT, gles_major: 3 });
    v.push(ConfigCandidate { depth: 24, stencil: 8, renderable: EGL_OPENGL_ES3_BIT, gles_major: 3 });
    v.push(ConfigCandidate { depth: 16, stencil: 0, renderable: EGL_OPENGL_ES3_BIT, gles_major: 3 });
    v.push(ConfigCandidate { depth: 16, stencil: 8, renderable: EGL_OPENGL_ES2_BIT, gles_major: 2 });
    v.push(ConfigCandidate { depth: 24, stencil: 8, renderable: EGL_OPENGL_ES2_BIT, gles_major: 2 });
    v.push(ConfigCandidate { depth: 16, stencil: 0, renderable: EGL_OPENGL_ES2_BIT, gles_major: 2 });
    proof {
        assert(v@ =~= config_candidates_spec());
    }
    v
}

/// The `eglChooseConfig` attribute list for a candidate: RGBA8888, the
/// candidate's depth, stencil and API, usable for windows and pbuffers.
pub open spec fn config_attribs_spec(c: ConfigCandidate) -> Seq<i32> {
    seq![
        0x3024i32, 8i32, 0x3023i32, 8i32, 0x3022i32, 8i32, 0x3021i32, 8i32,
        0x3025i32, c.depth, 0x3026i32, c.stencil,
        0x3033i32, 0x0004i32 | 0x0001i32,
        0x3040i32, c.renderable,
        EGL_NONE,
    ]
}

/// Build the attribute list for a candidate.
pub fn config_attribs(c: ConfigCandidate) -> (a: Vec<i32>)
    ensures
        a@ == config_attribs_spec(c),
{
    let mut a: Vec<i32> = Vec::new();
    a.push(0x3024);
    a.push(8);
    a.push(0x3023);
    a.push(8);
    a.push(0x3022);
    a.push(8);
    a.push(0x3021);
    a.push(8);
    a.push(0x3025);
    a.push(c.depth);
    a.push(0x3026);
    a.push(c.stencil);
    a.push(0x3033);
    a.push(0x0004i32 | 0x0001i32);
    a.push(0x3040);
    a.push(c.renderable);
    a.push(EGL_NONE);
    proof {
        assert(a@ =~= config_attribs_spec(c));
    }
    a
}

/// Whether the driver's `EGL_EXTENSIONS` offer robust contexts with reset
/// notification (`EGL_EXT_create_context_robustness`).
pub fn robust_context_supported(extensions: &str) -> (b: bool)
    ensures
        b == has_substring(extensions@, "EGL_EXT_create_context_robustness"@),
{
    str_contains(extensions, "EGL_EXT_create_context_robustness")
}

/// GLES 3 configurations are always tried before GLES 2 ones.
pub proof fn law_gles3_configs_first()
    ensures
        forall|i: int, j: int|
            0 <= i < j < config_candidates_spec().len() ==> config_candidates_spec()[i].gles_major
                >= config_candidates_spec()[j].gles_major,
{
}

} // verus!
