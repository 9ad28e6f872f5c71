use migo_graphics::batching::GpuCanvas2DTier;
use migo_graphics::compressed::{CompressedFormat, CompressedFormatSupport};
use migo_graphics::device::{parse_gles_version, DeviceCapabilities, DeviceRenderProfile, DeviceTier};

#[test]
fn gl_internal_format_values() {
    assert_eq!(CompressedFormat::Etc2Rgb.gl_internal_format(), 0x9274);
    assert_eq!(CompressedFormat::Etc2Rgba.gl_internal_format(), 0x9278);
    assert_eq!(CompressedFormat::Astc4x4.gl_internal_format(), 0x93B0);
    assert_eq!(CompressedFormat::Astc6x6.gl_internal_format(), 0x93B4);
    assert_eq!(CompressedFormat::Astc8x8.gl_internal_format(), 0x93B9);
}

#[test]
fn format_labels() {
    assert_eq!(CompressedFormat::Etc2Rgb.label(), "ETC2_RGB");
    assert_eq!(CompressedFormat::Etc2Rgba.label(), "ETC2_RGBA");
    assert_eq!(CompressedFormat::Astc4x4.label(), "ASTC_4x4");
    assert_eq!(CompressedFormat::Astc6x6.label(), "ASTC_6x6");
    assert_eq!(CompressedFormat::Astc8x8.label(), "ASTC_8x8");
}

#[test]
fn expected_level0_bytes_block_math() {
    assert_eq!(CompressedFormat::Etc2Rgb.expected_level0_bytes(8, 8), 32);
    assert_eq!(CompressedFormat::Etc2Rgb.expected_level0_bytes(1, 1), 8);
    assert_eq!(CompressedFormat::Etc2Rgba.expected_level0_bytes(8, 8), 64);
    assert_eq!(CompressedFormat::Astc4x4.expected_level0_bytes(8, 8), 64);
    assert_eq!(CompressedFormat::Astc6x6.expected_level0_bytes(7, 7), 64);
    assert_eq!(CompressedFormat::Astc8x8.expected_level0_bytes(8, 8), 16);
    assert_eq!(CompressedFormat::Astc8x8.expected_level0_bytes(9, 9), 64);
}

#[test]
fn expected_level0_bytes_edges() {
    assert_eq!(CompressedFormat::Astc4x4.expected_level0_bytes(0, 100), 0);
    assert_eq!(
        CompressedFormat::Astc4x4.expected_level0_bytes(u32::MAX, u32::MAX),
        u64::MAX
    );
    assert_eq!(CompressedFormat::Etc2Rgb.expected_level0_bytes(u32::MAX, u32::MAX), (1u64 << 60) * 8);
}

#[test]
fn vk_format_mapping_and_support() {
    assert_eq!(CompressedFormat::from_vk_format(147), Some(CompressedFormat::Etc2Rgb));
    assert_eq!(CompressedFormat::from_vk_format(169), Some(CompressedFormat::Astc8x8));
    assert_eq!(CompressedFormat::from_vk_format(148), None);
    assert!(CompressedFormat::Astc6x6.requires_astc());
    assert!(!CompressedFormat::Etc2Rgba.requires_astc());
    let s = CompressedFormatSupport::from_gl_strings("OpenGL ES 3.2", "GL_EXT_foo GL_KHR_texture_compression_astc_ldr");
    assert!(s.etc2 && s.astc);
    assert!(s.is_supported(CompressedFormat::Astc4x4));
    let s2 = CompressedFormatSupport::from_gl_strings("OpenGL ES 2.0", "");
    assert!(!s2.etc2 && !s2.astc);
    assert!(!s2.is_supported(CompressedFormat::Etc2Rgb));
}

#[test]
fn parse_gles_versions() {
    assert_eq!(parse_gles_version("OpenGL ES 3.1 v1.r28p0"), (3, 1));
    assert_eq!(parse_gles_version("OpenGL ES 3.0"), (3, 0));
    assert_eq!(parse_gles_version("OpenGL ES 2.0"), (2, 0));
    assert_eq!(parse_gles_version("4.6.0 NVIDIA 535"), (4, 6));
    assert_eq!(parse_gles_version("garbage"), (2, 0));
}

#[test]
fn parse_gles_version_edge_cases() {
    assert_eq!(parse_gles_version("v 99999999999.7"), (2, 7));
    assert_eq!(parse_gles_version("ES 12 3.x"), (3, 0));
    assert_eq!(parse_gles_version(".5"), (2, 5));
    assert_eq!(parse_gles_version(""), (2, 0));
}

fn caps(version: (u32, u32), pbo: bool, fence: bool, etc2: bool) -> DeviceCapabilities {
    DeviceCapabilities {
        gles_version: version,
        has_pbo: pbo,
        has_fence_sync: fence,
        has_compute: false,
        ahb_available: false,
        has_buffer_age: false,
        has_partial_update: false,
        compressed_format_support: CompressedFormatSupport { etc2, astc: false },
    }
}

#[test]
fn api23_tier_b_device_uses_conservative_profile() {
    let caps = caps((2, 0), false, false, false);
    let profile = DeviceRenderProfile::from_caps(&caps, 23, DeviceTier::TierB);
    assert_eq!(profile.max_upload_jobs_per_frame, 1);
    assert!(!profile.enable_partial_damage);
}

#[test]
fn api24_tier_a_device_uses_aggressive_profile() {
    let caps = caps((3, 0), true, true, true);
    let profile = DeviceRenderProfile::from_caps(&caps, 24, DeviceTier::TierA);
    assert_eq!(profile.max_upload_jobs_per_frame, 4);
    assert_eq!(profile.max_upload_bytes_per_frame, 4 * 1024 * 1024);
    assert!(profile.enable_partial_damage);
    assert!(profile.enable_layer_cache);
}

#[test]
fn render_profile_uses_detected_tier() {
    let c = caps((2, 0), false, false, false);
    assert_eq!(c.tier(), DeviceTier::TierB);
    let render_profile = c.render_profile(24);
    let detected_profile = DeviceRenderProfile::from_detected_device(&c, 24);
    assert_eq!(render_profile, detected_profile);
    assert_eq!(render_profile.max_upload_jobs_per_frame, 1);
    assert!(!render_profile.enable_partial_damage);
}

#[test]
fn capabilities_from_driver_strings() {
    let c = DeviceCapabilities::from_driver_strings(
        "OpenGL ES 3.1 v1.r28p0",
        "GL_OES_EGL_image GL_KHR_texture_compression_astc_ldr",
        "EGL_ANDROID_image_native_buffer EGL_EXT_buffer_age",
        26,
        true,
    );
    assert_eq!(c.gles_version, (3, 1));
    assert!(c.has_pbo && c.has_fence_sync && c.has_compute && c.ahb_available);
    assert!(c.has_buffer_age && !c.has_partial_update);
    assert!(c.compressed_format_support.etc2 && c.compressed_format_support.astc);
    assert_eq!(c.tier(), DeviceTier::TierA);
    let old = DeviceCapabilities::from_driver_strings("OpenGL ES 2.0", "GL_NV_pixel_buffer_object", "", 30, false);
    assert!(old.has_pbo && !old.has_fence_sync && !old.ahb_available);
    assert_eq!(old.tier(), DeviceTier::TierB);
}

#[test]
fn tier_variants_are_comparable() {
    assert_ne!(GpuCanvas2DTier::Unsupported, GpuCanvas2DTier::Compute);
    assert_ne!(GpuCanvas2DTier::Compute, GpuCanvas2DTier::ComputeWithSsbo);
    assert_eq!(GpuCanvas2DTier::Unsupported, GpuCanvas2DTier::Unsupported);
}

#[test]
fn gpu_canvas_tier_from_limits() {
    assert_eq!(GpuCanvas2DTier::from_limits(0, 8), GpuCanvas2DTier::Unsupported);
    assert_eq!(GpuCanvas2DTier::from_limits(65535, 4), GpuCanvas2DTier::ComputeWithSsbo);
    assert_eq!(GpuCanvas2DTier::from_limits(65535, 3), GpuCanvas2DTier::Compute);
    assert!(migo_graphics::batching::compute_capable_version("OpenGL ES 3.2 build"));
    assert!(!migo_graphics::batching::compute_capable_version("OpenGL ES 3.0"));
}
