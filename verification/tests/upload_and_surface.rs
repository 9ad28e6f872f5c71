use migo_graphics::surface_install::{classify_surface_install, InstallPolicy, RecreateKind};
use migo_graphics::upload::{
    pbo_supported_by_version, validate_dimensions, DimensionError, PboConfig, TextureUploadPath,
};

#[test]
fn select_path_prefers_immutable_when_everything_available() {
    assert_eq!(TextureUploadPath::select(true, true, true), TextureUploadPath::PboImmutable);
}

#[test]
fn select_path_falls_back_to_mutable_pbo_when_no_tex_storage() {
    assert_eq!(TextureUploadPath::select(true, false, true), TextureUploadPath::PboMutable);
}

#[test]
fn select_path_uses_sync_when_pbo_unavailable() {
    assert_eq!(TextureUploadPath::select(false, true, true), TextureUploadPath::Synchronous);
    assert_eq!(TextureUploadPath::select(false, false, true), TextureUploadPath::Synchronous);
}

#[test]
fn select_path_uses_sync_when_data_is_empty() {
    for use_pbo in [false, true] {
        for has_ts in [false, true] {
            assert_eq!(
                TextureUploadPath::select(use_pbo, has_ts, false),
                TextureUploadPath::Synchronous,
                "use_pbo={use_pbo} has_ts={has_ts}",
            );
        }
    }
}

#[test]
fn select_path_is_deterministic_across_identical_inputs() {
    for _ in 0..10 {
        assert_eq!(TextureUploadPath::select(true, true, true), TextureUploadPath::PboImmutable);
    }
}

#[test]
fn surface_install_policy_preserves_fast_paths_without_cross_generation_reuse() {
    let old_size = (1080, 1920);
    let new_size = (1920, 1080);

    assert_eq!(
        classify_surface_install(RecreateKind::SameGeneration, true, Some(old_size), Some(old_size), true, false),
        InstallPolicy::Skip,
    );
    assert_eq!(
        classify_surface_install(RecreateKind::SameGeneration, true, Some(old_size), Some(new_size), true, false),
        InstallPolicy::FastResize,
    );
    assert_eq!(
        classify_surface_install(RecreateKind::NewGeneration, true, Some(old_size), Some(old_size), true, false),
        InstallPolicy::FullRecreate,
    );
}

#[test]
fn surface_install_policy_fails_to_full_recreate_when_reuse_is_not_proven() {
    let size = (1080, 1920);
    for (kind, equivalent, has_2d, force) in [
        (RecreateKind::Initial, false, false, false),
        (RecreateKind::SameGeneration, false, true, false),
        (RecreateKind::SameGeneration, true, false, false),
        (RecreateKind::SameGeneration, true, true, true),
    ] {
        assert_eq!(
            classify_surface_install(kind, equivalent, Some(size), Some((size.0 + 1, size.1)), has_2d, force),
            InstallPolicy::FullRecreate,
        );
    }
}

#[test]
fn surface_install_without_known_sizes_recreates() {
    assert_eq!(
        classify_surface_install(RecreateKind::SameGeneration, true, None, Some((1, 1)), true, false),
        InstallPolicy::FullRecreate,
    );
    assert_eq!(
        classify_surface_install(RecreateKind::SameGeneration, true, Some((1, 1)), None, true, false),
        InstallPolicy::FullRecreate,
    );
}

#[test]
fn pbo_support_from_version_strings() {
    assert!(pbo_supported_by_version("OpenGL ES 3.2 V@415.0"));
    assert!(pbo_supported_by_version("4.6.0 NVIDIA 535"));
    assert!(pbo_supported_by_version("3.3 Mesa"));
    assert!(!pbo_supported_by_version("OpenGL ES 2.0"));
    assert!(!pbo_supported_by_version(""));
}

#[test]
fn pbo_config_default_values() {
    let c = PboConfig::default();
    assert!(c.enabled);
    assert_eq!(c.max_buffer_size, 4 * 1024 * 1024);
}

#[test]
fn dimension_validation_is_zero_and_overflow_safe() {
    let max: u64 = 16384 * 16384;
    assert_eq!(validate_dimensions(1, 1, max), Ok(4));
    assert_eq!(
        validate_dimensions(0, 1, max),
        Err(DimensionError::ZeroDimensions)
    );
    assert_eq!(
        validate_dimensions(1, 0, max),
        Err(DimensionError::ZeroDimensions)
    );
    let over = u32::try_from(max).unwrap() + 1;
    assert_eq!(
        validate_dimensions(over, 1, max),
        Err(DimensionError::TooManyPixels { pixels: max + 1 })
    );
    assert_eq!(validate_dimensions(100, 50, max), Ok(20000));
}
