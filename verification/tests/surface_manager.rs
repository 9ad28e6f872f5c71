use migo_graphics::surface_manager::{SurfaceInfo, SurfaceManager, SurfaceState, DPI_ONE_BITS};

#[test]
fn new_manager_has_no_surface() {
    let m = SurfaceManager::new();
    assert_eq!(m.state(), SurfaceState::NoSurface);
    assert!(!m.is_valid());
    assert!(!m.has_pending_surface());
    assert_eq!(*m.info(), SurfaceInfo::default());
    assert_eq!(m.info().dpi_bits, 1.0f32.to_bits());
    assert_eq!(DPI_ONE_BITS, 1.0f32.to_bits());
    assert_eq!(m.info().refresh_rate, 60);
}

#[test]
fn created_surface_is_valid_until_the_context_is_lost() {
    let mut m = SurfaceManager::default();
    m.on_surface_created(0x1000, 1080, 1920, 2.75f32.to_bits());
    assert!(m.is_valid());
    assert_eq!(m.physical_size(), (1080, 1920));
    m.on_frame();
    m.on_frame();
    assert_eq!(m.frame_count(), 2);
    m.on_surface_changed(1920, 1080);
    assert_eq!(m.physical_size(), (1920, 1080));
    m.on_context_lost();
    assert_eq!(m.state(), SurfaceState::Lost);
    assert!(!m.is_valid());
    m.on_surface_created(0x2000, 10, 10, 1.0f32.to_bits());
    assert!(m.is_valid());
    assert_eq!(m.frame_count(), 0);
}

#[test]
fn destroyed_surface_is_recreated_on_a_new_window() {
    let mut m = SurfaceManager::new();
    m.on_surface_created(0x1000, 800, 600, 2.0f32.to_bits());
    m.on_surface_destroyed();
    assert_eq!(m.state(), SurfaceState::NoSurface);
    assert_eq!(m.info().native_window, 0);
    assert!(m.has_pending_surface());
    let pending = m.prepare_recreation().unwrap();
    assert_eq!(pending.native_window, 0x1000);
    assert_eq!(m.state(), SurfaceState::Creating);
    // A second prepare does nothing while recreating.
    assert_eq!(m.prepare_recreation(), None);
    m.complete_recreation(0x3000);
    assert!(m.is_valid());
    assert_eq!(
        *m.info(),
        SurfaceInfo { native_window: 0x3000, width: 800, height: 600, dpi_bits: 2.0f32.to_bits(), refresh_rate: 60 }
    );
    assert!(!m.has_pending_surface());
}

#[test]
fn destroying_without_a_valid_surface_remembers_nothing() {
    let mut m = SurfaceManager::new();
    m.on_surface_destroyed();
    assert!(!m.has_pending_surface());
    assert_eq!(m.prepare_recreation(), None);
    m.complete_recreation(7);
    assert_eq!(m.state(), SurfaceState::NoSurface);
    m.on_surface_created(1, 2, 3, 0);
    m.on_surface_destroyed();
    assert_eq!(m.take_pending_surface().map(|p| p.width), Some(2));
    assert!(!m.has_pending_surface());
}
