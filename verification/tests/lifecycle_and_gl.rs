use migo_graphics::app_state::{deep_sleep_due, AppStateManager};
use migo_graphics::arena::Arena;
use migo_graphics::atlas_pack::PackNode;
use migo_graphics::batching::{
    compute_capable_version, BatchStats, GLState, ScissorCalls, StateChangeStats, GL_ONE,
    GL_ONE_MINUS_SRC_ALPHA, GL_SRC_ALPHA, GL_ZERO,
};
use migo_graphics::egl_config::{
    build_ctx_attribs, gles3_supported_by_extensions, BackendType, EGL_CONTEXT_CLIENT_VERSION,
    EGL_CONTEXT_OPENGL_RESET_NOTIFICATION_STRATEGY_EXT, EGL_LOSE_CONTEXT_ON_RESET_EXT, EGL_NONE,
};
use migo_graphics::geometry::{DirtyRegion, DirtyStats, IntRect};
use migo_graphics::gl_util::{gl_rgba8, gl_rgba8_size, gles_texture_2d, mix_u32};
use migo_graphics::lifecycle::{
    AppLifecycleState, LifecycleConfig, LifecycleEvent, LifecycleListener,
};
use std::sync::{Arc, Mutex};

const ALL_STATES: [AppLifecycleState; 6] = [
    AppLifecycleState::Uninitialized,
    AppLifecycleState::Starting,
    AppLifecycleState::Active,
    AppLifecycleState::Background,
    AppLifecycleState::Suspended,
    AppLifecycleState::Stopping,
];

#[test]
fn lifecycle_state_bytes_round_trip() {
    for (i, s) in ALL_STATES.iter().enumerate() {
        assert_eq!(s.as_u8(), i as u8);
        assert_eq!(AppLifecycleState::from_u8(s.as_u8()), *s);
        assert_eq!(AppLifecycleState::from(i as u8), *s);
    }
    assert_eq!(AppLifecycleState::from_u8(200), AppLifecycleState::Uninitialized);
}

#[test]
fn only_foreground_and_background_render() {
    for s in ALL_STATES {
        let renders = s == AppLifecycleState::Active || s == AppLifecycleState::Background;
        assert_eq!(s.should_render(), renders);
        assert_eq!(s.is_active(), s == AppLifecycleState::Active);
        assert!(!(s.should_render() && s.is_suspended()));
    }
    assert!(AppLifecycleState::Stopping.is_suspended());
}

#[test]
fn target_fps_follows_state() {
    let config = LifecycleConfig::default();
    assert_eq!(config.fps_for_state(AppLifecycleState::Active), 60);
    assert_eq!(config.fps_for_state(AppLifecycleState::Background), 5);
    for s in ALL_STATES {
        if !s.should_render() {
            assert_eq!(config.fps_for_state(s), 0);
        }
    }
    assert_eq!(config.background_timeout_ms, 5000);
}

#[test]
fn resume_and_surface_transitions() {
    assert_eq!(AppLifecycleState::after_resume(true), AppLifecycleState::Active);
    assert_eq!(AppLifecycleState::after_resume(false), AppLifecycleState::Starting);
    assert_eq!(
        AppLifecycleState::Suspended.after_surface_created(),
        AppLifecycleState::Active
    );
    assert_eq!(
        AppLifecycleState::Starting.after_surface_created(),
        AppLifecycleState::Active
    );
    assert_eq!(
        AppLifecycleState::Background.after_surface_created(),
        AppLifecycleState::Background
    );
}

struct Recorder(Mutex<Vec<String>>);

impl LifecycleListener for Recorder {
    fn on_lifecycle_event(&self, event: LifecycleEvent) {
        self.0.lock().unwrap().push(format!("{:?}", event));
    }
}

#[test]
fn app_state_manager_walks_through_a_session() {
    let recorder = Arc::new(Recorder(Mutex::new(Vec::new())));
    let mut m = AppStateManager::new(LifecycleConfig::default());
    m.add_listener(recorder.clone());
    assert_eq!(m.current_state(), AppLifecycleState::Uninitialized);
    assert!(!m.has_valid_surface());

    m.on_resume();
    assert_eq!(m.current_state(), AppLifecycleState::Starting);
    m.on_surface_created(1080, 1920);
    assert_eq!(m.current_state(), AppLifecycleState::Active);
    assert_eq!(m.surface_size(), (1080, 1920));
    assert_eq!(m.target_fps(), 60);

    m.on_surface_changed(1080, 1920);
    m.on_surface_changed(720, 1280);
    assert_eq!(m.surface_size(), (720, 1280));

    m.on_pause();
    assert_eq!(m.current_state(), AppLifecycleState::Background);
    assert_eq!(m.target_fps(), 5);
    assert!(!m.should_deep_sleep());

    m.on_surface_destroyed();
    assert_eq!(m.current_state(), AppLifecycleState::Suspended);
    assert!(!m.has_valid_surface());
    m.on_low_memory();
    m.on_destroy();
    assert_eq!(m.current_state(), AppLifecycleState::Stopping);

    let events = recorder.0.lock().unwrap().clone();
    assert_eq!(
        events,
        vec![
            "SurfaceCreated { width: 1080, height: 1920 }",
            "Activated",
            "SurfaceResized { width: 720, height: 1280 }",
            "Deactivated",
            "SurfaceDestroyed",
            "LowMemory",
        ]
    );
}

#[test]
fn shared_state_sees_published_states() {
    let mut app = AppStateManager::new(LifecycleConfig::default());
    let other = app.shared_state();
    app.on_resume();
    app.on_surface_created(10, 10);
    assert!(other.is_active());
    assert!(other.should_render());
    assert_eq!(other.get(), AppLifecycleState::Active);
    assert_eq!(app.current_state(), AppLifecycleState::Active);
}

#[test]
fn gl_state_skips_repeated_bindings() {
    let mut s = GLState::new();
    assert!(s.bind_texture(Some(3)));
    assert!(!s.bind_texture(Some(3)));
    assert_eq!(s.current_texture(), Some(3));
    assert!(s.use_program(Some(1)));
    assert!(!s.use_program(Some(1)));
    assert!(s.bind_array_buffer(Some(2)));
    assert!(s.bind_element_buffer(Some(2)));
    assert!(!s.bind_element_buffer(Some(2)));
    assert!(s.bind_vertex_array(Some(9)));
    assert!(!s.bind_vertex_array(Some(9)));
    assert!(!s.set_viewport(0, 0, 0, 0));
    assert!(s.set_viewport(0, 0, 640, 480));
    assert_eq!(s.current_viewport(), (0, 0, 640, 480));
    s.invalidate();
    assert!(s.bind_texture(Some(3)));
}

#[test]
fn gl_state_scissor_and_blend_calls() {
    let mut s = GLState::new();
    assert_eq!(
        s.set_scissor(Some((0, 0, 10, 10))),
        ScissorCalls { enable: true, set_rect: true, disable: false }
    );
    assert_eq!(
        s.set_scissor(Some((0, 0, 10, 10))),
        ScissorCalls { enable: false, set_rect: false, disable: false }
    );
    assert_eq!(
        s.set_scissor(None),
        ScissorCalls { enable: false, set_rect: false, disable: true }
    );
    assert_eq!(
        s.set_scissor(None),
        ScissorCalls { enable: false, set_rect: false, disable: false }
    );
    assert!(!s.set_blend_func(GL_ONE, GL_ZERO));
    assert_eq!(s.set_alpha_blend(), (true, true));
    assert_eq!(s.set_alpha_blend(), (false, false));
    assert!(!s.set_blend_func(GL_SRC_ALPHA, GL_ONE_MINUS_SRC_ALPHA));
    assert!(s.set_depth_test_enabled(true));
    assert!(!s.set_depth_test_enabled(true));
    assert!(s.set_blend_enabled(false));
}

#[test]
fn batching_stats_reset_to_zero() {
    let mut b = BatchStats { total_ops: 5, batch_count: 2, draw_calls: 2, state_changes: 1, texture_switches: 1 };
    b.reset();
    assert_eq!(b.total_ops + b.batch_count + b.draw_calls + b.state_changes + b.texture_switches, 0);
    let mut c = StateChangeStats::default();
    c.texture_binds = 4;
    c.reset();
    assert_eq!(c.texture_binds, 0);
}

#[test]
fn compute_versions_are_recognised() {
    assert!(compute_capable_version("OpenGL ES 3.2 V@0502.0"));
    assert!(compute_capable_version("OpenGL ES 3.1"));
    assert!(!compute_capable_version("OpenGL ES 3.0"));
    assert!(compute_capable_version("4.6.0 NVIDIA"));
}

#[test]
fn context_attribute_lists() {
    assert_eq!(
        build_ctx_attribs(3, false),
        vec![EGL_CONTEXT_CLIENT_VERSION, 3, EGL_NONE]
    );
    let robust = build_ctx_attribs(2, true);
    assert_eq!(
        robust,
        vec![
            EGL_CONTEXT_CLIENT_VERSION,
            2,
            EGL_CONTEXT_OPENGL_RESET_NOTIFICATION_STRATEGY_EXT,
            EGL_LOSE_CONTEXT_ON_RESET_EXT,
            EGL_NONE
        ]
    );
    assert_eq!(*robust.last().unwrap(), 0x3038);
    assert!(gles3_supported_by_extensions("EGL_KHR_image EGL_KHR_create_context"));
    assert!(!gles3_supported_by_extensions("EGL_KHR_image"));
}

#[test]
fn backend_defaults_per_os() {
    assert_eq!(BackendType::default_for_os("android"), BackendType::OpenGLES);
    assert_eq!(BackendType::default_for_os("ios"), BackendType::Metal);
    assert_eq!(BackendType::default_for_os("macos"), BackendType::Metal);
    assert_eq!(BackendType::default_for_os("windows"), BackendType::Direct3D11);
    assert_eq!(BackendType::default_for_os("linux"), BackendType::OpenGL);
}

#[test]
fn gl_enum_values() {
    assert_eq!(gles_texture_2d(), glow::TEXTURE_2D);
    assert_eq!(gl_rgba8_size(), glow::RGBA8);
    assert_eq!(gl_rgba8(), glow::RGBA8);
}

#[test]
fn mix_matches_wrapping_arithmetic() {
    for (a, b) in [(0u32, 0u32), (1, 1), (0xFFFF_FFFF, 7), (123_456, 0x8000_0001)] {
        let expected = a.wrapping_mul(0x9E37_79B9).wrapping_add(b.rotate_left(13));
        assert_eq!(mix_u32(a, b), expected);
    }
    assert_eq!(mix_u32(1, 0), 0x9E37_79B9);
    assert_eq!(mix_u32(0, 1), 1 << 13);
}

#[test]
fn dirty_region_scissor_threshold() {
    let r = DirtyRegion { x: 1, y: 2, width: 10, height: 10 };
    assert_eq!(r.as_rect(), (1, 2, 10, 10));
    assert!(r.should_scissor(100, 100));
    assert!(!DirtyRegion { x: 0, y: 0, width: 100, height: 50 }.should_scissor(100, 100));
    assert!(DirtyRegion { x: 0, y: 0, width: 100, height: 49 }.should_scissor(100, 100));
    assert!(!r.should_scissor(0, 100));
    let mut stats = DirtyStats { partial_updates: 1, full_redraws: 2, total_dirty_pixels: 3, total_screen_pixels: 4 };
    stats.reset();
    assert_eq!(stats, DirtyStats::default());
    let rect = IntRect::new(0, 0, 4, 5);
    assert_eq!(rect.area(), 20);
    assert!(!rect.is_empty());
    assert!(IntRect::new(3, 3, 0, 9).is_empty());
}

#[test]
fn pack_node_places_images_without_overlap() {
    let mut root = PackNode::new(0, 0, 64, 64);
    let a = root.insert(1, 30, 30, 1).unwrap();
    assert_eq!(a, (1, 1));
    let b = root.insert(2, 30, 30, 1).unwrap();
    let c = root.insert(3, 30, 30, 1).unwrap();
    let placed = [(a, 1u32), (b, 2), (c, 3)];
    for (i, (p, _)) in placed.iter().enumerate() {
        assert!(p.0 + 30 + 1 <= 64 && p.1 + 30 + 1 <= 64);
        for (q, _) in placed.iter().skip(i + 1) {
            let disjoint = p.0 + 31 <= q.0 - 1 || q.0 + 31 <= p.0 - 1 || p.1 + 31 <= q.1 - 1 || q.1 + 31 <= p.1 - 1;
            assert!(disjoint, "{p:?} overlaps {q:?}");
        }
    }
    assert!(root.insert(4, 64, 64, 0).is_none());
    assert!(root.insert(5, 30, 30, 1).is_some());
    assert!(root.insert(6, 30, 30, 1).is_none());
}

#[test]
fn arena_bumps_and_resets() {
    let mut arena = Arena::new(16);
    assert_eq!(arena.capacity(), 16);
    assert_eq!(arena.alloc_bytes(10).unwrap().len(), 10);
    assert_eq!(arena.used(), 10);
    assert!(arena.alloc_bytes(7).is_none());
    assert_eq!(arena.used(), 10);
    let rest = arena.alloc_bytes(6).unwrap();
    rest[0] = 42;
    assert_eq!(arena.used(), 16);
    arena.reset();
    assert_eq!(arena.used(), 0);
    assert!(arena.alloc_bytes(16).is_some());
}

#[test]
fn deep_sleep_only_after_the_background_timeout() {
    assert!(!deep_sleep_due(None, 5000));
    assert!(!deep_sleep_due(Some(5000), 5000));
    assert!(deep_sleep_due(Some(5001), 5000));
    assert!(!deep_sleep_due(Some(0), 0));
    let m = AppStateManager::new(LifecycleConfig::default());
    assert!(!m.should_deep_sleep());
}

#[test]
fn target_fps_follows_the_published_state() {
    let mut m = AppStateManager::new(LifecycleConfig::default());
    m.on_surface_created(800, 600);
    m.on_resume();
    assert_eq!(m.target_fps(), LifecycleConfig::default().active_fps);
    m.on_pause();
    assert_eq!(m.target_fps(), LifecycleConfig::default().background_fps);
}

#[test]
fn shared_handles_see_the_same_state() {
    let m = AppStateManager::new(LifecycleConfig::default());
    let h = m.shared_state();
    h.set(AppLifecycleState::Background);
    assert_eq!(m.current_state(), AppLifecycleState::Background);
    let b = h.clone();
    b.set(AppLifecycleState::Active);
    assert_eq!(m.current_state(), AppLifecycleState::Active);
}

#[test]
fn arena_aligned_allocations_round_up_the_offset() {
    let mut a = Arena::new(64);
    assert!(a.alloc_bytes(3).is_some());
    assert_eq!(a.alloc_aligned(8, 8), Some(8));
    assert_eq!(a.used(), 16);
    assert_eq!(a.alloc_aligned(4, 1), Some(16));
    assert_eq!(a.alloc_aligned(100, 4), None);
    assert_eq!(a.used(), 20);
    assert_eq!(a.alloc_aligned(44, 4), Some(20));
    assert_eq!(a.used(), 64);
    assert_eq!(a.alloc_aligned(0, 16), Some(64));
}

#[test]
fn pack_node_fills_right_before_bottom_at_node_corners() {
    let mut root = PackNode::new(0, 0, 64, 64);
    assert_eq!(root.insert(1, 30, 30, 1), Some((1, 1)));
    assert_eq!(root.insert(2, 30, 30, 1), Some((33, 1)));
    assert_eq!(root.insert(3, 30, 30, 1), Some((1, 33)));
    assert_eq!(root.insert(4, 30, 30, 1), Some((33, 33)));
    assert_eq!(root.insert(5, 1, 1, 0), None);
}

struct Tagged(&'static str, Arc<Mutex<Vec<String>>>);

impl LifecycleListener for Tagged {
    fn on_lifecycle_event(&self, event: LifecycleEvent) {
        self.1.lock().unwrap().push(format!("{}:{:?}", self.0, event));
    }
}

#[test]
fn every_event_reaches_each_listener_in_registration_order() {
    let log = Arc::new(Mutex::new(Vec::new()));
    let mut m = AppStateManager::new(LifecycleConfig::default());
    m.add_listener(Arc::new(Tagged("a", log.clone())));
    m.add_listener(Arc::new(Tagged("b", log.clone())));
    m.on_surface_created(4, 4);
    m.on_resume();
    m.on_destroy();
    assert_eq!(
        log.lock().unwrap().clone(),
        vec![
            "a:SurfaceCreated { width: 4, height: 4 }",
            "b:SurfaceCreated { width: 4, height: 4 }",
            "a:Activated",
            "b:Activated",
        ]
    );
}
