use migo_graphics::egl_backend::{
    pbuffer_attribs, swap_interval, BackendFeature, EglBackend, EglBackendError, FrameTiming,
    ResizePlan, VSyncMode,
};
use migo_graphics::egl_config::BackendType;

type Backend = EglBackend<u32, u64>;

#[test]
fn egl_backend_reports_features_by_gles_version() {
    let gles3: Backend = EglBackend::new(true);
    let gles2: Backend = EglBackend::new(false);
    assert_eq!(gles3.backend_type(), BackendType::OpenGLES);
    assert_eq!(gles2.backend_type(), BackendType::OpenGLES);
    assert!(gles3.supports_feature(BackendFeature::MultipleRenderTargets));
    assert!(!gles2.supports_feature(BackendFeature::MultipleRenderTargets));
    for b in [&gles3, &gles2] {
        assert!(b.supports_feature(BackendFeature::AsyncBufferUpload));
        assert!(b.supports_feature(BackendFeature::MSAA));
        assert!(!b.supports_feature(BackendFeature::ComputeShaders));
        assert!(!b.supports_feature(BackendFeature::HDR));
        assert!(!b.supports_feature(BackendFeature::PartialPresent));
    }
}

#[test]
fn egl_backend_ids_start_at_one_and_are_never_reused() {
    let mut b: Backend = EglBackend::new(true);
    let a = b.install_offscreen_surface(10, 100, 64, 32);
    let c = b.install_offscreen_surface(11, 101, 8, 8);
    assert_eq!((a, c), (1, 2));
    assert!(b.remove_surface(c).is_some());
    let d = b.install_onscreen_surface(12, 102, Some(800), Some(600));
    assert_eq!(d, 3);
    let mut ids = b.surface_ids();
    ids.sort();
    assert_eq!(ids, vec![1, 3]);
}

#[test]
fn egl_backend_onscreen_size_is_at_least_one_pixel() {
    let mut b: Backend = EglBackend::new(false);
    let failed = b.install_onscreen_surface(1, 1, None, Some(0));
    assert_eq!(b.get_surface_size(failed), Ok((1, 1)));
    let ok = b.install_onscreen_surface(2, 2, Some(1080), Some(1920));
    assert_eq!(b.get_surface_size(ok), Ok((1080, 1920)));
    let negative = b.install_onscreen_surface(3, 3, Some(-1), Some(5));
    assert_eq!(b.get_surface_size(negative), Ok((u32::MAX, 5)));
    assert!(b.surface(ok).unwrap().is_onscreen);
}

#[test]
fn egl_backend_unknown_surface_is_an_error() {
    let mut b: Backend = EglBackend::new(true);
    assert_eq!(b.get_surface_size(7), Err(EglBackendError::SurfaceNotFound(7)));
    assert!(matches!(b.begin_make_current(7), Err(EglBackendError::SurfaceNotFound(7))));
    assert_eq!(b.mark_current(7), Err(EglBackendError::SurfaceNotFound(7)));
    assert_eq!(b.begin_resize(7), Err(EglBackendError::SurfaceNotFound(7)));
    assert_eq!(b.finish_resize(7, None, 1, 1), Err(EglBackendError::SurfaceNotFound(7)));
    assert!(b.remove_surface(7).is_none());
    assert!(b.surface(7).is_none());
}

#[test]
fn egl_backend_make_current_skips_the_current_surface() {
    let mut b: Backend = EglBackend::new(true);
    let id = b.install_offscreen_surface(5, 50, 16, 16);
    let entry = b.begin_make_current(id).unwrap().unwrap();
    assert_eq!((entry.context, entry.surface), (5, 50));
    assert_eq!(b.mark_current(id), Ok(()));
    assert!(b.begin_make_current(id).unwrap().is_none());
    b.clear_current();
    assert!(b.begin_make_current(id).unwrap().is_some());
}

#[test]
fn egl_backend_removing_the_current_surface_unbinds_it() {
    let mut b: Backend = EglBackend::new(true);
    let first = b.install_offscreen_surface(1, 10, 4, 4);
    let second = b.install_offscreen_surface(2, 20, 4, 4);
    b.mark_current(first).unwrap();
    let (entry, was_current) = b.remove_surface(second).unwrap();
    assert_eq!((entry.context, entry.surface, was_current), (2, 20, false));
    assert!(b.begin_make_current(first).unwrap().is_none());
    let (entry, was_current) = b.remove_surface(first).unwrap();
    assert_eq!((entry.context, entry.surface, was_current), (1, 10, true));
    assert!(b.surface_ids().is_empty());
}

#[test]
fn egl_backend_resize_onscreen_records_only() {
    let mut b: Backend = EglBackend::new(true);
    let id = b.install_onscreen_surface(3, 30, Some(100), Some(200));
    b.mark_current(id).unwrap();
    assert_eq!(b.begin_resize(id), Ok(ResizePlan::RecordOnly));
    assert!(b.begin_make_current(id).unwrap().is_none());
    assert_eq!(b.finish_resize(id, None, 300, 400), Ok(()));
    let e = b.surface(id).unwrap();
    assert_eq!((e.context, e.surface, e.width, e.height), (3, 30, 300, 400));
}

#[test]
fn egl_backend_resize_offscreen_recreates_pbuffer() {
    let mut b: Backend = EglBackend::new(true);
    let id = b.install_offscreen_surface(4, 40, 10, 10);
    let other = b.install_offscreen_surface(5, 50, 10, 10);
    b.mark_current(id).unwrap();
    assert_eq!(b.begin_resize(other), Ok(ResizePlan::RecreatePbuffer { unbind: false }));
    assert!(b.begin_make_current(id).unwrap().is_none());
    assert_eq!(b.begin_resize(id), Ok(ResizePlan::RecreatePbuffer { unbind: true }));
    assert!(b.begin_make_current(id).unwrap().is_some());
    assert_eq!(b.finish_resize(id, Some(41), 20, 30), Ok(()));
    let e = b.surface(id).unwrap();
    assert_eq!((e.context, e.surface, e.width, e.height, e.is_onscreen), (4, 41, 20, 30, false));
}

#[test]
fn egl_backend_pbuffer_attribs_and_swap_interval() {
    assert_eq!(pbuffer_attribs(640, 480), vec![0x3057, 640, 0x3056, 480, 0x3038]);
    assert_eq!(swap_interval(true), 1);
    assert_eq!(swap_interval(false), 0);
}

#[test]
fn egl_backend_defaults() {
    assert_eq!(VSyncMode::default(), VSyncMode::On);
    let t = FrameTiming::default();
    assert_eq!((t.cpu_time_us, t.gpu_time_us, t.vsync_wait_us, t.total_time_us), (0, 0, 0, 0));
}
