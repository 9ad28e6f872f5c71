use migo_graphics::canvas_plan::{
    rejected_upload_is_sync, route_image_load, AsyncUploadRejectAction, DecodedImageKind, ImageLoadRoute,
};
use migo_graphics::egl_config::{config_attribs, config_candidates, robust_context_supported};
use migo_graphics::canvas_plan::{
    can_bypass_drawing_buffer, choose_current_target, declared_buffer_damage, drawing_buffer_in_use,
    onscreen_physical_size, plan_canvas_resize, plan_onscreen, readback_signal_plan, restore_target,
    swap_interval_change, BoundTarget, CanvasResizePlan, CanvasSurfaceKind, InstalledCanvas,
    OnscreenPlan, ReadbackPlan, recovery_plan, plan_destroy_canvas, default_framebuffer,
    upload_completion, CanvasError, CanvasSession, RecoveryPlan, UploadCompletion,
};
use migo_graphics::damage::{DamageHistory, ResolvedDamage};

fn window(w: usize, width: u32, height: u32) -> InstalledCanvas {
    InstalledCanvas { kind: CanvasSurfaceKind::Window(w), physical_width: width, physical_height: height }
}

#[test]
fn onscreen_skips_same_window_at_expected_size() {
    assert_eq!(plan_onscreen(Some(window(7, 1080, 1920)), 7, Some((1080, 1920))), OnscreenPlan::Skip);
}

#[test]
fn onscreen_recreates_on_new_window_size_or_recovery() {
    let installed = Some(window(7, 1080, 1920));
    assert_eq!(plan_onscreen(installed, 8, Some((1080, 1920))), OnscreenPlan::Create { destroy_existing: true });
    assert_eq!(plan_onscreen(installed, 7, Some((1920, 1080))), OnscreenPlan::Create { destroy_existing: true });
    assert_eq!(plan_onscreen(installed, 7, None), OnscreenPlan::Create { destroy_existing: true });
    let pbuffer = Some(InstalledCanvas { kind: CanvasSurfaceKind::Pbuffer, physical_width: 5, physical_height: 5 });
    assert_eq!(plan_onscreen(pbuffer, 7, Some((5, 5))), OnscreenPlan::Create { destroy_existing: true });
    assert_eq!(plan_onscreen(None, 7, Some((5, 5))), OnscreenPlan::Create { destroy_existing: false });
}

#[test]
fn onscreen_size_prefers_expected_over_driver() {
    assert_eq!(onscreen_physical_size(Some((2340, 1080)), (Some(1080), Some(2340))), (2340, 1080));
    assert_eq!(onscreen_physical_size(Some((0, 0)), (Some(1080), Some(2340))), (1, 1));
    assert_eq!(onscreen_physical_size(None, (Some(1080), Some(2340))), (1080, 2340));
    assert_eq!(onscreen_physical_size(None, (None, Some(-3))), (1, 1));
}

#[test]
fn canvas_resize_plans() {
    let win = CanvasSurfaceKind::Window(3);
    assert_eq!(plan_canvas_resize((100, 50), (None, None), win, true), CanvasResizePlan::Unchanged);
    assert_eq!(plan_canvas_resize((100, 50), (Some(100), Some(50)), CanvasSurfaceKind::Pbuffer, true), CanvasResizePlan::Unchanged);
    assert_eq!(
        plan_canvas_resize((100, 50), (Some(200), None), win, true),
        CanvasResizePlan::ResizeDrawingBuffer { width: 200, height: 50 }
    );
    assert_eq!(
        plan_canvas_resize((100, 50), (None, Some(60)), CanvasSurfaceKind::Pbuffer, true),
        CanvasResizePlan::RecreatePbuffer { width: 100, height: 60, rebind: true }
    );
    assert_eq!(
        plan_canvas_resize((100, 50), (Some(1), Some(1)), CanvasSurfaceKind::Pbuffer, false),
        CanvasResizePlan::RecreatePbuffer { width: 1, height: 1, rebind: false }
    );
}

#[test]
fn bypass_and_readback_decisions() {
    assert!(can_bypass_drawing_buffer(1, false, true));
    assert!(!can_bypass_drawing_buffer(2, false, true));
    assert!(!can_bypass_drawing_buffer(1, true, true));
    assert!(!can_bypass_drawing_buffer(1, false, false));
    assert_eq!(readback_signal_plan(true, true, true), ReadbackPlan::Nothing);
    assert_eq!(readback_signal_plan(false, true, true), ReadbackPlan::DisableBypass { reverse_blit: true });
    assert_eq!(readback_signal_plan(false, false, true), ReadbackPlan::DisableBypass { reverse_blit: false });
    assert!(drawing_buffer_in_use(false, true));
    assert!(!drawing_buffer_in_use(true, true));
    assert!(!drawing_buffer_in_use(false, false));
}

#[test]
fn swap_interval_only_changes_when_needed() {
    assert_eq!(swap_interval_change(true, -1), Some(1));
    assert_eq!(swap_interval_change(true, 1), None);
    assert_eq!(swap_interval_change(false, 1), Some(0));
    assert_eq!(swap_interval_change(false, 0), None);
}

#[test]
fn current_and_restore_targets() {
    assert_eq!(choose_current_target(BoundTarget::Canvas(4), true, Some(9)), BoundTarget::Canvas(4));
    assert_eq!(choose_current_target(BoundTarget::Resource, true, Some(9)), BoundTarget::Canvas(1));
    assert_eq!(choose_current_target(BoundTarget::Resource, false, Some(9)), BoundTarget::Canvas(9));
    assert_eq!(choose_current_target(BoundTarget::Resource, false, None), BoundTarget::Resource);
    assert_eq!(restore_target(BoundTarget::Canvas(4), true), BoundTarget::Canvas(4));
    assert_eq!(restore_target(BoundTarget::Canvas(4), false), BoundTarget::Resource);
    assert_eq!(restore_target(BoundTarget::Resource, true), BoundTarget::Resource);
}

#[test]
fn declared_damage_uses_buffer_age() {
    let current = ResolvedDamage::Partial { x: 0, y: 0, width: 10, height: 10 };
    let mut history = DamageHistory::new();
    history.push(ResolvedDamage::Partial { x: 20, y: 20, width: 10, height: 10 });
    assert_eq!(declared_buffer_damage(current, false, None, &history), current);
    assert_eq!(declared_buffer_damage(current, true, None, &history), ResolvedDamage::FullSurface);
    assert_eq!(declared_buffer_damage(current, true, Some(0), &history), ResolvedDamage::FullSurface);
    assert_eq!(declared_buffer_damage(current, true, Some(1), &history), current);
    assert_eq!(
        declared_buffer_damage(current, true, Some(2), &history),
        ResolvedDamage::Partial { x: 0, y: 0, width: 30, height: 30 }
    );
    assert_eq!(declared_buffer_damage(current, true, Some(3), &history), ResolvedDamage::FullSurface);
}

#[test]
fn recovery_destroy_and_upload_decisions() {
    assert_eq!(recovery_plan(false, Some(5)), RecoveryPlan::NotLost);
    assert_eq!(recovery_plan(true, Some(5)), RecoveryPlan::Recreate { window: 5 });
    assert_eq!(recovery_plan(true, None), RecoveryPlan::NoWindow);
    assert_eq!(plan_destroy_canvas(1, BoundTarget::Resource), Err(CanvasError::CannotDestroyOnscreen));
    assert_eq!(plan_destroy_canvas(2, BoundTarget::Canvas(2)), Ok(true));
    assert_eq!(plan_destroy_canvas(2, BoundTarget::Canvas(3)), Ok(false));
    assert_eq!(default_framebuffer(true, Some(9)), None);
    assert_eq!(default_framebuffer(false, Some(9)), Some(9));
    assert_eq!(upload_completion(0x911A, false), UploadCompletion::Register);
    assert_eq!(upload_completion(0x911C, true), UploadCompletion::Discard);
    assert_eq!(upload_completion(0x911B, false), UploadCompletion::Defer);
}

#[test]
fn canvas_session_tracks_state_across_calls() {
    let mut s: CanvasSession<u32> = CanvasSession::new();
    assert_eq!(s.swap_interval_for(true), Some(1));
    assert_eq!(s.swap_interval_for(true), None);
    assert_eq!(s.recovery(), RecoveryPlan::NotLost);
    assert_eq!(s.begin_onscreen(None, 7, Some((100, 50))), OnscreenPlan::Create { destroy_existing: false });
    // A new surface always gets its swap interval set again.
    assert_eq!(s.swap_interval_for(true), Some(1));
    s.record_presented(ResolvedDamage::FullSurface);
    s.mark_context_lost();
    assert!(s.is_context_lost());
    assert_eq!(s.recovery(), RecoveryPlan::Recreate { window: 7 });
    assert_eq!(s.begin_onscreen(Some(window(7, 100, 50)), 7, None), OnscreenPlan::Create { destroy_existing: true });
    assert!(!s.is_context_lost());
    assert_eq!(s.onscreen_destroyed(11), None);
    assert_eq!(s.onscreen_destroyed(12), Some(11));
    assert_eq!(s.take_preserved_context(), Some(12));
    assert_eq!(s.take_preserved_context(), None);
    // Skip changes nothing.
    assert_eq!(s.swap_interval_for(false), Some(0));
    assert_eq!(s.begin_onscreen(Some(window(7, 100, 50)), 7, Some((100, 50))), OnscreenPlan::Skip);
    assert_eq!(s.swap_interval_for(false), None);
}

#[test]
fn canvas_session_readback_latch_is_one_way() {
    let mut s: CanvasSession<u32> = CanvasSession::new();
    assert!(s.can_bypass(1, true));
    assert_eq!(s.signal_readback(true, true), ReadbackPlan::DisableBypass { reverse_blit: true });
    assert!(!s.can_bypass(1, true));
    assert_eq!(s.signal_readback(true, true), ReadbackPlan::Nothing);
    s.begin_onscreen(None, 3, None);
    assert!(!s.can_bypass(1, true));
}

#[test]
fn canvas_session_declares_history_damage() {
    let mut s: CanvasSession<u32> = CanvasSession::new();
    let cur = ResolvedDamage::Partial { x: 0, y: 0, width: 10, height: 10 };
    s.record_presented(ResolvedDamage::Partial { x: 20, y: 20, width: 10, height: 10 });
    assert_eq!(s.declared_damage(cur, true, Some(2)), ResolvedDamage::Partial { x: 0, y: 0, width: 30, height: 30 });
    s.begin_onscreen(None, 3, None);
    assert_eq!(s.declared_damage(cur, true, Some(2)), ResolvedDamage::FullSurface);
}

#[test]
fn egl_config_candidates_in_preference_order() {
    let c = config_candidates();
    let summary: Vec<(i32, i32, i32, u32)> = c.iter().map(|c| (c.depth, c.stencil, c.renderable, c.gles_major)).collect();
    assert_eq!(
        summary,
        vec![(16, 8, 0x40, 3), (24, 8, 0x40, 3), (16, 0, 0x40, 3), (16, 8, 4, 2), (24, 8, 4, 2), (16, 0, 4, 2)]
    );
    assert_eq!(
        config_attribs(c[0]),
        vec![0x3024, 8, 0x3023, 8, 0x3022, 8, 0x3021, 8, 0x3025, 16, 0x3026, 8, 0x3033, 5, 0x3040, 0x40, 0x3038]
    );
    assert!(robust_context_supported("EGL_KHR_a EGL_EXT_create_context_robustness"));
    assert!(!robust_context_supported("EGL_KHR_create_context"));
}

#[test]
fn image_loads_are_routed_by_kind_and_priority() {
    assert_eq!(route_image_load(DecodedImageKind::Compressed, false), ImageLoadRoute::CompressedUpload);
    assert_eq!(route_image_load(DecodedImageKind::HardwareBuffer, false), ImageLoadRoute::HardwareBufferImport);
    assert_eq!(route_image_load(DecodedImageKind::Rgba, true), ImageLoadRoute::SyncUpload);
    assert_eq!(route_image_load(DecodedImageKind::Rgba, false), ImageLoadRoute::AsyncUpload);
    assert!(rejected_upload_is_sync(AsyncUploadRejectAction::SyncFallback, false));
    assert!(!rejected_upload_is_sync(AsyncUploadRejectAction::DeferRetry, true));
    assert!(rejected_upload_is_sync(AsyncUploadRejectAction::DeferRetry, false));
}
