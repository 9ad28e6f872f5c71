use migo_graphics::canvas_plan::{BoundTarget, CanvasError, CanvasSurfaceKind};
use migo_graphics::canvas_registry::CanvasRegistry;

type Registry = CanvasRegistry<u32, u64>;

#[test]
fn offscreen_ids_start_at_two_and_count_up() {
    let mut r: Registry = CanvasRegistry::new();
    assert_eq!(r.install_offscreen(10, 100, 64, 32), 2);
    assert_eq!(r.install_offscreen(11, 101, 8, 8), 3);
    r.install_onscreen(12, 102, 7, 1080, 1920);
    assert_eq!(r.canvas_count(), 3);
    assert_eq!(r.canvas_size(1), Ok((1080, 1920)));
    assert_eq!(r.canvas_size(2), Ok((64, 32)));
    assert_eq!(r.get(1).unwrap().kind, CanvasSurfaceKind::Window(7));
    assert_eq!(r.canvas_size(9), Err(CanvasError::NotFound(9)));
}

#[test]
fn binding_and_removal() {
    let mut r: Registry = CanvasRegistry::new();
    let id = r.install_offscreen(10, 100, 64, 32);
    assert_eq!(r.needs_make_current(id), Ok(true));
    assert_eq!(r.needs_make_current(5), Err(CanvasError::NotFound(5)));
    assert_eq!(r.mark_bound(BoundTarget::Canvas(id)), Ok(()));
    assert_eq!(r.needs_make_current(id), Ok(false));
    assert_eq!(r.mark_bound(BoundTarget::Canvas(5)), Err(CanvasError::NotFound(5)));
    assert_eq!(r.needs_make_current(id), Ok(false));
    let rec = r.remove(id).unwrap();
    assert_eq!((rec.context, rec.surface), (10, 100));
    assert_eq!(r.needs_make_current(id), Err(CanvasError::NotFound(id)));
    assert!(r.remove(id).is_none());
    // The counter keeps going after a removal.
    assert_eq!(r.install_offscreen(1, 1, 1, 1), 3);
}

#[test]
fn resizes_update_the_recorded_sizes() {
    let mut r: Registry = CanvasRegistry::new();
    r.install_onscreen(1, 1, 7, 100, 50);
    assert_eq!(r.record_drawing_buffer_resize(1, 200, 60), Ok(()));
    let c = r.get(1).unwrap();
    assert_eq!((c.width, c.height, c.physical_width, c.physical_height), (200, 60, 100, 50));
    let id = r.install_offscreen(2, 20, 10, 10);
    assert_eq!(r.record_pbuffer_resize(id, 21, 30, 40), Ok(()));
    let c = r.get(id).unwrap();
    assert_eq!((c.width, c.height, c.physical_width, c.physical_height, c.surface, c.context), (30, 40, 30, 40, 21, 2));
    assert_eq!(r.record_pbuffer_resize(9, 0, 1, 1), Err(CanvasError::NotFound(9)));
}
