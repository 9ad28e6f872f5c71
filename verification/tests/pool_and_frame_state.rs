use migo_graphics::frame_state::{DeferredCleanupCadence, FrameDiagnosticAccumulator};
use migo_graphics::pool::{ObjectPool, Resettable};
use std::time::Duration;

#[derive(Default)]
struct TestObject {
    value: i32,
}

impl Resettable for TestObject {
    fn reset(&mut self) {
        self.value = 0;
    }
}

#[test]
fn test_acquire_release() {
    let mut pool = ObjectPool::<TestObject>::new(10);

    let mut obj = pool.acquire();
    obj.value = 42;
    pool.release(obj);

    assert_eq!(pool.available(), 1);

    let obj2 = pool.acquire();
    assert_eq!(obj2.value, 0);
    assert_eq!(pool.available(), 0);
}

#[test]
fn test_pool_max_size() {
    let mut pool = ObjectPool::<TestObject>::new(2);

    pool.release(TestObject::default());
    pool.release(TestObject::default());
    pool.release(TestObject::default());

    assert_eq!(pool.available(), 2);
}

#[test]
fn test_hit_rate() {
    let mut pool = ObjectPool::<TestObject>::with_preallocated(10, 5);
    for _ in 0..5 {
        let obj = pool.acquire();
        pool.release(obj);
    }
    let s = pool.stats();
    assert_eq!(s.allocations, 5);
    assert_eq!(s.hits, 5);
    assert_eq!(s.misses, 0);
    assert_eq!(s.returns, 5);
}

#[test]
fn pool_stats_track_misses_and_shrink() {
    let mut pool = ObjectPool::<TestObject>::with_preallocated(3, 10);
    assert_eq!(pool.available(), 3);
    pool.shrink_to(1);
    assert_eq!(pool.available(), 1);
    assert_eq!(pool.stats().available, 1);
    let _a = pool.acquire();
    let _b = pool.acquire();
    assert_eq!(pool.stats().snapshot(), (0, 2, 1, 1, 0));
    pool.clear();
    assert_eq!(pool.available(), 0);
}

#[test]
fn cleanup_is_not_due_before_250_ms() {
    let mut cadence = DeferredCleanupCadence::new(Duration::from_millis(10));
    assert!(!cadence.should_run(Duration::from_millis(259)));
}

#[test]
fn cleanup_is_due_at_250_ms() {
    let mut cadence = DeferredCleanupCadence::new(Duration::from_millis(10));
    assert!(cadence.should_run(Duration::from_millis(260)));
    assert!(!cadence.should_run(Duration::from_millis(260)));
}

#[test]
fn cleanup_coalesces_missed_intervals_without_catch_up() {
    let mut cadence = DeferredCleanupCadence::new(Duration::ZERO);
    assert!(cadence.should_run(Duration::from_secs(5)));
    assert!(!cadence.should_run(Duration::from_secs(5)));
    assert!(!cadence.should_run(Duration::from_millis(5_249)));
    assert!(cadence.should_run(Duration::from_millis(5_250)));
}

#[test]
fn forced_cleanup_restarts_the_deadline() {
    let mut cadence = DeferredCleanupCadence::new(Duration::ZERO);
    cadence.mark_forced(Duration::from_millis(240));
    assert!(!cadence.should_run(Duration::from_millis(489)));
    assert!(cadence.should_run(Duration::from_millis(490)));
}

#[test]
fn regressed_timestamp_does_not_trigger_cleanup() {
    let mut cadence = DeferredCleanupCadence::new(Duration::from_secs(2));
    assert!(!cadence.should_run(Duration::from_secs(1)));
    assert!(!cadence.should_run(Duration::from_millis(2_249)));
    assert!(cadence.should_run(Duration::from_millis(2_250)));
}

#[test]
fn diagnostic_drain_returns_deltas_and_resets_them() {
    let mut diagnostics = FrameDiagnosticAccumulator::default();
    diagnostics.bump_draw_call();
    diagnostics.bump_draw_call();
    diagnostics.hit_shadow_filter_cache();
    diagnostics.add_upload_bytes(42);

    let first = diagnostics.drain();
    assert_eq!(first.draw_calls, 2);
    assert_eq!(first.shadow_filter_hits, 1);
    assert_eq!(first.texture_upload_bytes, 42);

    let second = diagnostics.drain();
    assert_eq!(second.draw_calls, 0);
    assert_eq!(second.shadow_filter_hits, 0);
    assert_eq!(second.texture_upload_bytes, 0);
}

#[test]
fn diagnostic_gauges_publish_latest_sample_only() {
    let mut diagnostics = FrameDiagnosticAccumulator::default();
    diagnostics.set_render_queue_len(7);
    diagnostics.set_render_queue_len(3);
    diagnostics.set_text_cache_gauges(8_192, 12);
    diagnostics.set_text_cache_gauges(4_096, 5);

    let batch = diagnostics.drain();
    assert_eq!(batch.render_queue_len, Some(3));
    assert_eq!(batch.text_cache_bytes, Some(4_096));
    assert_eq!(batch.text_cache_entries, Some(5));

    let empty = diagnostics.drain();
    assert_eq!(empty.render_queue_len, None);
    assert_eq!(empty.text_cache_bytes, None);
    assert_eq!(empty.text_cache_entries, None);
}

#[test]
fn diagnostic_local_arithmetic_saturates() {
    let mut diagnostics = FrameDiagnosticAccumulator::default();
    diagnostics.add_upload_bytes(u32::MAX - 1);
    diagnostics.add_upload_bytes(10);
    for _ in 0..3 {
        diagnostics.bump_canvas2d_snapshot_taken();
    }

    let batch = diagnostics.drain();
    assert_eq!(batch.texture_upload_bytes, u32::MAX);
    assert_eq!(batch.canvas2d_snapshots_taken, 3);
}

#[test]
fn acquire_and_release_keep_the_statistics_in_step() {
    let mut pool = ObjectPool::<TestObject>::with_preallocated(4, 2);
    assert_eq!(pool.stats().snapshot(), (2, 0, 0, 0, 0));
    let a = pool.acquire();
    assert_eq!(pool.stats().snapshot(), (1, 1, 1, 0, 0));
    let b = pool.acquire();
    let c = pool.acquire();
    assert_eq!(c.value, 0);
    assert_eq!(pool.stats().snapshot(), (0, 3, 2, 1, 0));
    pool.release(a);
    pool.release(b);
    assert_eq!(pool.stats().snapshot(), (2, 3, 2, 1, 2));
}
