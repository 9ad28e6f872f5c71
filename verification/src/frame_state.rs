//! Per-frame renderer bookkeeping: the cadence of deferred cleanup and the
//! accumulator of diagnostic counters.

use std::time::Duration;
use vstd::prelude::*;

verus! {

/// `Duration::as_nanos`: the whole number of nanoseconds in a duration.
pub uninterp spec fn duration_nanos(d: Duration) -> u128;

/// `Duration::as_nanos`.
#[verifier::external_body]
fn nanos_of(d: &Duration) -> (n: u128)
    ensures
        n == duration_nanos(*d),
{
    d.as_nanos()
}

/// Minimum time between two deferred cleanup sweeps (250 ms), in
/// nanoseconds.
pub const DEFERRED_CLEANUP_INTERVAL_NANOS: u128 = 250_000_000;

/// Minimum age of an unused resource before cleanup reclaims it (200 ms),
/// in nanoseconds.
pub const DEFERRED_CLEANUP_UNUSED_AGE_NANOS: u128 = 200_000_000;

/// Coalesces deferred cleanup onto frames the renderer was already asked to
/// process.  It never schedules a timer and jumps straight to `now`, so a
/// stalled or paused renderer does not run catch-up sweeps.
pub struct DeferredCleanupCadence {
    last_run: Duration,
}

/// Whether a sweep is due at `now_ns` after the last run at `last_ns`: at
/// least the interval has passed (time running backwards counts as none).
pub open spec fn cleanup_due(last_ns: u128, now_ns: u128) -> bool {
    now_ns >= last_ns && now_ns - last_ns >= DEFERRED_CLEANUP_INTERVAL_NANOS
}

impl DeferredCleanupCadence {
    /// Time of the last sweep (or forced sweep), in nanoseconds.
    pub closed spec fn last_run_nanos(&self) -> u128 {
        duration_nanos(self.last_run)
    }

    pub fn new(now: Duration) -> (c: Self)
        ensures
            c.last_run_nanos() == duration_nanos(now),
    {
        DeferredCleanupCadence { last_run: now }
    }

    /// Whether a sweep should run at `now`; when it should, `now` becomes
    /// the last run.
    pub fn should_run(&mut self, now: Duration) -> (due: bool)
        ensures
            due == cleanup_due(old(self).last_run_nanos(), duration_nanos(now)),
            final(self).last_run_nanos() == (if due {
                duration_nanos(now)
            } else {
                old(self).last_run_nanos()
            }),
    {
        let now_ns = nanos_of(&now);
        let last_ns = nanos_of(&self.last_run);
        let elapsed = now_ns.saturating_sub(last_ns);
        if elapsed < DEFERRED_CLEANUP_INTERVAL_NANOS {
            return false;
        }
        self.last_run = now;
        true
    }

    /// Record a sweep forced at `now` (memory pressure): the next regular
    /// sweep is due one interval later.
    pub fn mark_forced(&mut self, now: Duration)
        ensures
            final(self).last_run_nanos() == duration_nanos(now),
    {
        self.last_run = now;
    }
}

/// A sweep never runs twice at the same instant: right after a sweep at
/// `t`, asking again at `t` is not due.
pub proof fn law_cleanup_not_due_twice(t: u128)
    ensures
        !cleanup_due(t, t),
{
}

/// A timestamp before the last run is never due.
pub proof fn law_regressed_time_not_due(last: u128, now: u128)
    requires
        now < last,
    ensures
        !cleanup_due(last, now),
{
}

/// One render thread's diagnostic deltas and latest gauge samples.
#[derive(Clone, Copy, Debug, PartialEq, Eq)]
pub struct FrameDiagnosticBatch {
    pub draw_calls: u32,
    pub state_changes: u32,
    pub texture_upload_bytes: u32,
    pub measure_text_hits: u32,
    pub measure_text_misses: u32,
    pub shape_cache_hits: u32,
    pub shape_cache_misses: u32,
    pub sk_image_wrapper_hits: u32,
    pub sk_image_wrapper_misses: u32,
    pub skia_context_resets: u32,
    pub canvas2d_snapshots_taken: u32,
    pub canvas2d_snapshot_fallbacks: u32,
    pub canvas2d_snapshot_uploads: u32,
    pub canvas2d_snapshot_forced_readbacks: u32,
    pub shadow_filter_hits: u32,
    pub shadow_filter_misses: u32,
    pub dash_effect_hits: u32,
    pub dash_effect_misses: u32,
    pub gradient_hits: u32,
    pub gradient_misses: u32,
    pub text_cache_hits: u32,
    pub text_cache_misses: u32,
    pub text_cache_bytes: Option<u32>,
    pub text_cache_entries: Option<u32>,
    pub render_queue_len: Option<u32>,
    pub sk_image_wrappers: Option<u32>,
    pub deferred_uploads: Option<u32>,
}

/// The batch with every counter zero and no gauge sample.
pub open spec fn empty_batch() -> FrameDiagnosticBatch {
    FrameDiagnosticBatch {
        draw_calls: 0,
        state_changes: 0,
        texture_upload_bytes: 0,
        measure_text_hits: 0,
        measure_text_misses: 0,
        shape_cache_hits: 0,
        shape_cache_misses: 0,
        sk_image_wrapper_hits: 0,
        sk_image_wrapper_misses: 0,
        skia_context_resets: 0,
        canvas2d_snapshots_taken: 0,
        canvas2d_snapshot_fallbacks: 0,
        canvas2d_snapshot_uploads: 0,
        canvas2d_snapshot_forced_readbacks: 0,
        shadow_filter_hits: 0,
        shadow_filter_misses: 0,
        dash_effect_hits: 0,
        dash_effect_misses: 0,
        gradient_hits: 0,
        gradient_misses: 0,
        text_cache_hits: 0,
        text_cache_misses: 0,
        text_cache_bytes: None,
        text_cache_entries: None,
        render_queue_len: None,
        sk_image_wrappers: None,
        deferred_uploads: None,
    }
}

impl FrameDiagnosticBatch {
    /// The batch with every counter zero and no gauge sample.
    pub fn empty() -> (b: Self)
        ensures
            b == empty_batch(),
    {
        FrameDiagnosticBatch {
            draw_calls: 0,
            state_changes: 0,
            texture_upload_bytes: 0,
            measure_text_hits: 0,
            measure_text_misses: 0,
            shape_cache_hits: 0,
            shape_cache_misses: 0,
            sk_image_wrapper_hits: 0,
            sk_image_wrapper_misses: 0,
            skia_context_resets: 0,
            canvas2d_snapshots_taken: 0,
            canvas2d_snapshot_fallbacks: 0,
            canvas2d_snapshot_uploads: 0,
            canvas2d_snapshot_forced_readbacks: 0,
            shadow_filter_hits: 0,
            shadow_filter_misses: 0,
            dash_effect_hits: 0,
            dash_effect_misses: 0,
            gradient_hits: 0,
            gradient_misses: 0,
            text_cache_hits: 0,
            text_cache_misses: 0,
            text_cache_bytes: None,
            text_cache_entries: None,
            render_queue_len: None,
            sk_image_wrappers: None,
            deferred_uploads: None,
        }
    }
}

impl Default for FrameDiagnosticBatch {
    fn default() -> (b: Self)
        ensures
            b == empty_batch(),
    {
        FrameDiagnosticBatch::empty()
    }
}

/// `v + 1`, saturating at `u32::MAX`.
pub open spec fn sat_inc(v: u32) -> u32 {
    if v == u32::MAX {
        v
    } else {
        (v + 1) as u32
    }
}

/// Accumulates one render thread's diagnostics between drains.
#[derive(Clone, Copy, Debug, PartialEq, Eq)]
pub struct FrameDiagnosticAccumulator {
    pending: FrameDiagnosticBatch,
}

impl Default for FrameDiagnosticAccumulator {
    fn default() -> (a: Self)
        ensures
            a.pending() == empty_batch(),
    {
        FrameDiagnosticAccumulator::new()
    }
}

impl FrameDiagnosticAccumulator {
    /// The batch accumulated since the last drain.
    pub closed spec fn pending(&self) -> FrameDiagnosticBatch {
        self.pending
    }

    pub fn new() -> (a: Self)
        ensures
            a.pending() == empty_batch(),
    {
        FrameDiagnosticAccumulator { pending: FrameDiagnosticBatch::empty() }
    }

    /// Count one more `draw_calls`, saturating.
    pub fn bump_draw_call(&mut self)
        ensures
            final(self).pending() == (FrameDiagnosticBatch {
                draw_calls: sat_inc(old(self).pending().draw_calls),
                ..old(self).pending()
            }),
    {
        self.pending.draw_calls = self.pending.draw_calls.saturating_add(1);
    }

    /// Count one more `state_changes`, saturating.
    pub fn bump_state_change(&mut self)
        ensures
            final(self).pending() == (FrameDiagnosticBatch {
                state_changes: sat_inc(old(self).pending().state_changes),
                ..old(self).pending()
            }),
    {
        self.pending.state_changes = self.pending.state_changes.saturating_add(1);
    }

    /// Count one more `measure_text_hits`, saturating.
    pub fn hit_measure_cache(&mut self)
        ensures
            final(self).pending() == (FrameDiagnosticBatch {
                measure_text_hits: sat_inc(old(self).pending().measure_text_hits),
                ..old(self).pending()
            }),
    {
        self.pending.measure_text_hits = self.pending.measure_text_hits.saturating_add(1);
    }

    /// Count one more `measure_text_misses`, saturating.
    pub fn miss_measure_cache(&mut self)
        ensures
            final(self).pending() == (FrameDiagnosticBatch {
                measure_text_misses: sat_inc(old(self).pending().measure_text_misses),
                ..old(self).pending()
            }),
    {
        self.pending.measure_text_misses = self.pending.measure_text_misses.saturating_add(1);
    }

    /// Count one more `shape_cache_hits`, saturating.
    pub fn hit_shape_cache(&mut self)
        ensures
            final(self).pending() == (FrameDiagnosticBatch {
                shape_cache_hits: sat_inc(old(self).pending().shape_cache_hits),
                ..old(self).pending()
            }),
    {
        self.pending.shape_cache_hits = self.pending.shape_cache_hits.saturating_add(1);
    }

    /// Count one more `shape_cache_misses`, saturating.
    pub fn miss_shape_cache(&mut self)
        ensures
            final(self).pending() == (FrameDiagnosticBatch {
                shape_cache_misses: sat_inc(old(self).pending().shape_cache_misses),
                ..old(self).pending()
            }),
    {
        self.pending.shape_cache_misses = self.pending.shape_cache_misses.saturating_add(1);
    }

    /// Count one more `sk_image_wrapper_hits`, saturating.
    pub fn hit_sk_image_wrapper(&mut self)
        ensures
            final(self).pending() == (FrameDiagnosticBatch {
                sk_image_wrapper_hits: sat_inc(old(self).pending().sk_image_wrapper_hits),
                ..old(self).pending()
            }),
    {
        self.pending.sk_image_wrapper_hits = self.pending.sk_image_wrapper_hits.saturating_add(1);
    }

    /// Count one more `sk_image_wrapper_misses`, saturating.
    pub fn miss_sk_image_wrapper(&mut self)
        ensures
            final(self).pending() == (FrameDiagnosticBatch {
                sk_image_wrapper_misses: sat_inc(old(self).pending().sk_image_wrapper_misses),
                ..old(self).pending()
            }),
    {
        self.pending.sk_image_wrapper_misses = self.pending.sk_image_wrapper_misses.saturating_add(1);
    }

    /// Count one more `skia_context_resets`, saturating.
    pub fn bump_skia_context_reset(&mut self)
        ensures
            final(self).pending() == (FrameDiagnosticBatch {
                skia_context_resets: sat_inc(old(self).pending().skia_context_resets),
                ..old(self).pending()
            }),
    {
        self.pending.skia_context_resets = self.pending.skia_context_resets.saturating_add(1);
    }

    /// Count one more `canvas2d_snapshots_taken`, saturating.
    pub fn bump_canvas2d_snapshot_taken(&mut self)
        ensures
            final(self).pending() == (FrameDiagnosticBatch {
                canvas2d_snapshots_taken: sat_inc(old(self).pending().canvas2d_snapshots_taken),
                ..old(self).pending()
            }),
    {
        self.pending.canvas2d_snapshots_taken = self.pending.canvas2d_snapshots_taken.saturating_add(1);
    }

    /// Count one more `canvas2d_snapshot_fallbacks`, saturating.
    pub fn bump_canvas2d_snapshot_fallback(&mut self)
        ensures
            final(self).pending() == (FrameDiagnosticBatch {
                canvas2d_snapshot_fallbacks: sat_inc(old(self).pending().canvas2d_snapshot_fallbacks),
                ..old(self).pending()
            }),
    {
        self.pending.canvas2d_snapshot_fallbacks = self.pending.canvas2d_snapshot_fallbacks.saturating_add(1);
    }

    /// Count one more `canvas2d_snapshot_uploads`, saturating.
    pub fn bump_canvas2d_snapshot_upload(&mut self)
        ensures
            final(self).pending() == (FrameDiagnosticBatch {
                canvas2d_snapshot_uploads: sat_inc(old(self).pending().canvas2d_snapshot_uploads),
                ..old(self).pending()
            }),
    {
        self.pending.canvas2d_snapshot_uploads = self.pending.canvas2d_snapshot_uploads.saturating_add(1);
    }

    /// Count one more `canvas2d_snapshot_forced_readbacks`, saturating.
    pub fn bump_canvas2d_snapshot_forced_readback(&mut self)
        ensures
            final(self).pending() == (FrameDiagnosticBatch {
                canvas2d_snapshot_forced_readbacks: sat_inc(old(self).pending().canvas2d_snapshot_forced_readbacks),
                ..old(self).pending()
            }),
    {
        self.pending.canvas2d_snapshot_forced_readbacks = self.pending.canvas2d_snapshot_forced_readbacks.saturating_add(1);
    }

    /// Count one more `shadow_filter_hits`, saturating.
    pub fn hit_shadow_filter_cache(&mut self)
        ensures
            final(self).pending() == (FrameDiagnosticBatch {
                shadow_filter_hits: sat_inc(old(self).pending().shadow_filter_hits),
                ..old(self).pending()
            }),
    {
        self.pending.shadow_filter_hits = self.pending.shadow_filter_hits.saturating_add(1);
    }

    /// Count one more `shadow_filter_misses`, saturating.
    pub fn miss_shadow_filter_cache(&mut self)
        ensures
            final(self).pending() == (FrameDiagnosticBatch {
                shadow_filter_misses: sat_inc(old(self).pending().shadow_filter_misses),
                ..old(self).pending()
            }),
    {
        self.pending.shadow_filter_misses = self.pending.shadow_filter_misses.saturating_add(1);
    }

    /// Count one more `dash_effect_hits`, saturating.
    pub fn hit_dash_effect_cache(&mut self)
        ensures
            final(self).pending() == (FrameDiagnosticBatch {
                dash_effect_hits: sat_inc(old(self).pending().dash_effect_hits),
                ..old(self).pending()
            }),
    {
        self.pending.dash_effect_hits = self.pending.dash_effect_hits.saturating_add(1);
    }

    /// Count one more `dash_effect_misses`, saturating.
    pub fn miss_dash_effect_cache(&mut self)
        ensures
            final(self).pending() == (FrameDiagnosticBatch {
                dash_effect_misses: sat_inc(old(self).pending().dash_effect_misses),
                ..old(self).pending()
            }),
    {
        self.pending.dash_effect_misses = self.pending.dash_effect_misses.saturating_add(1);
    }

    /// Count one more `gradient_hits`, saturating.
    pub fn hit_gradient_cache(&mut self)
        ensures
            final(self).pending() == (FrameDiagnosticBatch {
                gradient_hits: sat_inc(old(self).pending().gradient_hits),
                ..old(self).pending()
            }),
    {
        self.pending.gradient_hits = self.pending.gradient_hits.saturating_add(1);
    }

    /// Count one more `gradient_misses`, saturating.
    pub fn miss_gradient_cache(&mut self)
        ensures
            final(self).pending() == (FrameDiagnosticBatch {
                gradient_misses: sat_inc(old(self).pending().gradient_misses),
                ..old(self).pending()
            }),
    {
        self.pending.gradient_misses = self.pending.gradient_misses.saturating_add(1);
    }

    /// Count one more `text_cache_hits`, saturating.
    pub fn hit_text_cache(&mut self)
        ensures
            final(self).pending() == (FrameDiagnosticBatch {
                text_cache_hits: sat_inc(old(self).pending().text_cache_hits),
                ..old(self).pending()
            }),
    {
        self.pending.text_cache_hits = self.pending.text_cache_hits.saturating_add(1);
    }

    /// Count one more `text_cache_misses`, saturating.
    pub fn miss_text_cache(&mut self)
        ensures
            final(self).pending() == (FrameDiagnosticBatch {
                text_cache_misses: sat_inc(old(self).pending().text_cache_misses),
                ..old(self).pending()
            }),
    {
        self.pending.text_cache_misses = self.pending.text_cache_misses.saturating_add(1);
    }

    /// Add uploaded texture bytes, saturating.
    pub fn add_upload_bytes(&mut self, bytes: u32)
        ensures
            final(self).pending() == (FrameDiagnosticBatch {
                texture_upload_bytes: old(self).pending().texture_upload_bytes.saturating_add(
                    bytes,
                ),
                ..old(self).pending()
            }),
    {
        self.pending.texture_upload_bytes = self.pending.texture_upload_bytes.saturating_add(bytes);
    }

    /// Record the text cache's resident bytes and entry count.
    pub fn set_text_cache_gauges(&mut self, bytes: u32, entries: u32)
        ensures
            final(self).pending() == (FrameDiagnosticBatch {
                text_cache_bytes: Some(bytes),
                text_cache_entries: Some(entries),
                ..old(self).pending()
            }),
    {
        self.pending.text_cache_bytes = Some(bytes);
        self.pending.text_cache_entries = Some(entries);
    }

    /// Record the render command backlog.
    pub fn set_render_queue_len(&mut self, len: u32)
        ensures
            final(self).pending() == (FrameDiagnosticBatch {
                render_queue_len: Some(len),
                ..old(self).pending()
            }),
    {
        self.pending.render_queue_len = Some(len);
    }

    /// Record the live image wrapper count.
    pub fn set_sk_image_wrapper_count(&mut self, count: u32)
        ensures
            final(self).pending() == (FrameDiagnosticBatch {
                sk_image_wrappers: Some(count),
                ..old(self).pending()
            }),
    {
        self.pending.sk_image_wrappers = Some(count);
    }

    /// Record the deferred-upload queue depth.
    pub fn set_deferred_uploads(&mut self, count: u32)
        ensures
            final(self).pending() == (FrameDiagnosticBatch {
                deferred_uploads: Some(count),
                ..old(self).pending()
            }),
    {
        self.pending.deferred_uploads = Some(count);
    }

    /// Hand out the accumulated batch and start a fresh one.
    pub fn drain(&mut self) -> (b: FrameDiagnosticBatch)
        ensures
            b == old(self).pending(),
            final(self).pending() == empty_batch(),
    {
        let b = self.pending;
        self.pending = FrameDiagnosticBatch::empty();
        b
    }
}

} // verus!
