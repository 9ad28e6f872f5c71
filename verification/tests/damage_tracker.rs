use migo_graphics::damage::{DamageHistory, DamageTracker, ResolvedDamage, MAX_DAMAGE_RECTS, MAX_HISTORY};

#[test]
fn falls_back_to_full_redraw_when_frame_contains_untracked_readback() {
    let mut tracker = DamageTracker::new((1080, 1920));
    tracker.mark_rect((0, 0, 200, 200));
    tracker.mark_requires_full_redraw();

    assert_eq!(tracker.resolve(), ResolvedDamage::FullSurface);
}

#[test]
fn resolve_rects_returns_discrete_rects_up_to_cap() {
    let mut tracker = DamageTracker::new((1080, 1920));
    tracker.mark_rect((10, 20, 30, 40));
    tracker.mark_rect((500, 600, 50, 60));
    tracker.mark_rect((700, 800, 70, 80));
    tracker.mark_rect((900, 1000, 90, 100));

    let rects = tracker.resolve_rects().expect("should have rects");
    assert_eq!(rects.len(), 4);
    assert_eq!(rects.as_slice()[0], (10, 20, 30, 40));
    assert_eq!(rects.as_slice()[3], (900, 1000, 90, 100));
}

#[test]
fn resolve_rects_collapses_past_cap() {
    let mut tracker = DamageTracker::new((1080, 1920));
    for i in 0..MAX_DAMAGE_RECTS {
        tracker.mark_rect((i as i32 * 10, 0, 10, 10));
    }
    tracker.mark_rect((40, 0, 10, 10));
    let rects = tracker.resolve_rects().expect("should have rects");
    assert_eq!(rects.len(), 1);
    assert_eq!(rects.as_slice()[0], (0, 0, 50, 10));
}

#[test]
fn resolve_rects_returns_none_when_force_full() {
    let mut tracker = DamageTracker::new((1080, 1920));
    tracker.mark_rect((0, 0, 100, 100));
    tracker.mark_requires_full_redraw();
    assert!(tracker.resolve_rects().is_none());
}

#[test]
fn resolve_rects_clips_to_surface_bounds() {
    let mut tracker = DamageTracker::new((100, 100));
    tracker.mark_rect((-10, -10, 50, 50));
    tracker.mark_rect((80, 80, 50, 50));
    let rects = tracker.resolve_rects().expect("should have rects");
    assert_eq!(rects.len(), 2);
    assert_eq!(rects.as_slice()[0], (0, 0, 40, 40));
    assert_eq!(rects.as_slice()[1], (80, 80, 20, 20));
}

#[test]
fn resolve_single_aabb_matches_unified_bbox() {
    let mut tracker = DamageTracker::new((1000, 1000));
    tracker.mark_rect((10, 10, 20, 20));
    tracker.mark_rect((100, 100, 30, 30));
    tracker.mark_rect((500, 500, 50, 50));
    tracker.mark_rect((800, 800, 40, 40));

    match tracker.resolve() {
        ResolvedDamage::Partial { x, y, width, height } => {
            assert_eq!(x, 10);
            assert_eq!(y, 10);
            assert_eq!(width, 830);
            assert_eq!(height, 830);
        }
        other => panic!("expected Partial, got {:?}", other),
    }
}

#[test]
fn age_1_returns_current_frame_damage() {
    let history = DamageHistory::new();
    let current = ResolvedDamage::Partial { x: 10, y: 20, width: 100, height: 50 };
    assert_eq!(history.resolve_with_age(current, 1), current);
}

#[test]
fn age_0_returns_full_surface() {
    let history = DamageHistory::new();
    let current = ResolvedDamage::Partial { x: 10, y: 20, width: 100, height: 50 };
    assert_eq!(history.resolve_with_age(current, 0), ResolvedDamage::FullSurface);
}

#[test]
fn age_exceeds_history_returns_full_surface() {
    let history = DamageHistory::new();
    let current = ResolvedDamage::Partial { x: 0, y: 0, width: 50, height: 50 };
    assert_eq!(history.resolve_with_age(current, 2), ResolvedDamage::FullSurface);
}

#[test]
fn age_2_unions_current_with_previous_frame() {
    let mut history = DamageHistory::new();
    history.push(ResolvedDamage::Partial { x: 200, y: 300, width: 100, height: 100 });
    let current = ResolvedDamage::Partial { x: 10, y: 20, width: 50, height: 50 };
    let result = history.resolve_with_age(current, 2);
    assert_eq!(result, ResolvedDamage::Partial { x: 10, y: 20, width: 290, height: 380 });
}

#[test]
fn age_3_unions_current_with_two_previous_frames() {
    let mut history = DamageHistory::new();
    history.push(ResolvedDamage::Partial { x: 0, y: 0, width: 10, height: 10 });
    history.push(ResolvedDamage::Partial { x: 500, y: 500, width: 100, height: 100 });
    let current = ResolvedDamage::Partial { x: 250, y: 250, width: 50, height: 50 };
    let result = history.resolve_with_age(current, 3);
    assert_eq!(result, ResolvedDamage::Partial { x: 0, y: 0, width: 600, height: 600 });
}

#[test]
fn historical_full_surface_poisons_result() {
    let mut history = DamageHistory::new();
    history.push(ResolvedDamage::FullSurface);
    let current = ResolvedDamage::Partial { x: 10, y: 10, width: 50, height: 50 };
    assert_eq!(history.resolve_with_age(current, 2), ResolvedDamage::FullSurface);
}

#[test]
fn history_ring_evicts_oldest() {
    let mut history = DamageHistory::new();
    for i in 0..MAX_HISTORY + 2 {
        history.push(ResolvedDamage::Partial { x: i as i32 * 10, y: 0, width: 10, height: 10 });
    }
    assert_eq!(history.len(), MAX_HISTORY);
}

#[test]
fn clear_empties_history() {
    let mut history = DamageHistory::new();
    history.push(ResolvedDamage::Partial { x: 0, y: 0, width: 10, height: 10 });
    history.clear();
    assert_eq!(history.len(), 0);
}

#[test]
fn damage_union_is_commutative_on_concrete_boxes() {
    let a = ResolvedDamage::Partial { x: 5, y: 7, width: 10, height: 3 };
    let b = ResolvedDamage::Partial { x: -2, y: 20, width: 4, height: 4 };
    assert_eq!(migo_graphics::damage::union_damage(a, b), migo_graphics::damage::union_damage(b, a));
    assert_eq!(
        migo_graphics::damage::union_damage(a, b),
        ResolvedDamage::Partial { x: -2, y: 7, width: 17, height: 17 }
    );
    assert_eq!(
        migo_graphics::damage::union_damage(ResolvedDamage::FullSurface, a),
        ResolvedDamage::FullSurface
    );
}

#[test]
fn resolve_clips_partial_box_to_surface() {
    let mut tracker = DamageTracker::new((100, 100));
    tracker.mark_rect((-10, 90, 30, 30));
    assert_eq!(tracker.resolve(), ResolvedDamage::Partial { x: 0, y: 90, width: 20, height: 10 });
    let mut whole = DamageTracker::new((100, 100));
    whole.mark_rect((0, 0, 100, 100));
    assert_eq!(whole.resolve(), ResolvedDamage::FullSurface);
    assert!(whole.resolve_rects().is_none());
    let empty = DamageTracker::new((100, 100));
    assert_eq!(empty.resolve(), ResolvedDamage::FullSurface);
}

#[test]
fn ignores_empty_rects() {
    let mut tracker = DamageTracker::new((100, 100));
    tracker.mark_rect((10, 10, 0, 5));
    tracker.mark_rect((10, 10, 5, -1));
    assert!(tracker.resolve_rects().is_none());
}

#[test]
fn overflow_stays_collapsed_for_later_rects() {
    let mut tracker = DamageTracker::new((1080, 1920));
    for i in 0..MAX_DAMAGE_RECTS {
        tracker.mark_rect((i as i32 * 10, 0, 10, 10));
    }
    tracker.mark_rect((40, 0, 10, 10));
    tracker.mark_rect((100, 0, 10, 10));
    tracker.mark_rect((0, 50, 5, 5));
    let rects = tracker.resolve_rects().expect("should have rects");
    assert_eq!(rects.as_slice(), &[(0, 0, 110, 55)]);
}
