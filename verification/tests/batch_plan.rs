use migo_graphics::batch_plan::{
    batch_key, count_texture_switches, op_adds_quad, plan_preserving_order, plan_sorted,
    DrawOpKind, PlannedBatch, BATCH_VERTEX_LIMIT,
};
use migo_graphics::batching::{BatchKey, DrawType};

fn ops_of(plan: &[PlannedBatch]) -> Vec<Vec<usize>> {
    plan.iter().map(|b| b.ops.clone()).collect()
}

#[test]
fn keys_follow_the_operation_kind() {
    assert_eq!(
        batch_key(DrawOpKind::FillRect),
        BatchKey { draw_type: DrawType::SolidRect, texture_id: 0, blend_mode: 0 }
    );
    assert_eq!(
        batch_key(DrawOpKind::DrawImage { image_id: 7 }),
        BatchKey { draw_type: DrawType::TexturedRect, texture_id: 7, blend_mode: 0 }
    );
    assert_eq!(batch_key(DrawOpKind::DrawText).draw_type, DrawType::Text);
    assert_eq!(batch_key(DrawOpKind::FillPath), batch_key(DrawOpKind::StrokePath));
    assert!(op_adds_quad(DrawOpKind::FillRect));
    assert!(op_adds_quad(DrawOpKind::DrawImage { image_id: 1 }));
    assert!(!op_adds_quad(DrawOpKind::DrawText));
    assert!(!op_adds_quad(DrawOpKind::StrokePath));
}

#[test]
fn similar_rects_share_one_batch() {
    let kinds = vec![DrawOpKind::FillRect; 10];
    let (plan, groups) = plan_sorted(&kinds);
    assert_eq!(groups, 1);
    assert_eq!(plan.len(), 1);
    assert_eq!(plan[0].ops, (0..10).collect::<Vec<usize>>());
    let preserving = plan_preserving_order(&kinds);
    assert_eq!(ops_of(&preserving), vec![(0..10).collect::<Vec<usize>>()]);
}

#[test]
fn preserving_order_cuts_at_every_key_change() {
    let kinds = vec![
        DrawOpKind::FillRect,
        DrawOpKind::DrawImage { image_id: 1 },
        DrawOpKind::FillRect,
    ];
    let plan = plan_preserving_order(&kinds);
    assert_eq!(ops_of(&plan), vec![vec![0], vec![1], vec![2]]);
    assert_eq!(plan[1].key.texture_id, 1);
    assert_eq!(count_texture_switches(&plan), 2);
}

#[test]
fn preserving_order_keeps_text_batches() {
    let kinds = vec![DrawOpKind::DrawText, DrawOpKind::DrawText, DrawOpKind::FillPath];
    let plan = plan_preserving_order(&kinds);
    assert_eq!(ops_of(&plan), vec![vec![0, 1], vec![2]]);
    assert!(plan_preserving_order(&[]).is_empty());
}

#[test]
fn sorted_groups_by_first_appearance_and_drops_text() {
    let kinds = vec![
        DrawOpKind::DrawImage { image_id: 3 },
        DrawOpKind::FillRect,
        DrawOpKind::DrawText,
        DrawOpKind::DrawImage { image_id: 3 },
        DrawOpKind::FillRect,
        DrawOpKind::DrawImage { image_id: 4 },
    ];
    let (plan, groups) = plan_sorted(&kinds);
    assert_eq!(groups, 4);
    assert_eq!(ops_of(&plan), vec![vec![0, 3], vec![1, 4], vec![5]]);
    assert_eq!(plan[0].key.texture_id, 3);
    assert_eq!(plan[1].key.draw_type, DrawType::SolidRect);
    assert_eq!(count_texture_switches(&plan), 2);
}

#[test]
fn full_batches_are_cut() {
    let per_batch = BATCH_VERTEX_LIMIT / 4;
    let kinds = vec![DrawOpKind::FillRect; per_batch * 2 + 3];
    let (plan, _) = plan_sorted(&kinds);
    assert_eq!(plan.len(), 3);
    assert_eq!(plan[0].ops.len(), per_batch);
    assert_eq!(plan[1].ops.len(), per_batch);
    assert_eq!(plan[2].ops, vec![per_batch * 2, per_batch * 2 + 1, per_batch * 2 + 2]);
    let preserving = plan_preserving_order(&kinds);
    assert_eq!(preserving.len(), 3);
    assert_eq!(preserving[0].ops.len(), per_batch);
    // Text adds no vertices, so it never fills a batch.
    let text = vec![DrawOpKind::DrawText; per_batch + 5];
    assert_eq!(plan_preserving_order(&text).len(), 1);
}
