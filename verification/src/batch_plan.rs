//! Grouping of queued draw operations into batches that share GL state.
//!
//! The planner sees each operation only through its kind: which batch key
//! it has and whether it adds a quad (four vertices). It hands back, for
//! every batch, the key and the indices of its operations; building the
//! vertices is left to the caller. A batch takes operations while it holds
//! fewer than `BATCH_VERTEX_LIMIT` vertices.

use crate::batching::{BatchKey, DrawType};
use vstd::prelude::*;

verus! {

/// A batch counts as full from this many vertices on.
pub const BATCH_VERTEX_LIMIT: usize = 65000;

/// What batching needs to know of a draw operation.
#[derive(Debug, Clone, Copy, PartialEq, Eq, Structural)]
pub enum DrawOpKind {
    FillRect,
    DrawImage { image_id: u32 },
    DrawText,
    FillPath,
    StrokePath,
}

/// The batch key of an operation: solid rects, images (by image), text and
/// paths each batch apart; no blending variant is used.
pub open spec fn key_of(k: DrawOpKind) -> BatchKey {
    match k {
        DrawOpKind::FillRect => BatchKey {
            draw_type: DrawType::SolidRect,
            texture_id: 0,
            blend_mode: 0,
        },
        DrawOpKind::DrawImage { image_id } => BatchKey {
            draw_type: DrawType::TexturedRect,
            texture_id: image_id,
            blend_mode: 0,
        },
        DrawOpKind::DrawText => BatchKey { draw_type: DrawType::Text, texture_id: 0, blend_mode: 0 },
        _ => BatchKey { draw_type: DrawType::Path, texture_id: 0, blend_mode: 0 },
    }
}

/// Rects and images add a quad to their batch; text and paths are drawn
/// elsewhere and add nothing.
pub open spec fn adds_quad(k: DrawOpKind) -> bool {
    k is FillRect || k is DrawImage
}

/// The batch key of an operation.
pub fn batch_key(kind: DrawOpKind) -> (k: BatchKey)
    ensures
        k == key_of(kind),
{
    match kind {
        DrawOpKind::FillRect => BatchKey { draw_type: DrawType::SolidRect, texture_id: 0, blend_mode: 0 },
        DrawOpKind::DrawImage { image_id } => BatchKey {
            draw_type: DrawType::TexturedRect,
            texture_id: image_id,
            blend_mode: 0,
        },
        DrawOpKind::DrawText => BatchKey { draw_type: DrawType::Text, texture_id: 0, blend_mode: 0 },
        DrawOpKind::FillPath | DrawOpKind::StrokePath => BatchKey {
            draw_type: DrawType::Path,
            texture_id: 0,
            blend_mode: 0,
        },
    }
}

/// Whether an operation adds a quad.
pub fn op_adds_quad(kind: DrawOpKind) -> (b: bool)
    ensures
        b == adds_quad(kind),
{
    match kind {
        DrawOpKind::FillRect | DrawOpKind::DrawImage { .. } => true,
        _ => false,
    }
}

/// A planned batch: its key and the indices of its operations, in order.
#[derive(Debug, Clone, PartialEq, Eq)]
pub struct PlannedBatch {
    pub key: BatchKey,
    pub ops: Vec<usize>,
}

/// Quads added by the operations `start .. start + len`.
pub open spec fn quads_in(kinds: Seq<DrawOpKind>, start: int, len: int) -> int
    decreases len,
{
    if len <= 0 {
        0
    } else {
        quads_in(kinds, start, len - 1) + if adds_quad(kinds[start + len - 1]) {
            1int
        } else {
            0int
        }
    }
}

/// First operation of a batch.
pub open spec fn first_op(b: PlannedBatch) -> int {
    b.ops@[0] as int
}

/// One past the last operation of a batch of consecutive operations.
pub open spec fn end_op(b: PlannedBatch) -> int {
    b.ops@[0] + b.ops@.len()
}

/// A batch of consecutive operations that all have its key, where every
/// operation after the first joined while the batch had room.
pub open spec fn run_ok(kinds: Seq<DrawOpKind>, b: PlannedBatch) -> bool {
    &&& b.ops@.len() > 0
    &&& forall|t: int| 0 <= t < b.ops@.len() ==> #[trigger] b.ops@[t] == b.ops@[0] + t
    &&& end_op(b) <= kinds.len()
    &&& forall|t: int| 0 <= t < b.ops@.len() ==> key_of(kinds[#[trigger] b.ops@[t] as int]) == b.key
    &&& forall|t: int|
        0 < t < b.ops@.len() ==> 4 * #[trigger] quads_in(kinds, first_op(b), t)
            < BATCH_VERTEX_LIMIT
}

/// The batcher moved from `a` to the next batch because the key changed or
/// `a` was full.
pub open spec fn cut_ok(kinds: Seq<DrawOpKind>, a: PlannedBatch, b: PlannedBatch) -> bool {
    a.key != b.key || 4 * quads_in(kinds, first_op(a), a.ops@.len() as int) >= BATCH_VERTEX_LIMIT
}

/// `plan` is the order-preserving batching of `kinds`: consecutive runs that
/// cover every operation once, in order, cut exactly where the key changes
/// or a batch is full.
pub open spec fn is_preserving_plan(kinds: Seq<DrawOpKind>, plan: Seq<PlannedBatch>) -> bool {
    &&& forall|j: int| 0 <= j < plan.len() ==> run_ok(kinds, #[trigger] plan[j])
    &&& kinds.len() == 0 ==> plan.len() == 0
    &&& kinds.len() > 0 ==> plan.len() > 0 && first_op(plan[0]) == 0 && end_op(plan.last())
        == kinds.len()
    &&& forall|j: int|
        0 <= j < plan.len() - 1 ==> first_op(#[trigger] plan[j + 1]) == end_op(plan[j])
            && cut_ok(kinds, plan[j], plan[j + 1])
}

proof fn lemma_quads_step(kinds: Seq<DrawOpKind>, start: int, len: int)
    requires
        len >= 0,
    ensures
        quads_in(kinds, start, len + 1) == quads_in(kinds, start, len) + if adds_quad(
            kinds[start + len],
        ) {
            1int
        } else {
            0int
        },
        quads_in(kinds, start, len) >= 0,
        quads_in(kinds, start, len) <= len,
    decreases len,
{
    if len > 0 {
        lemma_quads_step(kinds, start, len - 1);
    }
}

/// Batch `kinds` in submission order: a new batch starts at the first
/// operation, whenever the key changes, and whenever the current batch
/// holds `BATCH_VERTEX_LIMIT` vertices or more.
pub fn plan_preserving_order(kinds: &[DrawOpKind]) -> (plan: Vec<PlannedBatch>)
    ensures
        is_preserving_plan(kinds@, plan@),
{
    let mut plan: Vec<PlannedBatch> = Vec::new();
    let n = kinds.len();
    if n == 0 {
        return plan;
    }
    let mut cur_key = batch_key(kinds[0]);
    let mut cur_ops: Vec<usize> = Vec::new();
    cur_ops.push(0);
    let mut cur_verts: usize = if op_adds_quad(kinds[0]) {
        4
    } else {
        0
    };
    proof {
        lemma_quads_step(kinds@, 0, 0);
    }
    let mut i: usize = 1;
    while i < n
        invariant
            n == kinds@.len(),
            1 <= i <= n,
            cur_ops@.len() > 0,
            forall|t: int| 0 <= t < cur_ops@.len() ==> #[trigger] cur_ops@[t] == cur_ops@[0] + t,
            cur_ops@[0] + cur_ops@.len() == i,
            forall|t: int|
                0 <= t < cur_ops@.len() ==> key_of(kinds@[#[trigger] cur_ops@[t] as int])
                    == cur_key,
            forall|t: int|
                0 < t < cur_ops@.len() ==> 4 * #[trigger] quads_in(kinds@, cur_ops@[0] as int, t)
                    < BATCH_VERTEX_LIMIT,
            cur_verts == 4 * quads_in(kinds@, cur_ops@[0] as int, cur_ops@.len() as int),
            cur_verts < BATCH_VERTEX_LIMIT + 4,
            forall|j: int| 0 <= j < plan@.len() ==> run_ok(kinds@, #[trigger] plan@[j]),
            plan@.len() == 0 ==> cur_ops@[0] == 0,
            plan@.len() > 0 ==> first_op(plan@[0]) == 0 && end_op(plan@.last()) == cur_ops@[0]
                && cut_ok(
                kinds@,
                plan@.last(),
                PlannedBatch { key: cur_key, ops: cur_ops },
            ),
            forall|j: int|
                0 <= j < plan@.len() - 1 ==> first_op(#[trigger] plan@[j + 1]) == end_op(plan@[j])
                    && cut_ok(kinds@, plan@[j], plan@[j + 1]),
        decreases n - i,
    {
        let key = batch_key(kinds[i]);
        let quad = op_adds_quad(kinds[i]);
        proof {
            lemma_quads_step(kinds@, cur_ops@[0] as int, cur_ops@.len() as int);
        }
        if key != cur_key || cur_verts >= BATCH_VERTEX_LIMIT {
            let ghost closed = PlannedBatch { key: cur_key, ops: cur_ops };
            let ghost before = plan@;
            let mut next_ops: Vec<usize> = Vec::new();
            next_ops.push(i);
            let done = PlannedBatch { key: cur_key, ops: cur_ops };
            plan.push(done);
            cur_key = key;
            cur_ops = next_ops;
            cur_verts = if quad {
                4
            } else {
                0
            };
            proof {
                lemma_quads_step(kinds@, i as int, 0);
                assert(plan@ == before.push(closed));
                assert(run_ok(kinds@, closed));
                assert forall|j: int| 0 <= j < plan@.len() - 1 implies first_op(
                    #[trigger] plan@[j + 1],
                ) == end_op(plan@[j]) && cut_ok(kinds@, plan@[j], plan@[j + 1]) by {
                    if j < before.len() - 1 {
                        assert(plan@[j] == before[j] && plan@[j + 1] == before[j + 1]);
                    } else {
                        assert(plan@[j] == before.last() && plan@[j + 1] == closed);
                    }
                }
                assert forall|j: int| 0 <= j < plan@.len() implies run_ok(
                    kinds@,
                    #[trigger] plan@[j],
                ) by {
                    if j < before.len() {
                        assert(plan@[j] == before[j]);
                    }
                }
                if before.len() == 0 {
                    assert(plan@[0] == closed);
                }
            }
        } else {
            let ghost old_ops = cur_ops@;
            cur_ops.push(i);
            cur_verts = if quad {
                cur_verts + 4
            } else {
                cur_verts
            };
            proof {
                assert forall|t: int| 0 <= t < cur_ops@.len() implies #[trigger] cur_ops@[t]
                    == cur_ops@[0] + t by {
                    if t < old_ops.len() {
                        assert(cur_ops@[t] == old_ops[t]);
                    }
                }
                assert forall|t: int|
                    0 <= t < cur_ops@.len() implies key_of(kinds@[#[trigger] cur_ops@[t] as int])
                    == cur_key by {
                    if t < old_ops.len() {
                        assert(cur_ops@[t] == old_ops[t]);
                    }
                }
                assert forall|t: int|
                    0 < t < cur_ops@.len() implies 4 * #[trigger] quads_in(
                    kinds@,
                    cur_ops@[0] as int,
                    t,
                ) < BATCH_VERTEX_LIMIT by {
                    if t < old_ops.len() {
                    }
                }
                if plan@.len() > 0 {
                    assert(cut_ok(kinds@, plan@.last(), PlannedBatch { key: cur_key, ops: cur_ops }));
                }
            }
        }
        i = i + 1;
    }
    let ghost before = plan@;
    let last = PlannedBatch { key: cur_key, ops: cur_ops };
    plan.push(last);
    proof {
        assert(plan@ == before.push(last));
        assert forall|j: int| 0 <= j < plan@.len() implies run_ok(kinds@, #[trigger] plan@[j]) by {
            if j < before.len() {
                assert(plan@[j] == before[j]);
            }
        }
        assert forall|j: int| 0 <= j < plan@.len() - 1 implies first_op(#[trigger] plan@[j + 1])
            == end_op(plan@[j]) && cut_ok(kinds@, plan@[j], plan@[j + 1]) by {
            if j < before.len() - 1 {
                assert(plan@[j] == before[j] && plan@[j + 1] == before[j + 1]);
            } else {
                assert(plan@[j] == before.last() && plan@[j + 1] == last);
            }
        }
        if before.len() == 0 {
            assert(plan@[0] == last);
        }
    }
    plan
}

// ---------------------------------------------------------------------------
// Grouped by key
// ---------------------------------------------------------------------------

/// Operations a batch of quads takes before it is full.
pub open spec fn quads_per_batch() -> nat {
    (BATCH_VERTEX_LIMIT / 4) as nat
}

/// Keys whose operations add quads (rects and images).
pub open spec fn key_has_quads(key: BatchKey) -> bool {
    key.draw_type == DrawType::SolidRect || key.draw_type == DrawType::TexturedRect
}

/// The distinct keys of `kinds`, in order of first appearance.
pub open spec fn distinct_keys(kinds: Seq<DrawOpKind>) -> Seq<BatchKey>
    decreases kinds.len(),
{
    if kinds.len() == 0 {
        Seq::empty()
    } else {
        let prev = distinct_keys(kinds.drop_last());
        if prev.contains(key_of(kinds.last())) {
            prev
        } else {
            prev.push(key_of(kinds.last()))
        }
    }
}

/// Indices below `n` of the operations with key `key`, in order.
pub open spec fn indices_with_key(kinds: Seq<DrawOpKind>, key: BatchKey, n: int) -> Seq<usize>
    decreases n,
{
    if n <= 0 {
        Seq::empty()
    } else {
        let prev = indices_with_key(kinds, key, n - 1);
        if key_of(kinds[n - 1]) == key {
            prev.push((n - 1) as usize)
        } else {
            prev
        }
    }
}

/// `s` cut, from the front, into pieces of `size` elements (the last one
/// possibly shorter).
pub open spec fn chunks_of(s: Seq<usize>, size: nat) -> Seq<Seq<usize>>
    decreases s.len(),
{
    if s.len() == 0 {
        Seq::empty()
    } else {
        let prev = chunks_of(s.drop_last(), size);
        if prev.len() > 0 && prev.last().len() < size {
            prev.update(prev.len() - 1, prev.last().push(s.last()))
        } else {
            prev.push(seq![s.last()])
        }
    }
}

/// The batches of one key: its operations cut into full batches, or none
/// for keys without quads.
pub open spec fn group_plan(kinds: Seq<DrawOpKind>, key: BatchKey) -> Seq<(BatchKey, Seq<usize>)> {
    if key_has_quads(key) {
        chunks_of(indices_with_key(kinds, key, kinds.len() as int), quads_per_batch()).map_values(
            |c: Seq<usize>| (key, c),
        )
    } else {
        Seq::empty()
    }
}

/// The batches of the first `g` keys of `keys`, one group after another.
pub open spec fn plan_upto(kinds: Seq<DrawOpKind>, keys: Seq<BatchKey>, g: int) -> Seq<
    (BatchKey, Seq<usize>),
>
    decreases g,
{
    if g <= 0 {
        Seq::empty()
    } else {
        plan_upto(kinds, keys, g - 1) + group_plan(kinds, keys[g - 1])
    }
}

/// Batching grouped by key: for each key in order of first appearance, its
/// operations in order, cut into full batches; text and path operations
/// get no batch.
pub open spec fn sorted_plan(kinds: Seq<DrawOpKind>) -> Seq<(BatchKey, Seq<usize>)> {
    plan_upto(kinds, distinct_keys(kinds), distinct_keys(kinds).len() as int)
}

/// A batch as a key and a sequence of operation indices.
pub open spec fn batch_view(b: PlannedBatch) -> (BatchKey, Seq<usize>) {
    (b.key, b.ops@)
}

/// The distinct keys of `kinds`, in order of first appearance.
fn distinct_keys_of(kinds: &[DrawOpKind]) -> (keys: Vec<BatchKey>)
    ensures
        keys@ == distinct_keys(kinds@),
{
    let mut keys: Vec<BatchKey> = Vec::new();
    let n = kinds.len();
    proof {
        assert(kinds@.take(0) =~= Seq::<DrawOpKind>::empty());
    }
    for i in 0..n
        invariant
            n == kinds@.len(),
            keys@ == distinct_keys(kinds@.take(i as int)),
    {
        let key = batch_key(kinds[i]);
        let mut found = false;
        let mut j: usize = 0;
        while j < keys.len()
            invariant
                j <= keys@.len(),
                found == (exists|t: int| 0 <= t < j && keys@[t] == key),
            decreases keys@.len() - j,
        {
            if keys[j] == key {
                found = true;
            }
            j = j + 1;
        }
        proof {
            assert(kinds@.take(i + 1).drop_last() =~= kinds@.take(i as int));
            assert(kinds@.take(i + 1).last() == kinds@[i as int]);
            assert(found == keys@.contains(key));
        }
        if !found {
            keys.push(key);
        }
    }
    proof {
        assert(kinds@.take(n as int) =~= kinds@);
    }
    keys
}

/// Batch `kinds` grouped by key (keys in order of first appearance), each
/// group's operations in order and cut into full batches; operations
/// without quads get no batch. Also returns the number of key groups,
/// text and path groups included.
pub fn plan_sorted(kinds: &[DrawOpKind]) -> (res: (Vec<PlannedBatch>, usize))
    ensures
        res.0@.map_values(|b: PlannedBatch| batch_view(b)) == sorted_plan(kinds@),
        res.1 == distinct_keys(kinds@).len(),
{
    let keys = distinct_keys_of(kinds);
    let n = kinds.len();
    let mut plan: Vec<PlannedBatch> = Vec::new();
    for g in 0..keys.len()
        invariant
            n == kinds@.len(),
            keys@ == distinct_keys(kinds@),
            plan@.map_values(|b: PlannedBatch| batch_view(b)) == plan_upto(kinds@, keys@, g as int),
    {
        let key = keys[g];
        let ghost base = plan@.map_values(|b: PlannedBatch| batch_view(b));
        let quads = match key.draw_type {
            DrawType::SolidRect | DrawType::TexturedRect => true,
            _ => false,
        };
        if quads {
            let mut cur: Vec<usize> = Vec::new();
            let mut verts: usize = 0;
            for i in 0..n
                invariant
                    n == kinds@.len(),
                    keys@ == distinct_keys(kinds@),
                    key_has_quads(key),
                    verts == 4 * cur@.len(),
                    cur@.len() <= quads_per_batch(),
                    ({
                        let ch = chunks_of(indices_with_key(kinds@, key, i as int), quads_per_batch());
                        let mine = plan@.map_values(|b: PlannedBatch| batch_view(b));
                        &&& cur@.len() == 0 ==> ch.len() == 0 && mine == base
                        &&& cur@.len() > 0 ==> ch.len() > 0 && ch.last() == cur@ && mine == base
                            + ch.drop_last().map_values(|c: Seq<usize>| (key, c))
                    }),
            {
                let k = batch_key(kinds[i]);
                let ghost ch0 = chunks_of(indices_with_key(kinds@, key, i as int), quads_per_batch());
                let ghost mine0 = plan@.map_values(|b: PlannedBatch| batch_view(b));
                proof {
                    let s1 = indices_with_key(kinds@, key, i + 1);
                    if k == key {
                        assert(s1 == indices_with_key(kinds@, key, i as int).push(i));
                        assert(s1.drop_last() =~= indices_with_key(kinds@, key, i as int));
                    } else {
                        assert(s1 == indices_with_key(kinds@, key, i as int));
                    }
                }
                if k == key {
                    if verts >= BATCH_VERTEX_LIMIT {
                        let full = PlannedBatch { key, ops: cur };
                        plan.push(full);
                        cur = Vec::new();
                        verts = 0;
                        proof {
                            assert(plan@.map_values(|b: PlannedBatch| batch_view(b)) =~= mine0.push(
                                batch_view(full),
                            ));
                            let ch1 = chunks_of(
                                indices_with_key(kinds@, key, i + 1),
                                quads_per_batch(),
                            );
                            assert(ch1 == ch0.push(seq![i]));
                            assert(ch1.drop_last() == ch0);
                            assert(ch0 =~= ch0.drop_last().push(ch0.last()));
                            assert(ch1.drop_last().map_values(|c: Seq<usize>| (key, c))
                                =~= ch0.drop_last().map_values(|c: Seq<usize>| (key, c)).push(
                                (key, ch0.last()),
                            ));
                        }
                    }
                    let ghost cur0 = cur@;
                    let ghost mine1 = plan@.map_values(|b: PlannedBatch| batch_view(b));
                    cur.push(i);
                    verts = verts + 4;
                    proof {
                        let ch1 = chunks_of(indices_with_key(kinds@, key, i + 1), quads_per_batch());
                        if cur0.len() == 0 {
                            if ch0.len() == 0 {
                                assert(ch1 == ch0.push(seq![i]));
                                assert(ch1.drop_last() =~= Seq::<Seq<usize>>::empty());
                            } else {
                                assert(ch1 == ch0.push(seq![i]));
                                assert(ch1.drop_last() == ch0);
                                assert(ch0 =~= ch0.drop_last().push(ch0.last()));
                                assert(ch1.drop_last().map_values(|c: Seq<usize>| (key, c))
                                    =~= ch0.drop_last().map_values(|c: Seq<usize>| (key, c)).push(
                                    (key, ch0.last()),
                                ));
                            }
                            assert(cur@ =~= seq![i]);
                        } else {
                            assert(ch0.last().len() < quads_per_batch());
                            assert(ch1 == ch0.update(ch0.len() - 1, ch0.last().push(i)));
                            assert(ch1.drop_last() =~= ch0.drop_last());
                            assert(ch1.last() =~= cur@);
                        }
                    }
                } else {
                    proof {
                        let ch1 = chunks_of(indices_with_key(kinds@, key, i + 1), quads_per_batch());
                        assert(ch1 == ch0);
                    }
                }
            }
            let ghost mine0 = plan@.map_values(|b: PlannedBatch| batch_view(b));
            let ghost ch = chunks_of(indices_with_key(kinds@, key, n as int), quads_per_batch());
            if cur.len() > 0 {
                let last = PlannedBatch { key, ops: cur };
                plan.push(last);
                proof {
                    assert(plan@.map_values(|b: PlannedBatch| batch_view(b)) =~= mine0.push(
                        batch_view(last),
                    ));
                    assert(ch =~= ch.drop_last().push(ch.last()));
                    assert(ch.map_values(|c: Seq<usize>| (key, c)) =~= ch.drop_last().map_values(
                        |c: Seq<usize>| (key, c),
                    ).push((key, ch.last())));
                }
            }
            proof {
                assert(group_plan(kinds@, key) == ch.map_values(|c: Seq<usize>| (key, c)));
                assert(plan@.map_values(|b: PlannedBatch| batch_view(b)) =~= base + group_plan(
                    kinds@,
                    key,
                ));
            }
        } else {
            proof {
                assert(group_plan(kinds@, key) =~= Seq::<(BatchKey, Seq<usize>)>::empty());
                assert(base + group_plan(kinds@, key) =~= base);
            }
        }
        proof {
            assert(plan_upto(kinds@, keys@, g + 1) == plan_upto(kinds@, keys@, g as int)
                + group_plan(kinds@, keys@[g as int]));
        }
    }
    (plan, keys.len())
}

/// Places where a batch uses another texture than the batch before it.
pub open spec fn texture_switches(plan: Seq<PlannedBatch>) -> int
    decreases plan.len(),
{
    if plan.len() <= 1 {
        0
    } else {
        texture_switches(plan.drop_last()) + if plan.last().key.texture_id != plan[plan.len()
            - 2].key.texture_id {
            1int
        } else {
            0int
        }
    }
}

/// Texture switches a plan costs when its batches are drawn in order.
pub fn count_texture_switches(plan: &Vec<PlannedBatch>) -> (n: usize)
    ensures
        n == texture_switches(plan@),
{
    let mut n: usize = 0;
    let mut j: usize = 1;
    if plan.len() <= 1 {
        return 0;
    }
    while j < plan.len()
        invariant
            1 <= j <= plan@.len(),
            n == texture_switches(plan@.take(j as int)),
            n < j,
        decreases plan@.len() - j,
    {
        proof {
            let t1 = plan@.take(j + 1);
            assert(t1.drop_last() =~= plan@.take(j as int));
            assert(t1.last() == plan@[j as int]);
            assert(t1[t1.len() - 2] == plan@[j - 1]);
        }
        if plan[j].key.texture_id != plan[j - 1].key.texture_id {
            n = n + 1;
        }
        j = j + 1;
    }
    proof {
        assert(plan@.take(plan@.len() as int) =~= plan@);
    }
    n
}

// ---------------------------------------------------------------------------
// Laws
// ---------------------------------------------------------------------------

/// Cutting a sequence into pieces drops, repeats and reorders nothing, and
/// every piece holds between one and `size` elements. With the grouped
/// plan, each key's batches therefore hold that key's operations, each
/// once, in submission order, and no batch holds more than it may.
pub proof fn law_chunks_cover(s: Seq<usize>, size: nat)
    requires
        size > 0,
    ensures
        chunks_of(s, size).flatten_alt() == s,
        forall|j: int|
            0 <= j < chunks_of(s, size).len() ==> 0 < #[trigger] chunks_of(s, size)[j].len()
                <= size,
    decreases s.len(),
{
    if s.len() > 0 {
        let prev = chunks_of(s.drop_last(), size);
        law_chunks_cover(s.drop_last(), size);
        let c = chunks_of(s, size);
        if prev.len() > 0 && prev.last().len() < size {
            assert(c.drop_last() =~= prev.drop_last());
            assert(c.last() == prev.last().push(s.last()));
            assert(prev.flatten_alt() == prev.drop_last().flatten_alt() + prev.last());
            assert(c.flatten_alt() == c.drop_last().flatten_alt() + c.last());
            assert(prev.drop_last().flatten_alt() + prev.last().push(s.last()) =~= (
            prev.drop_last().flatten_alt() + prev.last()).push(s.last()));
            assert(s =~= s.drop_last().push(s.last()));
            assert(c.flatten_alt() =~= s);
            assert forall|j: int| 0 <= j < c.len() implies 0 < #[trigger] c[j].len() <= size by {
                if j < c.len() - 1 {
                    assert(c[j] == prev[j]);
                }
            }
        } else {
            assert(c.drop_last() =~= prev);
            assert(c.flatten_alt() == c.drop_last().flatten_alt() + c.last());
            assert(c.flatten_alt() =~= s);
            assert forall|j: int| 0 <= j < c.len() implies 0 < #[trigger] c[j].len() <= size by {
                if j < c.len() - 1 {
                    assert(c[j] == prev[j]);
                }
            }
        }
    }
}

/// The indices collected for `key` are operations of `kinds` with that key.
proof fn lemma_indices_with_key(kinds: Seq<DrawOpKind>, key: BatchKey, n: int)
    requires
        n <= kinds.len(),
        kinds.len() <= usize::MAX,
    ensures
        forall|i: int|
            0 <= i < indices_with_key(kinds, key, n).len() ==> {
                &&& (#[trigger] indices_with_key(kinds, key, n)[i] as int) < kinds.len()
                &&& key_of(kinds[indices_with_key(kinds, key, n)[i] as int]) == key
            },
    decreases n,
{
    if n > 0 {
        lemma_indices_with_key(kinds, key, n - 1);
        let prev = indices_with_key(kinds, key, n - 1);
        if key_of(kinds[n - 1]) == key {
            let last = (n - 1) as usize;
            assert(last as int == n - 1);
            assert(indices_with_key(kinds, key, n) == prev.push(last));
            assert forall|i: int| 0 <= i < prev.len() implies #[trigger] prev.push(last)[i] == prev[i] by {}
        }
    }
}

/// Every element of every piece of `chunks_of(s, size)` is an element of
/// `s` at some position.
proof fn lemma_chunk_elems(s: Seq<usize>, size: nat)
    ensures
        forall|c: int, k: int|
            0 <= c < chunks_of(s, size).len() && 0 <= k < chunks_of(s, size)[c].len() ==> exists|i: int|
                0 <= i < s.len() && s[i] == #[trigger] chunks_of(s, size)[c][k],
    decreases s.len(),
{
    if s.len() > 0 {
        let t = s.drop_last();
        lemma_chunk_elems(t, size);
        let prev = chunks_of(t, size);
        let ch = chunks_of(s, size);
        assert forall|c: int, k: int|
            0 <= c < ch.len() && 0 <= k < ch[c].len() implies exists|i: int|
                0 <= i < s.len() && s[i] == #[trigger] ch[c][k] by {
            let n = s.len() - 1;
            if prev.len() > 0 && prev.last().len() < size {
                if c == prev.len() - 1 && k == prev.last().len() {
                    assert(s[n] == ch[c][k]);
                } else {
                    assert(ch[c][k] == prev[c][k]);
                    let i = choose|i: int| 0 <= i < t.len() && t[i] == prev[c][k];
                    assert(s[i] == t[i]);
                }
            } else {
                if c == prev.len() {
                    assert(s[n] == ch[c][k]);
                } else {
                    assert(ch[c][k] == prev[c][k]);
                    let i = choose|i: int| 0 <= i < t.len() && t[i] == prev[c][k];
                    assert(s[i] == t[i]);
                }
            }
        }
    }
}

/// Every batch of `plan_upto` is a quad batch: its key draws rects or
/// images, and each of its operations is a `FillRect` or `DrawImage` of
/// that key.
proof fn lemma_plan_upto_quads(kinds: Seq<DrawOpKind>, keys: Seq<BatchKey>, g: int)
    requires
        g <= keys.len(),
        kinds.len() <= usize::MAX,
    ensures
        forall|b: int|
            0 <= b < plan_upto(kinds, keys, g).len() ==> grouped_batch_ok(
                kinds,
                #[trigger] plan_upto(kinds, keys, g)[b],
            ),
    decreases g,
{
    if g > 0 {
        lemma_plan_upto_quads(kinds, keys, g - 1);
        let prev = plan_upto(kinds, keys, g - 1);
        let key = keys[g - 1];
        let grp = group_plan(kinds, key);
        let all = plan_upto(kinds, keys, g);
        assert(all == prev + grp);
        if key_has_quads(key) {
            let idx = indices_with_key(kinds, key, kinds.len() as int);
            let ch = chunks_of(idx, quads_per_batch());
            lemma_indices_with_key(kinds, key, kinds.len() as int);
            lemma_chunk_elems(idx, quads_per_batch());
            assert forall|b: int| 0 <= b < grp.len() implies grouped_batch_ok(kinds, #[trigger] grp[b]) by {
                assert(grp[b] == (key, ch[b]));
                assert forall|k: int| 0 <= k < ch[b].len() implies {
                    &&& (#[trigger] ch[b][k] as int) < kinds.len()
                    &&& (kinds[ch[b][k] as int] is FillRect || kinds[ch[b][k] as int] is DrawImage)
                    &&& key_of(kinds[ch[b][k] as int]) == key
                } by {
                    let i = choose|i: int| 0 <= i < idx.len() && idx[i] == ch[b][k];
                    assert(key_of(kinds[idx[i] as int]) == key);
                }
            }
        } else {
            assert(grp =~= Seq::<(BatchKey, Seq<usize>)>::empty());
        }
        assert forall|b: int| 0 <= b < all.len() implies grouped_batch_ok(kinds, #[trigger] all[b]) by {
            if b < prev.len() {
                assert(all[b] == prev[b]);
            } else {
                assert(all[b] == grp[b - prev.len()]);
            }
        }
    }
}

/// A batch of the grouped plan draws quads: its key is for solid or
/// textured rects, and every operation in it is a `FillRect` or a
/// `DrawImage` with that key.
pub open spec fn grouped_batch_ok(kinds: Seq<DrawOpKind>, b: (BatchKey, Seq<usize>)) -> bool {
    &&& (b.0.draw_type == DrawType::SolidRect || b.0.draw_type == DrawType::TexturedRect)
    &&& forall|k: int|
        0 <= k < b.1.len() ==> {
            &&& (#[trigger] b.1[k] as int) < kinds.len()
            &&& (kinds[b.1[k] as int] is FillRect || kinds[b.1[k] as int] is DrawImage)
            &&& key_of(kinds[b.1[k] as int]) == b.0
        }
}

/// The grouped plan only holds quad batches: text and path operations add
/// no quads and never get a batch, and every batch holds only rect or
/// image operations of its own key.
pub proof fn law_grouped_plan_has_only_quad_batches(kinds: Seq<DrawOpKind>)
    requires
        kinds.len() <= usize::MAX,
    ensures
        forall|b: int| 0 <= b < sorted_plan(kinds).len() ==> {
            let batch = #[trigger] sorted_plan(kinds)[b];
            &&& (batch.0.draw_type == DrawType::SolidRect || batch.0.draw_type == DrawType::TexturedRect)
            &&& forall|k: int|
                0 <= k < batch.1.len() ==> {
                    &&& (#[trigger] batch.1[k] as int) < kinds.len()
                    &&& (kinds[batch.1[k] as int] is FillRect || kinds[batch.1[k] as int] is DrawImage)
                }
        },
{
    lemma_plan_upto_quads(kinds, distinct_keys(kinds), distinct_keys(kinds).len() as int);
    assert forall|b: int| 0 <= b < sorted_plan(kinds).len() implies grouped_batch_ok(kinds, #[trigger] sorted_plan(kinds)[b]) by {}
}

/// The operations of the first `m` batches of an order-preserving plan are
/// `0 .. end`, in order.
proof fn lemma_preserving_prefix(kinds: Seq<DrawOpKind>, plan: Seq<PlannedBatch>, m: int)
    requires
        is_preserving_plan(kinds, plan),
        0 < m <= plan.len(),
    ensures
        plan.take(m).map_values(|b: PlannedBatch| b.ops@).flatten_alt() == Seq::new(
            end_op(plan[m - 1]) as nat,
            |i: int| i as usize,
        ),
    decreases m,
{
    let pre = plan.take(m).map_values(|b: PlannedBatch| b.ops@);
    let b = plan[m - 1];
    assert(run_ok(kinds, b));
    assert(pre.drop_last() =~= plan.take(m - 1).map_values(|b: PlannedBatch| b.ops@));
    assert(pre.last() == b.ops@);
    if m == 1 {
        assert(pre.drop_last() =~= Seq::<Seq<usize>>::empty());
        assert(first_op(plan[0]) == 0);
    } else {
        lemma_preserving_prefix(kinds, plan, m - 1);
        assert(first_op(plan[(m - 2) + 1]) == end_op(plan[m - 2]));
    }
    assert(pre.flatten_alt() == pre.drop_last().flatten_alt() + pre.last());
    assert(pre.flatten_alt() =~= Seq::new(end_op(b) as nat, |i: int| i as usize)) by {
        assert forall|i: int| 0 <= i < end_op(b) implies #[trigger] pre.flatten_alt()[i] == i as usize by {
            if i >= first_op(b) {
                let t = i - first_op(b);
                assert(b.ops@[t] == b.ops@[0] + t);
            }
        }
    }
}

/// An order-preserving plan lists every operation exactly once, in
/// submission order: its batches concatenated are `0 .. n`.
pub proof fn law_preserving_plan_is_submission_order(kinds: Seq<DrawOpKind>, plan: Seq<PlannedBatch>)
    requires
        is_preserving_plan(kinds, plan),
    ensures
        plan.map_values(|b: PlannedBatch| b.ops@).flatten_alt() == Seq::new(
            kinds.len(),
            |i: int| i as usize,
        ),
{
    if plan.len() == 0 {
        assert(plan.map_values(|b: PlannedBatch| b.ops@) =~= Seq::<Seq<usize>>::empty());
        assert(Seq::new(kinds.len(), |i: int| i as usize) =~= Seq::<usize>::empty());
    } else {
        lemma_preserving_prefix(kinds, plan, plan.len() as int);
        assert(plan.take(plan.len() as int) =~= plan);
    }
}

} // verus!
