//! Per-frame damage tracking for partial presents.
//!
//! `DamageTracker` accumulates up to `MAX_DAMAGE_RECTS` dirty rectangles
//! per frame and resolves them, clipped to the surface, either to a single
//! bounding box or to the list of clipped rectangles.  `DamageHistory`
//! keeps the resolved damage of recent frames so that a back buffer of a
//! given age can be repaired.

use smallvec::SmallVec;
use std::collections::VecDeque;
use vstd::prelude::*;

verus! {

/// A rectangle `(x, y, width, height)` in surface pixels.
pub type Rect4 = (i32, i32, i32, i32);

/// Maximum number of discrete dirty rectangles kept before the tracker
/// collapses them to a single bounding box.
pub const MAX_DAMAGE_RECTS: usize = 4;

/// A frame's dirty rectangles, stored inline up to the cap.
#[verifier::external_body]
pub struct DamageRects {
    inner: SmallVec<[(i32, i32, i32, i32); 4]>,
}

/// The rectangles a damage list holds, in insertion order.
pub uninterp spec fn damage_rect_items(v: DamageRects) -> Seq<Rect4>;

impl DamageRects {
    /// `SmallVec::new`: an empty list.
    #[verifier::external_body]
    fn new() -> (v: DamageRects)
        ensures
            damage_rect_items(v) == Seq::<Rect4>::empty(),
    {
        DamageRects { inner: SmallVec::new() }
    }

    /// `SmallVec::push`: appends one rectangle at the end.
    #[verifier::external_body]
    fn push(&mut self, r: Rect4)
        requires
            damage_rect_items(*old(self)).len() < usize::MAX,
        ensures
            damage_rect_items(*final(self)) == damage_rect_items(*old(self)).push(r),
    {
        self.inner.push(r)
    }

    /// `SmallVec::clear`: removes every rectangle.
    #[verifier::external_body]
    fn clear(&mut self)
        ensures
            damage_rect_items(*final(self)) == Seq::<Rect4>::empty(),
    {
        self.inner.clear()
    }

    /// `SmallVec::as_slice`: the held rectangles as a slice, in order.
    #[verifier::external_body]
    pub fn as_slice(&self) -> (s: &[Rect4])
        ensures
            s@ == damage_rect_items(*self),
    {
        self.inner.as_slice()
    }

    /// Number of rectangles held.
    pub fn len(&self) -> (n: usize)
        ensures
            n == damage_rect_items(*self).len(),
    {
        self.as_slice().len()
    }
}

/// Result of resolving a frame's damage.
#[derive(Debug, Clone, Copy, PartialEq, Eq, Structural)]
pub enum ResolvedDamage {
    FullSurface,
    Partial { x: i32, y: i32, width: i32, height: i32 },
}

pub open spec fn imin(a: int, b: int) -> int {
    if a <= b { a } else { b }
}

pub open spec fn imax(a: int, b: int) -> int {
    if a >= b { a } else { b }
}

pub open spec fn fits_i32(v: int) -> bool {
    i32::MIN <= v <= i32::MAX
}

/// Edges `(left, top, right, bottom)` of a rectangle, as integers.
pub open spec fn rect_edges(r: Rect4) -> (int, int, int, int) {
    (r.0 as int, r.1 as int, r.0 + r.2, r.1 + r.3)
}

/// Edges of the smallest box that contains both edge tuples.
pub open spec fn union_edges(a: (int, int, int, int), b: (int, int, int, int)) -> (
    int,
    int,
    int,
    int,
) {
    (imin(a.0, b.0), imin(a.1, b.1), imax(a.2, b.2), imax(a.3, b.3))
}

/// Edges of the bounding box of a non-empty sequence of rectangles.
pub open spec fn seq_edges(s: Seq<Rect4>) -> (int, int, int, int)
    decreases s.len(),
{
    if s.len() <= 1 {
        rect_edges(s[0])
    } else {
        union_edges(seq_edges(s.drop_last()), rect_edges(s.last()))
    }
}

/// The rectangle `(x, y, width, height)` with the given edges.
pub open spec fn edges_rect(e: (int, int, int, int)) -> Rect4 {
    (e.0 as i32, e.1 as i32, (e.2 - e.0) as i32, (e.3 - e.1) as i32)
}

/// Every rectangle's right and bottom edge is representable.
pub open spec fn corners_fit(s: Seq<Rect4>) -> bool {
    forall|i: int| 0 <= i < s.len() ==> fits_i32(#[trigger] s[i].0 + s[i].2) && fits_i32(s[i].1 + s[i].3)
}

/// The width and height of edges are representable.
pub open spec fn extent_fits(e: (int, int, int, int)) -> bool {
    fits_i32(e.2 - e.0) && fits_i32(e.3 - e.1)
}

/// The bounding box of `s` can be computed without overflow.
pub open spec fn aabb_computable(s: Seq<Rect4>) -> bool {
    corners_fit(s) && (s.len() > 0 ==> extent_fits(seq_edges(s)))
}

/// The bounding box of a list of rectangles, `None` when it is empty.
pub open spec fn aabb_spec(s: Seq<Rect4>) -> Option<Rect4> {
    if s.len() == 0 {
        None
    } else {
        Some(edges_rect(seq_edges(s)))
    }
}

/// Edges of the box that covers `extra` and every rectangle of `existing`.
pub open spec fn collapse_edges(existing: Seq<Rect4>, extra: Rect4) -> (int, int, int, int) {
    if existing.len() == 0 {
        rect_edges(extra)
    } else {
        union_edges(rect_edges(extra), seq_edges(existing))
    }
}

/// `extra` and `existing` can be collapsed without overflow.
pub open spec fn collapse_computable(existing: Seq<Rect4>, extra: Rect4) -> bool {
    corners_fit(existing) && corners_fit(seq![extra]) && extent_fits(
        collapse_edges(existing, extra),
    )
}

proof fn lemma_take_all(s: Seq<Rect4>)
    ensures
        s.take(s.len() as int) == s,
{
    assert(s.take(s.len() as int) =~= s);
}

/// Compute the bounding box of a list of rectangles; `None` when it is
/// empty.
pub fn dirty_aabb(rects: &[Rect4]) -> (r: Option<Rect4>)
    requires
        aabb_computable(rects@),
    ensures
        r == aabb_spec(rects@),
{
    if rects.len() == 0 {
        return None;
    }
    let (x0, y0, w0, h0) = rects[0];
    assert(fits_i32(rects@[0].0 + rects@[0].2));
    let mut left: i32 = x0;
    let mut top: i32 = y0;
    let mut right: i32 = x0 + w0;
    let mut bottom: i32 = y0 + h0;
    let mut i: usize = 1;
    assert(rects@.take(1).len() == 1);
    while i < rects.len()
        invariant
            1 <= i <= rects@.len(),
            corners_fit(rects@),
            (left as int, top as int, right as int, bottom as int) == seq_edges(
                rects@.take(i as int),
            ),
        decreases rects@.len() - i,
    {
        let (x, y, w, h) = rects[i];
        assert(fits_i32(rects@[i as int].0 + rects@[i as int].2));
        if x < left {
            left = x;
        }
        if y < top {
            top = y;
        }
        if x + w > right {
            right = x + w;
        }
        if y + h > bottom {
            bottom = y + h;
        }
        assert(rects@.take(i as int + 1).drop_last() =~= rects@.take(i as int));
        i = i + 1;
    }
    proof {
        lemma_take_all(rects@);
    }
    Some((left, top, right - left, bottom - top))
}

/// Collapse a full dirty list plus one extra rectangle into a single
/// bounding box.
pub fn collapse_to_aabb(existing: &[Rect4], extra: Rect4) -> (r: Rect4)
    requires
        collapse_computable(existing@, extra),
    ensures
        r == edges_rect(collapse_edges(existing@, extra)),
{
    let (ex, ey, ew, eh) = extra;
    assert(fits_i32(seq![extra][0].0 + seq![extra][0].2));
    let mut left: i32 = ex;
    let mut top: i32 = ey;
    let mut right: i32 = ex + ew;
    let mut bottom: i32 = ey + eh;
    let mut i: usize = 0;
    while i < existing.len()
        invariant
            0 <= i <= existing@.len(),
            corners_fit(existing@),
            (left as int, top as int, right as int, bottom as int) == (if i == 0 {
                rect_edges(extra)
            } else {
                union_edges(rect_edges(extra), seq_edges(existing@.take(i as int)))
            }),
        decreases existing@.len() - i,
    {
        let (x, y, w, h) = existing[i];
        assert(fits_i32(existing@[i as int].0 + existing@[i as int].2));
        if x < left {
            left = x;
        }
        if y < top {
            top = y;
        }
        if x + w > right {
            right = x + w;
        }
        if y + h > bottom {
            bottom = y + h;
        }
        assert(existing@.take(i as int + 1).drop_last() =~= existing@.take(i as int));
        i = i + 1;
    }
    proof {
        lemma_take_all(existing@);
    }
    (left, top, right - left, bottom - top)
}

/// The damage that `resolve` reports for a tracker in the given state.
pub open spec fn resolve_spec(force_full: bool, size: (i32, i32), rects: Seq<Rect4>) -> ResolvedDamage {
    let (sw, sh) = size;
    if force_full || sw <= 0 || sh <= 0 || rects.len() == 0 {
        ResolvedDamage::FullSurface
    } else {
        let e = seq_edges(rects);
        let left = imax(e.0, 0);
        let top = imax(e.1, 0);
        let right = imin(e.2, sw as int);
        let bottom = imin(e.3, sh as int);
        if left >= right || top >= bottom {
            ResolvedDamage::FullSurface
        } else if right - left >= sw && bottom - top >= sh {
            ResolvedDamage::FullSurface
        } else {
            ResolvedDamage::Partial {
                x: left as i32,
                y: top as i32,
                width: (right - left) as i32,
                height: (bottom - top) as i32,
            }
        }
    }
}

/// One rectangle clipped to the surface; `None` when nothing is left.
pub open spec fn clip_rect(r: Rect4, sw: i32, sh: i32) -> Option<Rect4> {
    let left = imax(r.0 as int, 0);
    let top = imax(r.1 as int, 0);
    let right = imin(r.0 + r.2, sw as int);
    let bottom = imin(r.1 + r.3, sh as int);
    if left >= right || top >= bottom {
        None
    } else {
        Some((left as i32, top as i32, (right - left) as i32, (bottom - top) as i32))
    }
}

/// Every rectangle clipped to the surface, empty results dropped, order kept.
pub open spec fn clip_all(s: Seq<Rect4>, sw: i32, sh: i32) -> Seq<Rect4>
    decreases s.len(),
{
    if s.len() == 0 {
        Seq::empty()
    } else {
        let prefix = clip_all(s.drop_last(), sw, sh);
        match clip_rect(s.last(), sw, sh) {
            Some(c) => prefix.push(c),
            None => prefix,
        }
    }
}

/// Some rectangle of `s` covers the whole `sw` x `sh` surface.
pub open spec fn some_covers(s: Seq<Rect4>, sw: i32, sh: i32) -> bool {
    exists|i: int| 0 <= i < s.len() && #[trigger] s[i].2 >= sw && s[i].3 >= sh
}

/// The rectangles that `resolve_rects` reports for a tracker in the given
/// state.
pub open spec fn resolve_rects_spec(force_full: bool, size: (i32, i32), rects: Seq<Rect4>) -> Option<
    Seq<Rect4>,
> {
    let (sw, sh) = size;
    if force_full || sw <= 0 || sh <= 0 || rects.len() == 0 {
        None
    } else {
        let out = clip_all(rects, sw, sh);
        if out.len() == 0 || some_covers(out, sw, sh) {
            None
        } else {
            Some(out)
        }
    }
}

/// Clipped rectangles lie inside the surface and are not empty.
proof fn lemma_clip_all_inside(s: Seq<Rect4>, sw: i32, sh: i32)
    requires
        corners_fit(s),
    ensures
        clip_all(s, sw, sh).len() <= s.len(),
        forall|i: int|
            0 <= i < clip_all(s, sw, sh).len() ==> {
                let c = #[trigger] clip_all(s, sw, sh)[i];
                &&& 0 <= c.0
                &&& 0 <= c.1
                &&& c.2 > 0
                &&& c.3 > 0
                &&& c.0 + c.2 <= sw
                &&& c.1 + c.3 <= sh
            },
    decreases s.len(),
{
    if s.len() > 0 {
        assert(corners_fit(s.drop_last())) by {
            assert forall|i: int| 0 <= i < s.drop_last().len() implies fits_i32(
                #[trigger] s.drop_last()[i].0 + s.drop_last()[i].2,
            ) && fits_i32(s.drop_last()[i].1 + s.drop_last()[i].3) by {
                assert(s.drop_last()[i] == s[i]);
            }
        }
        lemma_clip_all_inside(s.drop_last(), sw, sh);
        assert(fits_i32(s[s.len() - 1].0 + s[s.len() - 1].2));
    }
}

/// Tracks one frame's damage.
pub struct DamageTracker {
    surface_size: (i32, i32),
    dirty: DamageRects,
    force_full: bool,
    collapsed: bool,
}

impl DamageTracker {
    /// The dirty rectangles recorded so far, in order.
    pub closed spec fn rects(&self) -> Seq<Rect4> {
        damage_rect_items(self.dirty)
    }

    /// The surface size the tracker clips against.
    pub closed spec fn size(&self) -> (i32, i32) {
        self.surface_size
    }

    /// Whether the frame was marked as needing a full redraw.
    pub closed spec fn forces_full(&self) -> bool {
        self.force_full
    }

    /// Whether the rectangles overflowed the cap and were collapsed into one
    /// bounding box; later rectangles then grow that box.
    pub closed spec fn is_collapsed(&self) -> bool {
        self.collapsed
    }

    /// At most `MAX_DAMAGE_RECTS` rectangles, each with a positive size;
    /// exactly one once collapsed.
    pub closed spec fn wf(&self) -> bool {
        &&& self.collapsed ==> damage_rect_items(self.dirty).len() == 1
        &&& damage_rect_items(self.dirty).len() <= MAX_DAMAGE_RECTS
        &&& forall|i: int|
            0 <= i < damage_rect_items(self.dirty).len() ==> #[trigger] damage_rect_items(
                self.dirty,
            )[i].2 > 0 && damage_rect_items(self.dirty)[i].3 > 0
    }

    pub fn new(surface_size: (i32, i32)) -> (t: Self)
        ensures
            t.wf(),
            t.size() == surface_size,
            t.rects() == Seq::<Rect4>::empty(),
            !t.forces_full(),
            !t.is_collapsed(),
    {
        DamageTracker { surface_size, dirty: DamageRects::new(), force_full: false, collapsed: false }
    }

    /// Record a dirty rectangle.  Rectangles with a non-positive width or
    /// height are ignored.  Below the cap the rectangle is appended; at the
    /// cap every rectangle, the new one included, collapses into their
    /// bounding box.  Overflow is sticky: once collapsed, every later
    /// rectangle is unioned into that single box.
    pub fn mark_rect(&mut self, rect: Rect4)
        requires
            old(self).wf(),
            rect.2 > 0 && rect.3 > 0 && (old(self).is_collapsed() || old(self).rects().len()
                >= MAX_DAMAGE_RECTS) ==> collapse_computable(old(self).rects(), rect),
        ensures
            final(self).wf(),
            final(self).size() == old(self).size(),
            final(self).forces_full() == old(self).forces_full(),
            final(self).rects() == (if rect.2 <= 0 || rect.3 <= 0 {
                old(self).rects()
            } else if !old(self).is_collapsed() && old(self).rects().len() < MAX_DAMAGE_RECTS {
                old(self).rects().push(rect)
            } else {
                seq![edges_rect(collapse_edges(old(self).rects(), rect))]
            }),
            final(self).is_collapsed() == (old(self).is_collapsed() || (rect.2 > 0 && rect.3 > 0
                && old(self).rects().len() >= MAX_DAMAGE_RECTS)),
    {
        let (_x, _y, width, height) = rect;
        if width <= 0 || height <= 0 {
            return ;
        }
        let len = self.dirty.as_slice().len();
        if !self.collapsed && len < MAX_DAMAGE_RECTS {
            let ghost before = damage_rect_items(self.dirty);
            self.dirty.push(rect);
            assert(forall|i: int| 0 <= i < before.len() ==> before.push(rect)[i] == before[i]);
            return ;
        }
        let collapsed = collapse_to_aabb(self.dirty.as_slice(), rect);
        proof {
            let ex = damage_rect_items(self.dirty);
            let e = collapse_edges(ex, rect);
            assert(ex.len() > 0);
            assert(e.2 > e.0 && e.3 > e.1) by {
                assert(ex[0].2 > 0 && ex[0].3 > 0);
                lemma_seq_edges_nonempty(ex);
            }
        }
        self.dirty.clear();
        self.dirty.push(collapsed);
        self.collapsed = true;
    }

    /// Mark the whole frame as needing a full redraw.
    pub fn mark_requires_full_redraw(&mut self)
        requires
            old(self).wf(),
        ensures
            final(self).wf(),
            final(self).size() == old(self).size(),
            final(self).rects() == old(self).rects(),
            final(self).forces_full(),
    {
        self.force_full = true;
    }

    /// The damage of the frame as one box clipped to the surface.
    pub fn resolve(&self) -> (r: ResolvedDamage)
        requires
            !self.forces_full() && self.size().0 > 0 && self.size().1 > 0 ==> aabb_computable(
                self.rects(),
            ),
        ensures
            r == resolve_spec(self.forces_full(), self.size(), self.rects()),
    {
        if self.force_full {
            return ResolvedDamage::FullSurface;
        }
        let (surface_width, surface_height) = self.surface_size;
        if surface_width <= 0 || surface_height <= 0 {
            return ResolvedDamage::FullSurface;
        }
        proof {
            if self.rects().len() > 0 {
                lemma_seq_edges_fit(self.rects());
            }
        }
        let aabb = dirty_aabb(self.dirty.as_slice());
        let (x, y, width, height) = match aabb {
            Some(b) => b,
            None => {
                return ResolvedDamage::FullSurface;
            },
        };
        let left = if x > 0 { x } else { 0 };
        let top = if y > 0 { y } else { 0 };
        let right = if x + width < surface_width { x + width } else { surface_width };
        let bottom = if y + height < surface_height { y + height } else { surface_height };
        if left >= right || top >= bottom {
            return ResolvedDamage::FullSurface;
        }
        let width = right - left;
        let height = bottom - top;
        if width >= surface_width && height >= surface_height {
            return ResolvedDamage::FullSurface;
        }
        ResolvedDamage::Partial { x: left, y: top, width, height }
    }

    /// The recorded rectangles clipped to the surface, or `None` when the
    /// frame needs a full redraw.
    pub fn resolve_rects(&self) -> (r: Option<DamageRects>)
        requires
            self.wf(),
            !self.forces_full() ==> corners_fit(self.rects()),
        ensures
            r is Some == resolve_rects_spec(self.forces_full(), self.size(), self.rects()) is Some,
            r is Some ==> damage_rect_items(r->0) == resolve_rects_spec(
                self.forces_full(),
                self.size(),
                self.rects(),
            )->0,
    {
        if self.force_full {
            return None;
        }
        let (surface_width, surface_height) = self.surface_size;
        let rects = self.dirty.as_slice();
        if surface_width <= 0 || surface_height <= 0 || rects.len() == 0 {
            return None;
        }
        let mut out = DamageRects::new();
        let mut i: usize = 0;
        while i < rects.len()
            invariant
                0 <= i <= rects@.len(),
                rects@.len() <= MAX_DAMAGE_RECTS,
                corners_fit(rects@),
                damage_rect_items(out) == clip_all(rects@.take(i as int), surface_width, surface_height),
            decreases rects@.len() - i,
        {
            let (x, y, w, h) = rects[i];
            assert(fits_i32(rects@[i as int].0 + rects@[i as int].2));
            assert(rects@.take(i as int + 1).drop_last() =~= rects@.take(i as int));
            proof {
                lemma_clip_all_len(rects@.take(i as int), surface_width, surface_height);
            }
            let left = if x > 0 { x } else { 0 };
            let top = if y > 0 { y } else { 0 };
            let right = if x + w < surface_width { x + w } else { surface_width };
            let bottom = if y + h < surface_height { y + h } else { surface_height };
            if !(left >= right || top >= bottom) {
                out.push((left, top, right - left, bottom - top));
            }
            i = i + 1;
        }
        proof {
            lemma_take_all(rects@);
        }
        let clipped = out.as_slice();
        if clipped.len() == 0 {
            return None;
        }
        let mut j: usize = 0;
        while j < clipped.len()
            invariant
                0 <= j <= clipped@.len(),
                clipped@ == clip_all(self.rects(), surface_width, surface_height),
                self.size() == (surface_width, surface_height),
                forall|k: int| 0 <= k < j ==> !(#[trigger] clipped@[k].2 >= surface_width && clipped@[k].3 >= surface_height),
            decreases clipped@.len() - j,
        {
            let (_cx, _cy, cw, ch) = clipped[j];
            if cw >= surface_width && ch >= surface_height {
                assert(clipped@[j as int].2 >= surface_width && clipped@[j as int].3 >= surface_height);
                return None;
            }
            j = j + 1;
        }
        Some(out)
    }
}

/// The edges of a bounding box are edges of its rectangles, so they are
/// representable when every corner is.
proof fn lemma_seq_edges_fit(s: Seq<Rect4>)
    requires
        s.len() > 0,
        corners_fit(s),
    ensures
        fits_i32(seq_edges(s).0),
        fits_i32(seq_edges(s).1),
        fits_i32(seq_edges(s).2),
        fits_i32(seq_edges(s).3),
    decreases s.len(),
{
    if s.len() > 1 {
        assert(corners_fit(s.drop_last())) by {
            assert forall|i: int| 0 <= i < s.drop_last().len() implies fits_i32(
                #[trigger] s.drop_last()[i].0 + s.drop_last()[i].2,
            ) && fits_i32(s.drop_last()[i].1 + s.drop_last()[i].3) by {
                assert(s.drop_last()[i] == s[i]);
            }
        }
        lemma_seq_edges_fit(s.drop_last());
        assert(fits_i32(s[s.len() - 1].0 + s[s.len() - 1].2));
    } else {
        assert(fits_i32(s[0].0 + s[0].2));
    }
}

proof fn lemma_clip_all_len(s: Seq<Rect4>, sw: i32, sh: i32)
    ensures
        clip_all(s, sw, sh).len() <= s.len(),
    decreases s.len(),
{
    if s.len() > 0 {
        lemma_clip_all_len(s.drop_last(), sw, sh);
    }
}

/// A bounding box of positive-size rectangles has positive extent.
proof fn lemma_seq_edges_nonempty(s: Seq<Rect4>)
    requires
        s.len() > 0,
        forall|i: int| 0 <= i < s.len() ==> #[trigger] s[i].2 > 0 && s[i].3 > 0,
    ensures
        seq_edges(s).2 > seq_edges(s).0,
        seq_edges(s).3 > seq_edges(s).1,
    decreases s.len(),
{
    if s.len() > 1 {
        assert forall|i: int| 0 <= i < s.drop_last().len() implies #[trigger] s.drop_last()[i].2 > 0
            && s.drop_last()[i].3 > 0 by {
            assert(s.drop_last()[i] == s[i]);
        }
        lemma_seq_edges_nonempty(s.drop_last());
        assert(s.last().2 > 0 && s.last().3 > 0);
    } else {
        assert(s[0].2 > 0 && s[0].3 > 0);
    }
}

/// The union of two resolved damages: `FullSurface` absorbs everything,
/// two partial boxes give their bounding box.
pub open spec fn union_damage_spec(a: ResolvedDamage, b: ResolvedDamage) -> ResolvedDamage {
    match (a, b) {
        (
            ResolvedDamage::Partial { x: ax, y: ay, width: aw, height: ah },
            ResolvedDamage::Partial { x: bx, y: by, width: bw, height: bh },
        ) => {
            let left = imin(ax as int, bx as int);
            let top = imin(ay as int, by as int);
            let right = imax(ax + aw, bx + bw);
            let bottom = imax(ay + ah, by + bh);
            ResolvedDamage::Partial {
                x: left as i32,
                y: top as i32,
                width: (right - left) as i32,
                height: (bottom - top) as i32,
            }
        },
        _ => ResolvedDamage::FullSurface,
    }
}

/// `union_damage(a, b)` computes without overflow.
pub open spec fn union_computable(a: ResolvedDamage, b: ResolvedDamage) -> bool {
    match (a, b) {
        (
            ResolvedDamage::Partial { x: ax, y: ay, width: aw, height: ah },
            ResolvedDamage::Partial { x: bx, y: by, width: bw, height: bh },
        ) => {
            &&& fits_i32(ax + aw)
            &&& fits_i32(ay + ah)
            &&& fits_i32(bx + bw)
            &&& fits_i32(by + bh)
            &&& fits_i32(imax(ax + aw, bx + bw) - imin(ax as int, bx as int))
            &&& fits_i32(imax(ay + ah, by + bh) - imin(ay as int, by as int))
        },
        _ => true,
    }
}

/// Union two resolved damages.  If either is `FullSurface`, the result is
/// `FullSurface`.
pub fn union_damage(a: ResolvedDamage, b: ResolvedDamage) -> (r: ResolvedDamage)
    requires
        union_computable(a, b),
    ensures
        r == union_damage_spec(a, b),
{
    match (a, b) {
        (
            ResolvedDamage::Partial { x: ax, y: ay, width: aw, height: ah },
            ResolvedDamage::Partial { x: bx, y: by, width: bw, height: bh },
        ) => {
            let left = if ax < bx { ax } else { bx };
            let top = if ay < by { ay } else { by };
            let right = if ax + aw > bx + bw { ax + aw } else { bx + bw };
            let bottom = if ay + ah > by + bh { ay + ah } else { by + bh };
            ResolvedDamage::Partial { x: left, y: top, width: right - left, height: bottom - top }
        },
        _ => ResolvedDamage::FullSurface,
    }
}

/// Folding `union_damage` over `s` from the first entry to the last,
/// starting at `acc`.
pub open spec fn fold_union(acc: ResolvedDamage, s: Seq<ResolvedDamage>) -> ResolvedDamage
    decreases s.len(),
{
    if s.len() == 0 {
        acc
    } else {
        union_damage_spec(fold_union(acc, s.drop_last()), s.last())
    }
}

/// Every step of `fold_union(acc, s)` computes without overflow.
pub open spec fn fold_computable(acc: ResolvedDamage, s: Seq<ResolvedDamage>) -> bool
    decreases s.len(),
{
    if s.len() == 0 {
        true
    } else {
        fold_computable(acc, s.drop_last()) && union_computable(
            fold_union(acc, s.drop_last()),
            s.last(),
        )
    }
}

/// Number of historical frames kept: triple buffering plus one margin.
pub const MAX_HISTORY: usize = 4;

/// The damage a back buffer of age `buffer_age` needs, given this frame's
/// damage and the history of previous frames (oldest first).
pub open spec fn resolve_with_age_spec(
    ring: Seq<ResolvedDamage>,
    current: ResolvedDamage,
    buffer_age: i32,
) -> ResolvedDamage {
    if buffer_age <= 0 {
        ResolvedDamage::FullSurface
    } else if buffer_age == 1 {
        current
    } else if buffer_age - 1 > ring.len() {
        ResolvedDamage::FullSurface
    } else {
        fold_union(current, ring.subrange(ring.len() - (buffer_age - 1), ring.len() as int))
    }
}

/// Ring of recent frame damages for buffer-age-aware partial presents.
pub struct DamageHistory {
    ring: VecDeque<ResolvedDamage>,
}

impl DamageHistory {
    /// The recorded damages, oldest first.
    pub closed spec fn entries(&self) -> Seq<ResolvedDamage> {
        self.ring@
    }

    pub fn new() -> (h: Self)
        ensures
            h.entries() == Seq::<ResolvedDamage>::empty(),
    {
        DamageHistory { ring: VecDeque::with_capacity(MAX_HISTORY) }
    }

    /// Record the current frame's resolved damage, evicting the oldest entry
    /// once `MAX_HISTORY` are kept.
    pub fn push(&mut self, damage: ResolvedDamage)
        requires
            old(self).entries().len() <= MAX_HISTORY,
        ensures
            final(self).entries() == (if old(self).entries().len() >= MAX_HISTORY {
                old(self).entries().drop_first()
            } else {
                old(self).entries()
            }).push(damage),
            final(self).entries().len() <= MAX_HISTORY,
    {
        if self.ring.len() >= MAX_HISTORY {
            self.ring.pop_front();
        }
        self.ring.push_back(damage);
    }

    /// Number of recorded frames.
    pub fn len(&self) -> (n: usize)
        ensures
            n == self.entries().len(),
    {
        self.ring.len()
    }

    /// The damage to declare for a back buffer of age `buffer_age`: full
    /// when the age is unknown or reaches past the history, otherwise the
    /// union of this frame's damage with the last `buffer_age - 1` frames.
    pub fn resolve_with_age(&self, current_frame: ResolvedDamage, buffer_age: i32) -> (r:
        ResolvedDamage)
        requires
            buffer_age > 1 && buffer_age - 1 <= self.entries().len() ==> fold_computable(
                current_frame,
                self.entries().subrange(
                    self.entries().len() - (buffer_age - 1),
                    self.entries().len() as int,
                ),
            ),
        ensures
            r == resolve_with_age_spec(self.entries(), current_frame, buffer_age),
    {
        if buffer_age <= 0 {
            return ResolvedDamage::FullSurface;
        }
        if buffer_age == 1 {
            return current_frame;
        }
        let history_needed = (buffer_age - 1) as usize;
        if history_needed > self.ring.len() {
            return ResolvedDamage::FullSurface;
        }
        let mut result = current_frame;
        let start = self.ring.len() - history_needed;
        let ghost ring = self.ring@;
        let ghost tail = ring.subrange(start as int, ring.len() as int);
        let mut i = start;
        while i < self.ring.len()
            invariant
                start <= i <= ring.len(),
                ring == self.ring@,
                tail == ring.subrange(start as int, ring.len() as int),
                fold_computable(current_frame, tail),
                result == fold_union(current_frame, ring.subrange(start as int, i as int)),
            decreases ring.len() - i,
        {
            proof {
                let pre = ring.subrange(start as int, i as int + 1);
                assert(pre.drop_last() =~= ring.subrange(start as int, i as int));
                lemma_fold_computable_prefix(current_frame, tail, (i - start + 1) as int);
                assert(tail.subrange(0, (i - start + 1) as int) =~= pre);
            }
            result = union_damage(result, self.ring[i]);
            i = i + 1;
        }
        result
    }

    /// Clear the history, e.g. after the surface was recreated.
    pub fn clear(&mut self)
        ensures
            final(self).entries() == Seq::<ResolvedDamage>::empty(),
    {
        self.ring.clear();
    }
}

/// A prefix of a computable fold is computable.
proof fn lemma_fold_computable_prefix(acc: ResolvedDamage, s: Seq<ResolvedDamage>, n: int)
    requires
        0 <= n <= s.len(),
        fold_computable(acc, s),
    ensures
        fold_computable(acc, s.subrange(0, n)),
    decreases s.len(),
{
    if n < s.len() {
        assert(s.drop_last() =~= s.subrange(0, s.len() - 1));
        lemma_fold_computable_prefix(acc, s.drop_last(), n);
        assert(s.drop_last().subrange(0, n) =~= s.subrange(0, n));
    } else {
        assert(s.subrange(0, n) =~= s);
    }
}

/// Union of damages is commutative.
pub proof fn law_union_commutative(a: ResolvedDamage, b: ResolvedDamage)
    ensures
        union_damage_spec(a, b) == union_damage_spec(b, a),
{
}

/// A full-surface damage absorbs any other damage on either side.
pub proof fn law_union_full_absorbs(a: ResolvedDamage)
    ensures
        union_damage_spec(ResolvedDamage::FullSurface, a) == ResolvedDamage::FullSurface,
        union_damage_spec(a, ResolvedDamage::FullSurface) == ResolvedDamage::FullSurface,
{
}

/// Union of damages is associative wherever every union computes.
pub proof fn law_union_associative(a: ResolvedDamage, b: ResolvedDamage, c: ResolvedDamage)
    requires
        union_computable(a, b),
        union_computable(b, c),
        union_computable(union_damage_spec(a, b), c),
        union_computable(a, union_damage_spec(b, c)),
    ensures
        union_damage_spec(union_damage_spec(a, b), c) == union_damage_spec(
            a,
            union_damage_spec(b, c),
        ),
{
}

/// The union of two partial damages covers both of them.
pub proof fn law_union_covers(a: ResolvedDamage, b: ResolvedDamage)
    requires
        a is Partial,
        b is Partial,
        union_computable(a, b),
    ensures
        ({
            let u = union_damage_spec(a, b);
            &&& u is Partial
            &&& u->x <= a->x && u->x <= b->x
            &&& u->y <= a->y && u->y <= b->y
            &&& a->x + a->width <= u->x + u->width
            &&& b->x + b->width <= u->x + u->width
            &&& a->y + a->height <= u->y + u->height
            &&& b->y + b->height <= u->y + u->height
        }),
{
}

/// Once any frame in the window was a full redraw, the buffer-age union is
/// a full redraw.
pub proof fn law_full_history_poisons(acc: ResolvedDamage, s: Seq<ResolvedDamage>, i: int)
    requires
        0 <= i < s.len(),
        s[i] == ResolvedDamage::FullSurface,
    ensures
        fold_union(acc, s) == ResolvedDamage::FullSurface,
    decreases s.len(),
{
    if i < s.len() - 1 {
        assert(s.drop_last()[i] == s[i]);
        law_full_history_poisons(acc, s.drop_last(), i);
    }
}

/// A full-surface current frame stays a full redraw at every buffer age.
pub proof fn law_full_current_stays_full(s: Seq<ResolvedDamage>)
    ensures
        fold_union(ResolvedDamage::FullSurface, s) == ResolvedDamage::FullSurface,
    decreases s.len(),
{
    if s.len() > 0 {
        law_full_current_stays_full(s.drop_last());
    }
}

/// A partial damage reported by `resolve` is non-empty, lies inside the
/// surface and does not cover all of it.
pub proof fn law_resolve_within_surface(force_full: bool, size: (i32, i32), rects: Seq<Rect4>)
    requires
        resolve_spec(force_full, size, rects) is Partial,
    ensures
        ({
            let r = resolve_spec(force_full, size, rects);
            &&& 0 <= r->x && 0 <= r->y
            &&& r->width > 0 && r->height > 0
            &&& r->x + r->width <= size.0
            &&& r->y + r->height <= size.1
            &&& !(r->width >= size.0 && r->height >= size.1)
        }),
{
}

/// The bounding-box edges of a non-empty list lie on or outside every
/// rectangle's edges, and each of them is some rectangle's edge.
proof fn lemma_seq_edges_bounds(s: Seq<Rect4>)
    requires
        s.len() > 0,
    ensures
        forall|i: int|
            0 <= i < s.len() ==> {
                &&& seq_edges(s).0 <= #[trigger] s[i].0
                &&& seq_edges(s).1 <= s[i].1
                &&& seq_edges(s).2 >= s[i].0 + s[i].2
                &&& seq_edges(s).3 >= s[i].1 + s[i].3
            },
        exists|i: int| 0 <= i < s.len() && seq_edges(s).0 == #[trigger] s[i].0,
        exists|i: int| 0 <= i < s.len() && seq_edges(s).1 == #[trigger] s[i].1,
        exists|i: int| 0 <= i < s.len() && seq_edges(s).2 == #[trigger] s[i].0 + s[i].2,
        exists|i: int| 0 <= i < s.len() && seq_edges(s).3 == #[trigger] s[i].1 + s[i].3,
    decreases s.len(),
{
    if s.len() > 1 {
        let t = s.drop_last();
        lemma_seq_edges_bounds(t);
        let n = s.len() - 1;
        assert(s[n] == s.last());
        assert forall|i: int| 0 <= i < t.len() implies #[trigger] t[i] == s[i] by {}
        let i0 = choose|i: int| 0 <= i < t.len() && seq_edges(t).0 == #[trigger] t[i].0;
        let i1 = choose|i: int| 0 <= i < t.len() && seq_edges(t).1 == #[trigger] t[i].1;
        let i2 = choose|i: int| 0 <= i < t.len() && seq_edges(t).2 == #[trigger] t[i].0 + t[i].2;
        let i3 = choose|i: int| 0 <= i < t.len() && seq_edges(t).3 == #[trigger] t[i].1 + t[i].3;
        assert(t[i0] == s[i0] && t[i1] == s[i1] && t[i2] == s[i2] && t[i3] == s[i3]);
        assert forall|i: int| 0 <= i < s.len() implies {
            &&& seq_edges(s).0 <= #[trigger] s[i].0
            &&& seq_edges(s).1 <= s[i].1
            &&& seq_edges(s).2 >= s[i].0 + s[i].2
            &&& seq_edges(s).3 >= s[i].1 + s[i].3
        } by {
            if i < n {
                assert(t[i] == s[i]);
            }
        }
        if seq_edges(s).0 == s[n].0 {
        } else {
            assert(seq_edges(s).0 == s[i0].0);
        }
        if seq_edges(s).1 == s[n].1 {
        } else {
            assert(seq_edges(s).1 == s[i1].1);
        }
        if seq_edges(s).2 == s[n].0 + s[n].2 {
        } else {
            assert(seq_edges(s).2 == s[i2].0 + s[i2].2);
        }
        if seq_edges(s).3 == s[n].1 + s[n].3 {
        } else {
            assert(seq_edges(s).3 == s[i3].1 + s[i3].3);
        }
    } else {
        assert(seq_edges(s).0 == s[0].0);
    }
}

/// The one box `resolve` reports is exactly the bounding box of every
/// recorded rectangle clipped to the surface: it reaches to or beyond the
/// clipped edges of each rectangle (no recorded damage is left out), and
/// each of its edges is the clipped edge of some rectangle (it is no larger
/// than needed).
pub proof fn law_resolve_is_clipped_bounding_box(force_full: bool, size: (i32, i32), rects: Seq<Rect4>)
    requires
        resolve_spec(force_full, size, rects) is Partial,
    ensures
        ({
            let r = resolve_spec(force_full, size, rects);
            let (x, y, right, bottom) = (r->x as int, r->y as int, r->x + r->width, r->y + r->height);
            &&& forall|i: int|
                0 <= i < rects.len() ==> {
                    &&& x <= imax(#[trigger] rects[i].0 as int, 0)
                    &&& y <= imax(rects[i].1 as int, 0)
                    &&& right >= imin(rects[i].0 + rects[i].2, size.0 as int)
                    &&& bottom >= imin(rects[i].1 + rects[i].3, size.1 as int)
                }
            &&& exists|i: int| 0 <= i < rects.len() && x == imax(#[trigger] rects[i].0 as int, 0)
            &&& exists|i: int| 0 <= i < rects.len() && y == imax(#[trigger] rects[i].1 as int, 0)
            &&& exists|i: int|
                0 <= i < rects.len() && right == imin(#[trigger] rects[i].0 + rects[i].2, size.0 as int)
            &&& exists|i: int|
                0 <= i < rects.len() && bottom == imin(#[trigger] rects[i].1 + rects[i].3, size.1 as int)
        }),
{
    lemma_seq_edges_bounds(rects);
    let e = seq_edges(rects);
    let i0 = choose|i: int| 0 <= i < rects.len() && e.0 == #[trigger] rects[i].0;
    let i1 = choose|i: int| 0 <= i < rects.len() && e.1 == #[trigger] rects[i].1;
    let i2 = choose|i: int| 0 <= i < rects.len() && e.2 == #[trigger] rects[i].0 + rects[i].2;
    let i3 = choose|i: int| 0 <= i < rects.len() && e.3 == #[trigger] rects[i].1 + rects[i].3;
    let r = resolve_spec(force_full, size, rects);
    assert(r->x as int == imax(rects[i0].0 as int, 0));
    assert(r->y as int == imax(rects[i1].1 as int, 0));
    assert(r->x + r->width == imin(rects[i2].0 + rects[i2].2, size.0 as int));
    assert(r->y + r->height == imin(rects[i3].1 + rects[i3].3, size.1 as int));
}

/// Every rectangle reported by `resolve_rects` is non-empty and lies inside
/// the surface, none covers all of it, and there are never more of them
/// than were recorded.
pub proof fn law_resolve_rects_within_surface(force_full: bool, size: (i32, i32), rects: Seq<Rect4>)
    requires
        corners_fit(rects),
        resolve_rects_spec(force_full, size, rects) is Some,
    ensures
        ({
            let out = resolve_rects_spec(force_full, size, rects)->0;
            &&& 0 < out.len() <= rects.len()
            &&& forall|i: int|
                0 <= i < out.len() ==> {
                    let c = #[trigger] out[i];
                    &&& 0 <= c.0 && 0 <= c.1
                    &&& c.2 > 0 && c.3 > 0
                    &&& c.0 + c.2 <= size.0
                    &&& c.1 + c.3 <= size.1
                    &&& !(c.2 >= size.0 && c.3 >= size.1)
                }
        }),
{
    lemma_clip_all_inside(rects, size.0, size.1);
    let out = clip_all(rects, size.0, size.1);
    assert forall|i: int| 0 <= i < out.len() implies !(#[trigger] out[i].2 >= size.0 && out[i].3
        >= size.1) by {
        if out[i].2 >= size.0 && out[i].3 >= size.1 {
            assert(some_covers(out, size.0, size.1));
        }
    }
}

/// A frame marked for a full redraw resolves to the full surface and to no
/// rectangle list, whatever rectangles were recorded.
pub proof fn law_forced_full_redraw(size: (i32, i32), rects: Seq<Rect4>)
    ensures
        resolve_spec(true, size, rects) == ResolvedDamage::FullSurface,
        resolve_rects_spec(true, size, rects) is None,
{
}

} // verus!
