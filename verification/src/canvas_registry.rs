//! The canvas manager's registry of canvases: ids (the onscreen canvas is
//! 1, offscreen ones count up from 2), each canvas's sizes, surface kind
//! and driver handles, and which context is bound.  The caller makes the
//! driver calls; `C` and `S` are the driver's context and surface handles.

use crate::canvas_plan::{BoundTarget, CanvasError, CanvasSurfaceKind, ONSCREEN_CANVAS_ID};
use std::collections::HashMap;
use vstd::prelude::*;

verus! {

broadcast use vstd::std_specs::hash::group_hash_axioms;

/// A canvas: the size scripts see (`width` x `height`), the size of its
/// surface, what backs it and the driver's handles.
pub struct CanvasRecord<C, S> {
    pub width: u32,
    pub height: u32,
    pub physical_width: u32,
    pub physical_height: u32,
    pub kind: CanvasSurfaceKind,
    pub context: C,
    pub surface: S,
}

/// The first id handed to an offscreen canvas.
pub const FIRST_OFFSCREEN_ID: u32 = 2;

/// `v + 1`, wrapping around at `u32::MAX` (ids come from a wrapping
/// counter).
pub open spec fn wrap_inc_u32(v: u32) -> u32 {
    if v == u32::MAX {
        0
    } else {
        (v + 1) as u32
    }
}

/// The canvases by id, the next offscreen id and the bound context.
pub struct CanvasRegistry<C, S> {
    canvases: HashMap<u32, CanvasRecord<C, S>>,
    next_canvas_id: u32,
    bound: BoundTarget,
}

impl<C, S> CanvasRegistry<C, S> {
    /// The canvases by id.
    pub closed spec fn canvases(&self) -> Map<u32, CanvasRecord<C, S>> {
        self.canvases@
    }

    /// The id the next offscreen canvas receives.
    pub closed spec fn next_id(&self) -> u32 {
        self.next_canvas_id
    }

    /// The bound context.
    pub closed spec fn bound(&self) -> BoundTarget {
        self.bound
    }

    /// A bound canvas is a live one.
    pub closed spec fn wf(&self) -> bool {
        match self.bound {
            BoundTarget::Canvas(id) => self.canvases@.contains_key(id),
            BoundTarget::Resource => true,
        }
    }

    /// No canvas; the resource context is bound.
    pub fn new() -> (r: Self)
        ensures
            r.wf(),
            r.canvases() == Map::<u32, CanvasRecord<C, S>>::empty(),
            r.next_id() == FIRST_OFFSCREEN_ID,
            r.bound() == BoundTarget::Resource,
    {
        let r = CanvasRegistry { canvases: HashMap::with_capacity(4), next_canvas_id: FIRST_OFFSCREEN_ID, bound: BoundTarget::Resource };
        proof {
            assert(r.canvases@ =~= Map::<u32, CanvasRecord<C, S>>::empty());
        }
        r
    }

    /// Record an offscreen canvas of `width` x `height` the driver created
    /// and return its id: the counter, which then moves on (wrapping).
    pub fn install_offscreen(&mut self, context: C, surface: S, width: u32, height: u32) -> (id: u32)
        requires
            old(self).wf(),
        ensures
            final(self).wf(),
            id == old(self).next_id(),
            final(self).next_id() == wrap_inc_u32(old(self).next_id()),
            final(self).canvases() == old(self).canvases().insert(
                id,
                CanvasRecord {
                    width,
                    height,
                    physical_width: width,
                    physical_height: height,
                    kind: CanvasSurfaceKind::Pbuffer,
                    context,
                    surface,
                },
            ),
            final(self).bound() == old(self).bound(),
    {
        let id = self.next_canvas_id;
        self.next_canvas_id = self.next_canvas_id.wrapping_add(1);
        self.canvases.insert(
            id,
            CanvasRecord {
                width,
                height,
                physical_width: width,
                physical_height: height,
                kind: CanvasSurfaceKind::Pbuffer,
                context,
                surface,
            },
        );
        id
    }

    /// Record the onscreen canvas the driver created on `window` with the
    /// chosen physical size; scripts see that size too.
    pub fn install_onscreen(&mut self, context: C, surface: S, window: usize, physical_width: u32, physical_height: u32)
        requires
            old(self).wf(),
        ensures
            final(self).wf(),
            final(self).canvases() == old(self).canvases().insert(
                ONSCREEN_CANVAS_ID,
                CanvasRecord {
                    width: physical_width,
                    height: physical_height,
                    physical_width,
                    physical_height,
                    kind: CanvasSurfaceKind::Window(window),
                    context,
                    surface,
                },
            ),
            final(self).next_id() == old(self).next_id(),
            final(self).bound() == old(self).bound(),
    {
        self.canvases.insert(
            ONSCREEN_CANVAS_ID,
            CanvasRecord {
                width: physical_width,
                height: physical_height,
                physical_width,
                physical_height,
                kind: CanvasSurfaceKind::Window(window),
                context,
                surface,
            },
        );
    }

    /// The canvas with this id.
    pub fn get(&self, id: u32) -> (r: Option<&CanvasRecord<C, S>>)
        ensures
            r.is_some() == self.canvases().contains_key(id),
            r matches Some(c) ==> *c == self.canvases()[id],
    {
        self.canvases.get(&id)
    }

    /// The size scripts see for canvas `id`.
    pub fn canvas_size(&self, id: u32) -> (r: Result<(u32, u32), CanvasError>)
        ensures
            self.canvases().contains_key(id) ==> r == Ok::<(u32, u32), CanvasError>(
                (self.canvases()[id].width, self.canvases()[id].height),
            ),
            !self.canvases().contains_key(id) ==> r == Err::<(u32, u32), CanvasError>(CanvasError::NotFound(id)),
    {
        match self.canvases.get(&id) {
            Some(c) => Ok((c.width, c.height)),
            None => Err(CanvasError::NotFound(id)),
        }
    }

    /// Number of canvases.
    pub fn canvas_count(&self) -> (n: usize)
        ensures
            n == self.canvases().len(),
    {
        self.canvases.len()
    }

    /// Stop tracking canvas `id` and give back its record; a bound canvas
    /// is unbound (the resource context counts as bound).
    pub fn remove(&mut self, id: u32) -> (r: Option<CanvasRecord<C, S>>)
        requires
            old(self).wf(),
        ensures
            final(self).wf(),
            final(self).canvases() == old(self).canvases().remove(id),
            r.is_some() == old(self).canvases().contains_key(id),
            r matches Some(c) ==> c == old(self).canvases()[id],
            final(self).bound() == (if old(self).bound() == BoundTarget::Canvas(id) {
                BoundTarget::Resource
            } else {
                old(self).bound()
            }),
            final(self).next_id() == old(self).next_id(),
    {
        let r = self.canvases.remove(&id);
        let was_bound = match self.bound {
            BoundTarget::Canvas(b) => b == id,
            BoundTarget::Resource => false,
        };
        if was_bound {
            self.bound = BoundTarget::Resource;
        }
        r
    }

    /// Whether binding canvas `id` needs a driver call: not when it is the
    /// bound one; the error for an unknown id.
    pub fn needs_make_current(&self, id: u32) -> (r: Result<bool, CanvasError>)
        ensures
            self.bound() == BoundTarget::Canvas(id) ==> r == Ok::<bool, CanvasError>(false),
            self.bound() != BoundTarget::Canvas(id) ==> r == (if self.canvases().contains_key(id) {
                Ok::<bool, CanvasError>(true)
            } else {
                Err::<bool, CanvasError>(CanvasError::NotFound(id))
            }),
    {
        if let BoundTarget::Canvas(b) = self.bound {
            if b == id {
                return Ok(false);
            }
        }
        if self.canvases.contains_key(&id) {
            Ok(true)
        } else {
            Err(CanvasError::NotFound(id))
        }
    }

    /// Record that the driver bound `target`; a canvas must be live.
    pub fn mark_bound(&mut self, target: BoundTarget) -> (r: Result<(), CanvasError>)
        requires
            old(self).wf(),
        ensures
            final(self).wf(),
            final(self).canvases() == old(self).canvases(),
            final(self).next_id() == old(self).next_id(),
            match target {
                BoundTarget::Canvas(id) => if old(self).canvases().contains_key(id) {
                    r is Ok && final(self).bound() == target
                } else {
                    r == Err::<(), CanvasError>(CanvasError::NotFound(id)) && final(self).bound() == old(self).bound()
                },
                BoundTarget::Resource => r is Ok && final(self).bound() == target,
            },
    {
        match target {
            BoundTarget::Canvas(id) => {
                if !self.canvases.contains_key(&id) {
                    return Err(CanvasError::NotFound(id));
                }
            },
            BoundTarget::Resource => {},
        }
        self.bound = target;
        Ok(())
    }

    /// After a window canvas's drawing buffer was resized: scripts now see
    /// `width` x `height`; the window surface keeps its size.
    pub fn record_drawing_buffer_resize(&mut self, id: u32, width: u32, height: u32) -> (r: Result<(), CanvasError>)
        requires
            old(self).wf(),
        ensures
            final(self).wf(),
            r is Ok == old(self).canvases().contains_key(id),
            r matches Err(e) ==> e == CanvasError::NotFound(id),
            old(self).canvases().contains_key(id) ==> final(self).canvases() == old(self).canvases().insert(
                id,
                CanvasRecord { width, height, ..old(self).canvases()[id] },
            ),
            !old(self).canvases().contains_key(id) ==> final(self).canvases() == old(self).canvases(),
            final(self).next_id() == old(self).next_id(),
            final(self).bound() == old(self).bound(),
    {
        match self.canvases.remove(&id) {
            Some(c) => {
                let updated = CanvasRecord { width, height, ..c };
                self.canvases.insert(id, updated);
                proof {
                    assert(self.canvases@ =~= old(self).canvases@.insert(id, updated));
                }
                Ok(())
            },
            None => Err(CanvasError::NotFound(id)),
        }
    }

    /// After an offscreen canvas got a new `width` x `height` pbuffer
    /// `surface`: both sizes follow, and the new surface replaces the old.
    pub fn record_pbuffer_resize(&mut self, id: u32, surface: S, width: u32, height: u32) -> (r: Result<(), CanvasError>)
        requires
            old(self).wf(),
        ensures
            final(self).wf(),
            r is Ok == old(self).canvases().contains_key(id),
            r matches Err(e) ==> e == CanvasError::NotFound(id),
            old(self).canvases().contains_key(id) ==> final(self).canvases() == old(self).canvases().insert(
                id,
                CanvasRecord {
                    width,
                    height,
                    physical_width: width,
                    physical_height: height,
                    surface,
                    ..old(self).canvases()[id]
                },
            ),
            !old(self).canvases().contains_key(id) ==> final(self).canvases() == old(self).canvases(),
            final(self).next_id() == old(self).next_id(),
            final(self).bound() == old(self).bound(),
    {
        match self.canvases.remove(&id) {
            Some(c) => {
                let updated = CanvasRecord {
                    width,
                    height,
                    physical_width: width,
                    physical_height: height,
                    surface,
                    kind: c.kind,
                    context: c.context,
                };
                self.canvases.insert(id, updated);
                proof {
                    assert(self.canvases@ =~= old(self).canvases@.insert(id, updated));
                }
                Ok(())
            },
            None => Err(CanvasError::NotFound(id)),
        }
    }
}

} // verus!
