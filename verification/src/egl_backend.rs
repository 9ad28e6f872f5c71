//! Surface bookkeeping of the EGL rendering backend: which surfaces are
//! alive, how large they are, which one is current, and what each request
//! asks of the driver.  The driver calls themselves are made by the caller
//! between the steps below; the context and surface handles the driver
//! hands out are carried through as `C` and `S`.

use crate::egl_config::BackendType;
use std::collections::HashMap;
use vstd::prelude::*;

verus! {

broadcast use vstd::std_specs::hash::group_hash_axioms;

/// Unique identifier for a render surface and its context.
pub type SurfaceId = u32;

/// `EGL_HEIGHT`
pub const EGL_HEIGHT: i32 = 0x3056;

/// `EGL_WIDTH`
pub const EGL_WIDTH: i32 = 0x3057;

/// `EGL_NONE`, the attribute list terminator.
pub const EGL_NONE: i32 = 0x3038;

/// Backend feature capabilities.
#[derive(Debug, Clone, Copy, PartialEq, Eq, Structural)]
pub enum BackendFeature {
    /// Asynchronous buffer uploads (PBO in GL).
    AsyncBufferUpload,
    /// Multiple render targets.
    MultipleRenderTargets,
    /// Compute shaders.
    ComputeShaders,
    /// MSAA antialiasing.
    MSAA,
    /// HDR rendering.
    HDR,
    /// Partial surface updates (dirty-rect presentation).
    PartialPresent,
}

/// Frame timing information for profiling and adaptive frame rate.
#[derive(Debug, Clone, Copy)]
pub struct FrameTiming {
    /// Time spent on the CPU (command recording).
    pub cpu_time_us: u64,
    /// Time spent on the GPU (estimated).
    pub gpu_time_us: u64,
    /// Time waiting for vsync.
    pub vsync_wait_us: u64,
    /// Total frame time.
    pub total_time_us: u64,
}

impl Default for FrameTiming {
    fn default() -> (t: Self)
        ensures
            t.cpu_time_us == 0 && t.gpu_time_us == 0,
            t.vsync_wait_us == 0 && t.total_time_us == 0,
    {
        FrameTiming { cpu_time_us: 0, gpu_time_us: 0, vsync_wait_us: 0, total_time_us: 0 }
    }
}

/// VSync mode options.
#[derive(Debug, Clone, Copy, PartialEq, Eq, Structural)]
pub enum VSyncMode {
    /// No vsync, render as fast as possible.
    Off,
    /// Standard vsync, wait for the next refresh.
    On,
    /// Adaptive vsync (tear if late, wait if early).
    Adaptive,
    /// Triple buffering with vsync.
    TripleBuffer,
}

impl Default for VSyncMode {
    fn default() -> (m: Self)
        ensures
            m == VSyncMode::On,
    {
        VSyncMode::On
    }
}

/// Which features an EGL backend offers, given whether the driver offers
/// GLES 3 contexts.
pub open spec fn feature_supported(use_gles3: bool, feature: BackendFeature) -> bool {
    match feature {
        BackendFeature::AsyncBufferUpload => true,
        BackendFeature::MultipleRenderTargets => use_gles3,
        BackendFeature::ComputeShaders => false,
        BackendFeature::MSAA => true,
        BackendFeature::HDR => false,
        BackendFeature::PartialPresent => false,
    }
}

/// The extent recorded for an onscreen surface from what the driver
/// reported for it (`None` when the query failed): never below one pixel.
pub open spec fn onscreen_extent(queried: Option<i32>) -> u32 {
    let v: u32 = match queried {
        Some(q) => q as u32,
        None => 0u32,
    };
    if v < 1 { 1 } else { v }
}

/// The `eglCreatePbufferSurface` attribute list for a `width` x `height`
/// pbuffer.
pub open spec fn pbuffer_attribs_spec(width: u32, height: u32) -> Seq<i32> {
    seq![EGL_WIDTH, width as i32, EGL_HEIGHT, height as i32, EGL_NONE]
}

/// Build the `eglCreatePbufferSurface` attribute list.
pub fn pbuffer_attribs(width: u32, height: u32) -> (a: Vec<i32>)
    ensures
        a@ == pbuffer_attribs_spec(width, height),
{
    let mut a: Vec<i32> = Vec::new();
    a.push(EGL_WIDTH);
    a.push(width as i32);
    a.push(EGL_HEIGHT);
    a.push(height as i32);
    a.push(EGL_NONE);
    proof {
        assert(a@ =~= pbuffer_attribs_spec(width, height));
    }
    a
}

/// The swap interval asked of the driver before presenting.
pub fn swap_interval(wait_vsync: bool) -> (i: i32)
    ensures
        i == (if wait_vsync { 1i32 } else { 0i32 }),
{
    if wait_vsync {
        1
    } else {
        0
    }
}

/// A live surface: the driver's handles and the recorded size.
pub struct EglSurface<C, S> {
    pub context: C,
    pub surface: S,
    pub width: u32,
    pub height: u32,
    pub is_onscreen: bool,
}

/// Why a request on a surface was refused.
#[derive(Debug, Clone, Copy, PartialEq, Eq, Structural)]
pub enum EglBackendError {
    /// No live surface has this id.
    SurfaceNotFound(SurfaceId),
}

/// What a resize asks of the driver before the new size is recorded.
#[derive(Debug, Clone, Copy, PartialEq, Eq, Structural)]
pub enum ResizePlan {
    /// An onscreen surface follows its window: only the size is recorded.
    RecordOnly,
    /// An offscreen surface gets a new pbuffer in place of the old one;
    /// `unbind` says whether it was current and has to be unbound first.
    RecreatePbuffer { unbind: bool },
}

/// Surface registry of the EGL backend.
pub struct EglBackend<C, S> {
    surfaces: HashMap<SurfaceId, EglSurface<C, S>>,
    next_surface_id: SurfaceId,
    current_surface: Option<SurfaceId>,
    use_gles3: bool,
}

impl<C, S> EglBackend<C, S> {
    /// The live surfaces by id.
    pub closed spec fn surfaces(&self) -> Map<SurfaceId, EglSurface<C, S>> {
        self.surfaces@
    }

    /// The id the next surface receives.
    pub closed spec fn next_id(&self) -> SurfaceId {
        self.next_surface_id
    }

    /// The surface bound for rendering, if any.
    pub closed spec fn current(&self) -> Option<SurfaceId> {
        self.current_surface
    }

    /// Whether the driver offers GLES 3 contexts.
    pub closed spec fn gles3(&self) -> bool {
        self.use_gles3
    }

    /// Every live id was handed out before `next_id`, ids start at one,
    /// and the current surface is a live one.
    pub closed spec fn wf(&self) -> bool {
        &&& self.next_surface_id >= 1
        &&& forall|k: SurfaceId| #[trigger] self.surfaces@.contains_key(k) ==> 1 <= k < self.next_surface_id
        &&& match self.current_surface {
            Some(id) => self.surfaces@.contains_key(id),
            None => true,
        }
    }

    /// An empty registry; `use_gles3` is what the driver's extension
    /// string said.
    pub fn new(use_gles3: bool) -> (b: Self)
        ensures
            b.wf(),
            b.surfaces() == Map::<SurfaceId, EglSurface<C, S>>::empty(),
            b.next_id() == 1,
            b.current() == None::<SurfaceId>,
            b.gles3() == use_gles3,
    {
        let b = EglBackend {
            surfaces: HashMap::with_capacity(4),
            next_surface_id: 1,
            current_surface: None,
            use_gles3,
        };
        proof {
            assert(b.surfaces@ =~= Map::<SurfaceId, EglSurface<C, S>>::empty());
        }
        b
    }

    /// The id the next installed surface receives.
    pub fn next_surface_id(&self) -> (id: SurfaceId)
        ensures
            id == self.next_id(),
    {
        self.next_surface_id
    }

    /// The rendering API this backend drives.
    pub fn backend_type(&self) -> (t: BackendType)
        ensures
            t == BackendType::OpenGLES,
    {
        BackendType::OpenGLES
    }

    /// Whether the backend offers `feature`.
    pub fn supports_feature(&self, feature: BackendFeature) -> (b: bool)
        ensures
            b == feature_supported(self.gles3(), feature),
    {
        match feature {
            BackendFeature::AsyncBufferUpload => true,
            BackendFeature::MultipleRenderTargets => self.use_gles3,
            BackendFeature::ComputeShaders => false,
            BackendFeature::MSAA => true,
            BackendFeature::HDR => false,
            BackendFeature::PartialPresent => false,
        }
    }

    fn allocate_surface_id(&mut self) -> (id: SurfaceId)
        requires
            old(self).wf(),
            old(self).next_id() < u32::MAX,
        ensures
            id == old(self).next_id(),
            final(self).next_id() == old(self).next_id() + 1,
            final(self).surfaces() == old(self).surfaces(),
            final(self).current() == old(self).current(),
            final(self).gles3() == old(self).gles3(),
            final(self).wf(),
    {
        let id = self.next_surface_id;
        self.next_surface_id = self.next_surface_id + 1;
        id
    }

    fn insert_surface(&mut self, surf: EglSurface<C, S>) -> (id: SurfaceId)
        requires
            old(self).wf(),
            old(self).next_id() < u32::MAX,
        ensures
            final(self).wf(),
            id == old(self).next_id(),
            !old(self).surfaces().contains_key(id),
            final(self).surfaces() == old(self).surfaces().insert(id, surf),
            final(self).next_id() == old(self).next_id() + 1,
            final(self).current() == old(self).current(),
            final(self).gles3() == old(self).gles3(),
    {
        let id = self.allocate_surface_id();
        self.surfaces.insert(id, surf);
        id
    }

    /// Record a window surface the driver created, with the size it
    /// reported for it, and return its id.
    pub fn install_onscreen_surface(
        &mut self,
        context: C,
        surface: S,
        queried_width: Option<i32>,
        queried_height: Option<i32>,
    ) -> (id: SurfaceId)
        requires
            old(self).wf(),
            old(self).next_id() < u32::MAX,
        ensures
            final(self).wf(),
            id == old(self).next_id(),
            !old(self).surfaces().contains_key(id),
            final(self).surfaces() == old(self).surfaces().insert(
                id,
                EglSurface {
                    context,
                    surface,
                    width: onscreen_extent(queried_width),
                    height: onscreen_extent(queried_height),
                    is_onscreen: true,
                },
            ),
            final(self).next_id() == old(self).next_id() + 1,
            final(self).current() == old(self).current(),
            final(self).gles3() == old(self).gles3(),
    {
        let w: u32 = match queried_width {
            Some(q) => q as u32,
            None => 0,
        };
        let h: u32 = match queried_height {
            Some(q) => q as u32,
            None => 0,
        };
        let width: u32 = if w < 1 { 1 } else { w };
        let height: u32 = if h < 1 { 1 } else { h };
        self.insert_surface(EglSurface { context, surface, width, height, is_onscreen: true })
    }

    /// Record a pbuffer surface of `width` x `height` the driver created,
    /// and return its id.
    pub fn install_offscreen_surface(&mut self, context: C, surface: S, width: u32, height: u32) -> (id: SurfaceId)
        requires
            old(self).wf(),
            old(self).next_id() < u32::MAX,
        ensures
            final(self).wf(),
            id == old(self).next_id(),
            !old(self).surfaces().contains_key(id),
            final(self).surfaces() == old(self).surfaces().insert(
                id,
                EglSurface { context, surface, width, height, is_onscreen: false },
            ),
            final(self).next_id() == old(self).next_id() + 1,
            final(self).current() == old(self).current(),
            final(self).gles3() == old(self).gles3(),
    {
        self.insert_surface(EglSurface { context, surface, width, height, is_onscreen: false })
    }
    /// Stop tracking a surface.  Gives back its entry, and whether it was
    /// current (then it is no longer, and the caller unbinds it before
    /// destroying the handles); `None` when no such surface is alive.
    pub fn remove_surface(&mut self, surface_id: SurfaceId) -> (r: Option<(EglSurface<C, S>, bool)>)
        requires
            old(self).wf(),
        ensures
            final(self).wf(),
            final(self).surfaces() == old(self).surfaces().remove(surface_id),
            r.is_some() == old(self).surfaces().contains_key(surface_id),
            r matches Some((entry, was_current)) ==> {
                &&& entry == old(self).surfaces()[surface_id]
                &&& was_current == (old(self).current() == Some(surface_id))
            },
            final(self).current() == (if old(self).current() == Some(surface_id) {
                None
            } else {
                old(self).current()
            }),
            final(self).next_id() == old(self).next_id(),
            final(self).gles3() == old(self).gles3(),
    {
        match self.surfaces.remove(&surface_id) {
            Some(surf) => {
                let was_current = match self.current_surface {
                    Some(c) => c == surface_id,
                    None => false,
                };
                if was_current {
                    self.current_surface = None;
                }
                Some((surf, was_current))
            },
            None => None,
        }
    }

    /// The entry of a live surface.
    pub fn surface(&self, surface_id: SurfaceId) -> (r: Option<&EglSurface<C, S>>)
        ensures
            r.is_some() == self.surfaces().contains_key(surface_id),
            r matches Some(e) ==> *e == self.surfaces()[surface_id],
    {
        self.surfaces.get(&surface_id)
    }

    /// The recorded size of a surface.
    pub fn get_surface_size(&self, surface_id: SurfaceId) -> (r: Result<(u32, u32), EglBackendError>)
        ensures
            self.surfaces().contains_key(surface_id) ==> r == Ok::<(u32, u32), EglBackendError>(
                (self.surfaces()[surface_id].width, self.surfaces()[surface_id].height),
            ),
            !self.surfaces().contains_key(surface_id) ==> r == Err::<(u32, u32), EglBackendError>(
                EglBackendError::SurfaceNotFound(surface_id),
            ),
    {
        match self.surfaces.get(&surface_id) {
            Some(surf) => Ok((surf.width, surf.height)),
            None => Err(EglBackendError::SurfaceNotFound(surface_id)),
        }
    }

    /// First step of making a surface current: `Ok(None)` when it already
    /// is (nothing to ask of the driver), `Ok(Some(entry))` with the handles
    /// to bind, or the error for an unknown id.
    pub fn begin_make_current(&self, surface_id: SurfaceId) -> (r: Result<Option<&EglSurface<C, S>>, EglBackendError>)
        requires
            self.wf(),
        ensures
            self.current() == Some(surface_id) ==> r matches Ok(None),
            self.current() != Some(surface_id) && self.surfaces().contains_key(surface_id) ==> (
            r matches Ok(Some(e)) && *e == self.surfaces()[surface_id]),
            self.current() != Some(surface_id) && !self.surfaces().contains_key(surface_id) ==> (
            r matches Err(err) && err == EglBackendError::SurfaceNotFound(surface_id)),
    {
        if let Some(c) = self.current_surface {
            if c == surface_id {
                return Ok(None);
            }
        }
        match self.surfaces.get(&surface_id) {
            Some(surf) => Ok(Some(surf)),
            None => Err(EglBackendError::SurfaceNotFound(surface_id)),
        }
    }

    /// Record that the driver bound `surface_id`.
    pub fn mark_current(&mut self, surface_id: SurfaceId) -> (r: Result<(), EglBackendError>)
        requires
            old(self).wf(),
        ensures
            final(self).wf(),
            r is Ok == old(self).surfaces().contains_key(surface_id),
            r matches Err(err) ==> err == EglBackendError::SurfaceNotFound(surface_id),
            final(self).current() == (if old(self).surfaces().contains_key(surface_id) {
                Some(surface_id)
            } else {
                old(self).current()
            }),
            final(self).surfaces() == old(self).surfaces(),
            final(self).next_id() == old(self).next_id(),
            final(self).gles3() == old(self).gles3(),
    {
        if self.surfaces.contains_key(&surface_id) {
            self.current_surface = Some(surface_id);
            Ok(())
        } else {
            Err(EglBackendError::SurfaceNotFound(surface_id))
        }
    }

    /// Record that the driver unbound every surface.
    pub fn clear_current(&mut self)
        requires
            old(self).wf(),
        ensures
            final(self).wf(),
            final(self).current() == None::<SurfaceId>,
            final(self).surfaces() == old(self).surfaces(),
            final(self).next_id() == old(self).next_id(),
            final(self).gles3() == old(self).gles3(),
    {
        self.current_surface = None;
    }

    /// First step of a resize: what the driver has to do.  A current
    /// offscreen surface stops being current here, since its pbuffer is
    /// about to be destroyed.
    pub fn begin_resize(&mut self, surface_id: SurfaceId) -> (r: Result<ResizePlan, EglBackendError>)
        requires
            old(self).wf(),
        ensures
            final(self).wf(),
            final(self).surfaces() == old(self).surfaces(),
            final(self).next_id() == old(self).next_id(),
            final(self).gles3() == old(self).gles3(),
            !old(self).surfaces().contains_key(surface_id) ==> {
                &&& r == Err::<ResizePlan, EglBackendError>(EglBackendError::SurfaceNotFound(surface_id))
                &&& final(self).current() == old(self).current()
            },
            old(self).surfaces().contains_key(surface_id) && old(self).surfaces()[surface_id].is_onscreen ==> {
                &&& r == Ok::<ResizePlan, EglBackendError>(ResizePlan::RecordOnly)
                &&& final(self).current() == old(self).current()
            },
            old(self).surfaces().contains_key(surface_id) && !old(self).surfaces()[surface_id].is_onscreen ==> {
                &&& r == Ok::<ResizePlan, EglBackendError>(
                    ResizePlan::RecreatePbuffer { unbind: old(self).current() == Some(surface_id) },
                )
                &&& final(self).current() == (if old(self).current() == Some(surface_id) {
                    None
                } else {
                    old(self).current()
                })
            },
    {
        let onscreen = match self.surfaces.get(&surface_id) {
            Some(surf) => surf.is_onscreen,
            None => {
                return Err(EglBackendError::SurfaceNotFound(surface_id));
            },
        };
        if onscreen {
            Ok(ResizePlan::RecordOnly)
        } else {
            let unbind = match self.current_surface {
                Some(c) => c == surface_id,
                None => false,
            };
            if unbind {
                self.current_surface = None;
            }
            Ok(ResizePlan::RecreatePbuffer { unbind })
        }
    }

    /// Last step of a resize: record the new size, and the new pbuffer
    /// handle when one was created.
    pub fn finish_resize(
        &mut self,
        surface_id: SurfaceId,
        new_surface: Option<S>,
        width: u32,
        height: u32,
    ) -> (r: Result<(), EglBackendError>)
        requires
            old(self).wf(),
        ensures
            final(self).wf(),
            r is Ok == old(self).surfaces().contains_key(surface_id),
            r matches Err(err) ==> err == EglBackendError::SurfaceNotFound(surface_id),
            !old(self).surfaces().contains_key(surface_id) ==> final(self).surfaces() == old(self).surfaces(),
            old(self).surfaces().contains_key(surface_id) ==> final(self).surfaces() == old(
                self,
            ).surfaces().insert(
                surface_id,
                EglSurface {
                    context: old(self).surfaces()[surface_id].context,
                    surface: match new_surface {
                        Some(s) => s,
                        None => old(self).surfaces()[surface_id].surface,
                    },
                    width,
                    height,
                    is_onscreen: old(self).surfaces()[surface_id].is_onscreen,
                },
            ),
            final(self).current() == old(self).current(),
            final(self).next_id() == old(self).next_id(),
            final(self).gles3() == old(self).gles3(),
    {
        match self.surfaces.remove(&surface_id) {
            Some(surf) => {
                let surface = match new_surface {
                    Some(s) => s,
                    None => surf.surface,
                };
                let updated = EglSurface {
                    context: surf.context,
                    surface,
                    width,
                    height,
                    is_onscreen: surf.is_onscreen,
                };
                self.surfaces.insert(surface_id, updated);
                proof {
                    assert(self.surfaces@ =~= old(self).surfaces@.insert(surface_id, updated));
                }
                Ok(())
            },
            None => Err(EglBackendError::SurfaceNotFound(surface_id)),
        }
    }
    /// The ids of all live surfaces, each once (for tearing the backend
    /// down).
    pub fn surface_ids(&self) -> (r: Vec<SurfaceId>)
        ensures
            r@.no_duplicates(),
            r@.to_set() == self.surfaces().dom(),
    {
        let mut r: Vec<SurfaceId> = Vec::new();
        let ghost m = self.surfaces@;
        for k in it: self.surfaces.keys()
            invariant
                m == self.surfaces@,
                it.seq().unref().to_set() == m.dom(),
                it.seq().unref().no_duplicates(),
                r@ == it.seq().unref().take(it.index()),
                r@.no_duplicates(),
                r@.len() == it.seq().len() ==> r@.to_set() == m.dom(),
        {
            let ghost r0 = r@;
            proof {
                assert(it.seq().unref()[it.index() as int] == *k);
                assert(!r0.contains(*k)) by {
                    if r0.contains(*k) {
                        let i = choose|i: int| 0 <= i < r0.len() && r0[i] == *k;
                        assert(it.seq().unref()[i] == it.seq().unref()[it.index() as int]);
                    }
                }
            }
            r.push(*k);
            proof {
                assert(r@ =~= it.seq().unref().take(it.index() + 1));
                assert(it.seq().unref().take(it.seq().len() as int) =~= it.seq().unref());
            }
        }
        r
    }
}

/// The surface bound for rendering is always a live one.
pub proof fn law_current_surface_is_live<C, S>(b: EglBackend<C, S>)
    requires
        b.wf(),
    ensures
        b.current() matches Some(id) ==> b.surfaces().contains_key(id),
{
}

/// Ids are handed out in increasing order and never reused: every live id
/// lies below the id the next surface receives.
pub proof fn law_surface_ids_are_fresh<C, S>(b: EglBackend<C, S>)
    requires
        b.wf(),
    ensures
        forall|k: SurfaceId| #[trigger] b.surfaces().contains_key(k) ==> k < b.next_id(),
        !b.surfaces().contains_key(b.next_id()),
{
}

/// Removing a surface right after installing it leaves the registry as it
/// was (an installed id is never a live one).
pub proof fn law_install_then_remove<C, S>(
    surfaces: Map<SurfaceId, EglSurface<C, S>>,
    id: SurfaceId,
    entry: EglSurface<C, S>,
)
    requires
        !surfaces.contains_key(id),
    ensures
        surfaces.insert(id, entry).remove(id) == surfaces,
{
    assert(surfaces.insert(id, entry).remove(id) =~= surfaces);
}

} // verus!
