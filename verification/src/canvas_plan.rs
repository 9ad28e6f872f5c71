//! Decisions of the canvas manager between its EGL and GL calls: when an
//! onscreen canvas has to be recreated, which size it gets, and what a
//! resize asks of the driver.  The caller performs the driver work each
//! plan names.

use crate::damage::{fold_computable, resolve_with_age_spec, DamageHistory, ResolvedDamage, MAX_HISTORY};
use vstd::prelude::*;

verus! {

/// What backs a canvas: a native window or an offscreen pbuffer.
#[derive(Debug, Clone, Copy, PartialEq, Eq, Structural)]
pub enum CanvasSurfaceKind {
    /// A window surface on the native window with this handle.
    Window(usize),
    /// An offscreen pbuffer.
    Pbuffer,
}

/// The onscreen canvas as installed: its surface kind and physical size.
#[derive(Debug, Clone, Copy, PartialEq, Eq, Structural)]
pub struct InstalledCanvas {
    pub kind: CanvasSurfaceKind,
    pub physical_width: u32,
    pub physical_height: u32,
}

/// What creating the onscreen canvas asks for.
#[derive(Debug, Clone, Copy, PartialEq, Eq, Structural)]
pub enum OnscreenPlan {
    /// The same window is installed at the expected size: nothing to do.
    Skip,
    /// Create the window surface; `destroy_existing` when a canvas is
    /// installed and has to be torn down first.
    Create { destroy_existing: bool },
}

/// The plan for `create_onscreen` on `window`, with the size the platform
/// expects (`None` on first creation and on context recovery).
pub open spec fn plan_onscreen_spec(
    installed: Option<InstalledCanvas>,
    window: usize,
    expected: Option<(u32, u32)>,
) -> OnscreenPlan {
    match (installed, expected) {
        (Some(c), Some((w, h))) if c.kind == CanvasSurfaceKind::Window(window) && c.physical_width
            == w && c.physical_height == h => OnscreenPlan::Skip,
        _ => OnscreenPlan::Create { destroy_existing: installed is Some },
    }
}

/// Decide whether `create_onscreen` recreates the surface.
pub fn plan_onscreen(installed: Option<InstalledCanvas>, window: usize, expected: Option<(u32, u32)>) -> (p: OnscreenPlan)
    ensures
        p == plan_onscreen_spec(installed, window, expected),
{
    if let Some((w, h)) = expected {
        if let Some(c) = installed {
            let same_window = match c.kind {
                CanvasSurfaceKind::Window(cw) => cw == window,
                CanvasSurfaceKind::Pbuffer => false,
            };
            if same_window && c.physical_width == w && c.physical_height == h {
                return OnscreenPlan::Skip;
            }
        }
    }
    OnscreenPlan::Create { destroy_existing: installed.is_some() }
}

/// A size the driver reported (`None` when the query failed), at least 1.
pub open spec fn queried_extent(q: Option<i32>) -> u32 {
    match q {
        Some(v) if v >= 1 => v as u32,
        _ => 1u32,
    }
}

/// At least 1.
pub open spec fn at_least_one(v: u32) -> u32 {
    if v >= 1 {
        v
    } else {
        1
    }
}

/// The physical size of a new onscreen canvas: the size the platform
/// expects when it gave one (the driver may report a rotated size), else
/// the size the driver reports; never below one pixel.
pub open spec fn onscreen_physical_size_spec(expected: Option<(u32, u32)>, queried: (Option<i32>, Option<i32>)) -> (u32, u32) {
    match expected {
        Some((w, h)) => (at_least_one(w), at_least_one(h)),
        None => (queried_extent(queried.0), queried_extent(queried.1)),
    }
}

fn extent_of(q: Option<i32>) -> (v: u32)
    ensures
        v == queried_extent(q),
{
    match q {
        Some(v) => if v >= 1 {
            v as u32
        } else {
            1
        },
        None => 1,
    }
}

/// Choose the physical size of a new onscreen canvas.
pub fn onscreen_physical_size(expected: Option<(u32, u32)>, queried: (Option<i32>, Option<i32>)) -> (s: (u32, u32))
    ensures
        s == onscreen_physical_size_spec(expected, queried),
{
    match expected {
        Some((w, h)) => (if w >= 1 { w } else { 1 }, if h >= 1 { h } else { 1 }),
        None => (extent_of(queried.0), extent_of(queried.1)),
    }
}

/// What resizing a canvas asks for.
#[derive(Debug, Clone, Copy, PartialEq, Eq, Structural)]
pub enum CanvasResizePlan {
    /// The size does not change: nothing to do.
    Unchanged,
    /// A window canvas keeps its surface (the window decides its size);
    /// only the drawing buffer, the recorded size and the viewport follow.
    ResizeDrawingBuffer { width: u32, height: u32 },
    /// An offscreen canvas gets a new pbuffer of the new size; when it is
    /// current it is unbound first and bound again on the new pbuffer.
    RecreatePbuffer { width: u32, height: u32, rebind: bool },
}

/// The plan for resizing a canvas of size `old` to the requested size
/// (each missing dimension keeps its old value).
pub open spec fn plan_canvas_resize_spec(
    old: (u32, u32),
    req: (Option<u32>, Option<u32>),
    kind: CanvasSurfaceKind,
    is_current: bool,
) -> CanvasResizePlan {
    let w = match req.0 {
        Some(w) => w,
        None => old.0,
    };
    let h = match req.1 {
        Some(h) => h,
        None => old.1,
    };
    if w == old.0 && h == old.1 {
        CanvasResizePlan::Unchanged
    } else if kind is Window {
        CanvasResizePlan::ResizeDrawingBuffer { width: w, height: h }
    } else {
        CanvasResizePlan::RecreatePbuffer { width: w, height: h, rebind: is_current }
    }
}

/// Decide what resizing a canvas does.
pub fn plan_canvas_resize(
    old: (u32, u32),
    req: (Option<u32>, Option<u32>),
    kind: CanvasSurfaceKind,
    is_current: bool,
) -> (p: CanvasResizePlan)
    ensures
        p == plan_canvas_resize_spec(old, req, kind, is_current),
{
    let w = match req.0 {
        Some(w) => w,
        None => old.0,
    };
    let h = match req.1 {
        Some(h) => h,
        None => old.1,
    };
    if w == old.0 && h == old.1 {
        return CanvasResizePlan::Unchanged;
    }
    match kind {
        CanvasSurfaceKind::Window(_) => CanvasResizePlan::ResizeDrawingBuffer { width: w, height: h },
        CanvasSurfaceKind::Pbuffer => CanvasResizePlan::RecreatePbuffer { width: w, height: h, rebind: is_current },
    }
}

/// Whether the onscreen canvas may render straight to the window surface,
/// skipping its drawing buffer: only with a single canvas that has a
/// drawing buffer, and never once the default framebuffer was read back.
pub open spec fn bypass_allowed(canvas_count: usize, needs_default_fbo_readback: bool, onscreen_has_drawing_buffer: bool) -> bool {
    canvas_count == 1 && !needs_default_fbo_readback && onscreen_has_drawing_buffer
}

/// Decide whether the onscreen canvas bypasses its drawing buffer.
pub fn can_bypass_drawing_buffer(canvas_count: usize, needs_default_fbo_readback: bool, onscreen_has_drawing_buffer: bool) -> (b: bool)
    ensures
        b == bypass_allowed(canvas_count, needs_default_fbo_readback, onscreen_has_drawing_buffer),
{
    canvas_count == 1 && !needs_default_fbo_readback && onscreen_has_drawing_buffer
}

/// What a default-framebuffer readback signal asks for.
#[derive(Debug, Clone, Copy, PartialEq, Eq, Structural)]
pub enum ReadbackPlan {
    /// Already signalled: nothing changes.
    Nothing,
    /// Turn bypass off for good; `reverse_blit` when the window surface
    /// holds the current frame (bypass was on and a drawing buffer exists)
    /// and must be copied into the drawing buffer.
    DisableBypass { reverse_blit: bool },
}

/// The plan for a readback signal.
pub fn readback_signal_plan(already_signalled: bool, bypass_was_active: bool, has_drawing_buffer: bool) -> (p: ReadbackPlan)
    ensures
        p == (if already_signalled {
            ReadbackPlan::Nothing
        } else {
            ReadbackPlan::DisableBypass { reverse_blit: bypass_was_active && has_drawing_buffer }
        }),
{
    if already_signalled {
        ReadbackPlan::Nothing
    } else {
        ReadbackPlan::DisableBypass { reverse_blit: bypass_was_active && has_drawing_buffer }
    }
}

/// Whether a swap goes through the drawing buffer: it is blitted to the
/// window before the swap and bound again after it.
pub fn drawing_buffer_in_use(bypass: bool, has_drawing_buffer: bool) -> (b: bool)
    ensures
        b == (!bypass && has_drawing_buffer),
{
    !bypass && has_drawing_buffer
}

/// The swap interval to set before presenting, or `None` when the one
/// last set already matches.
pub open spec fn swap_interval_change_spec(wait_for_vsync: bool, last_swap_interval: i32) -> Option<i32> {
    if (if wait_for_vsync { 1i32 } else { 0i32 }) == last_swap_interval {
        None
    } else {
        Some(if wait_for_vsync { 1i32 } else { 0i32 })
    }
}

/// Decide whether the swap interval has to be set before presenting.
pub fn swap_interval_change(wait_for_vsync: bool, last_swap_interval: i32) -> (r: Option<i32>)
    ensures
        r == swap_interval_change_spec(wait_for_vsync, last_swap_interval),
{
    let interval: i32 = if wait_for_vsync { 1 } else { 0 };
    if interval != last_swap_interval {
        Some(interval)
    } else {
        None
    }
}

/// What the manager has bound: the resource context or a canvas.
#[derive(Debug, Clone, Copy, PartialEq, Eq, Structural)]
pub enum BoundTarget {
    Resource,
    Canvas(u32),
}

/// The id of the onscreen canvas.
pub const ONSCREEN_CANVAS_ID: u32 = 1;

/// What `ensure_any_canvas_current` binds: the bound canvas if any, else
/// the onscreen canvas when installed, else `some_canvas` (any installed
/// canvas), else the resource context.
pub open spec fn current_target_spec(bound: BoundTarget, onscreen_installed: bool, some_canvas: Option<u32>) -> BoundTarget {
    match bound {
        BoundTarget::Canvas(id) => BoundTarget::Canvas(id),
        BoundTarget::Resource => if onscreen_installed {
            BoundTarget::Canvas(ONSCREEN_CANVAS_ID)
        } else {
            match some_canvas {
                Some(id) => BoundTarget::Canvas(id),
                None => BoundTarget::Resource,
            }
        },
    }
}

/// Choose the context `ensure_any_canvas_current` binds.
pub fn choose_current_target(bound: BoundTarget, onscreen_installed: bool, some_canvas: Option<u32>) -> (t: BoundTarget)
    ensures
        t == current_target_spec(bound, onscreen_installed, some_canvas),
{
    match bound {
        BoundTarget::Canvas(id) => BoundTarget::Canvas(id),
        BoundTarget::Resource => if onscreen_installed {
            BoundTarget::Canvas(ONSCREEN_CANVAS_ID)
        } else {
            match some_canvas {
                Some(id) => BoundTarget::Canvas(id),
                None => BoundTarget::Resource,
            }
        },
    }
}

/// The context restored after temporary work: the saved one, unless it was
/// a canvas that no longer exists, in which case the resource context.
pub fn restore_target(saved: BoundTarget, saved_canvas_exists: bool) -> (t: BoundTarget)
    ensures
        t == (match saved {
            BoundTarget::Canvas(id) => if saved_canvas_exists {
                BoundTarget::Canvas(id)
            } else {
                BoundTarget::Resource
            },
            BoundTarget::Resource => BoundTarget::Resource,
        }),
{
    match saved {
        BoundTarget::Canvas(id) => if saved_canvas_exists {
            BoundTarget::Canvas(id)
        } else {
            BoundTarget::Resource
        },
        BoundTarget::Resource => BoundTarget::Resource,
    }
}

/// The damage declared to the compositor for this frame's back buffer:
/// without buffer-age support the frame's own damage; with it, the frame's
/// damage widened by the history the buffer missed, or the full surface
/// when the driver gives no positive age.
pub open spec fn declared_damage_spec(
    current: ResolvedDamage,
    has_buffer_age: bool,
    queried_age: Option<i32>,
    history: Seq<ResolvedDamage>,
) -> ResolvedDamage {
    if !has_buffer_age {
        current
    } else {
        match queried_age {
            Some(age) if age > 0 => resolve_with_age_spec(history, current, age),
            _ => ResolvedDamage::FullSurface,
        }
    }
}

/// Decide the damage to declare before rendering a frame.
pub fn declared_buffer_damage(
    current: ResolvedDamage,
    has_buffer_age: bool,
    queried_age: Option<i32>,
    history: &DamageHistory,
) -> (r: ResolvedDamage)
    requires
        forall|a: i32|
            has_buffer_age && queried_age == Some(a) && a > 1 && a - 1 <= history.entries().len()
                ==> #[trigger] fold_computable(
                current,
                history.entries().subrange(history.entries().len() - (a - 1), history.entries().len() as int),
            ),
    ensures
        r == declared_damage_spec(current, has_buffer_age, queried_age, history.entries()),
{
    if !has_buffer_age {
        return current;
    }
    match queried_age {
        Some(age) => if age > 0 {
            history.resolve_with_age(current, age)
        } else {
            ResolvedDamage::FullSurface
        },
        None => ResolvedDamage::FullSurface,
    }
}

/// What recovering from a lost context asks for.
#[derive(Debug, Clone, Copy, PartialEq, Eq, Structural)]
pub enum RecoveryPlan {
    /// The context is not lost: nothing to do.
    NotLost,
    /// Recreate the onscreen canvas on this window, with no expected size.
    Recreate { window: usize },
    /// Lost, but no window is known to recreate on.
    NoWindow,
}

/// The plan for a context-loss recovery attempt.
pub fn recovery_plan(context_lost: bool, last_window: Option<usize>) -> (p: RecoveryPlan)
    ensures
        p == (if !context_lost {
            RecoveryPlan::NotLost
        } else {
            match last_window {
                Some(w) => RecoveryPlan::Recreate { window: w },
                None => RecoveryPlan::NoWindow,
            }
        }),
{
    if !context_lost {
        return RecoveryPlan::NotLost;
    }
    match last_window {
        Some(w) => RecoveryPlan::Recreate { window: w },
        None => RecoveryPlan::NoWindow,
    }
}

/// Why a canvas request was refused.
#[derive(Debug, Clone, Copy, PartialEq, Eq, Structural)]
pub enum CanvasError {
    /// The onscreen canvas is torn down only with its window.
    CannotDestroyOnscreen,
    /// No canvas has this id.
    NotFound(u32),
}

/// What destroying canvas `id` does: refused for the onscreen canvas;
/// otherwise `Ok(unbind)`, where `unbind` says the canvas is bound and the
/// resource context has to be bound first.
pub fn plan_destroy_canvas(id: u32, bound: BoundTarget) -> (r: Result<bool, CanvasError>)
    ensures
        id == ONSCREEN_CANVAS_ID ==> r == Err::<bool, CanvasError>(CanvasError::CannotDestroyOnscreen),
        id != ONSCREEN_CANVAS_ID ==> r == Ok::<bool, CanvasError>(bound == BoundTarget::Canvas(id)),
{
    if id == ONSCREEN_CANVAS_ID {
        return Err(CanvasError::CannotDestroyOnscreen);
    }
    let unbind = match bound {
        BoundTarget::Canvas(b) => b == id,
        BoundTarget::Resource => false,
    };
    Ok(unbind)
}

/// The framebuffer a canvas renders into by default: its drawing buffer,
/// unless bypassed (then the window's own framebuffer, `None`).
pub fn default_framebuffer(bypass: bool, drawing_buffer_fbo: Option<u32>) -> (f: Option<u32>)
    ensures
        f == (if bypass {
            None::<u32>
        } else {
            drawing_buffer_fbo
        }),
{
    if bypass {
        None
    } else {
        drawing_buffer_fbo
    }
}

/// `GL_ALREADY_SIGNALED`
pub const GL_ALREADY_SIGNALED: u32 = 0x911A;

/// `GL_CONDITION_SATISFIED`
pub const GL_CONDITION_SATISFIED: u32 = 0x911C;

/// What to do with a finished background upload on this frame.
#[derive(Debug, Clone, Copy, PartialEq, Eq, Structural)]
pub enum UploadCompletion {
    /// The GPU fence has not signalled: try again next frame.
    Defer,
    /// Signalled, but the image was destroyed meanwhile: delete the
    /// texture (the upload budget is still given back).
    Discard,
    /// Signalled: register the texture and answer the pending load (the
    /// upload budget is given back).
    Register,
}

/// Decide on a finished upload from its fence status (`glClientWaitSync`
/// with no timeout) and whether its image was cancelled.
pub fn upload_completion(fence_status: u32, cancelled: bool) -> (c: UploadCompletion)
    ensures
        c == (if fence_status != GL_ALREADY_SIGNALED && fence_status != GL_CONDITION_SATISFIED {
            UploadCompletion::Defer
        } else if cancelled {
            UploadCompletion::Discard
        } else {
            UploadCompletion::Register
        }),
{
    if fence_status != GL_ALREADY_SIGNALED && fence_status != GL_CONDITION_SATISFIED {
        UploadCompletion::Defer
    } else if cancelled {
        UploadCompletion::Discard
    } else {
        UploadCompletion::Register
    }
}

/// How a decoded image arrives.
#[derive(Debug, Clone, Copy, PartialEq, Eq, Structural)]
pub enum DecodedImageKind {
    /// GPU-compressed blocks.
    Compressed,
    /// Pixels already in a hardware buffer.
    HardwareBuffer,
    /// Plain RGBA pixels.
    Rgba,
}

/// Where an image load goes.
#[derive(Debug, Clone, Copy, PartialEq, Eq, Structural)]
pub enum ImageLoadRoute {
    /// Synchronous compressed upload.
    CompressedUpload,
    /// Zero-copy import of the hardware buffer.
    HardwareBufferImport,
    /// Synchronous RGBA upload on the render thread.
    SyncUpload,
    /// Hand the RGBA upload to the upload thread.
    AsyncUpload,
}

/// Route an image load: compressed and hardware-buffer images take their
/// own paths whatever their priority; RGBA images upload at once when
/// critical and go to the upload thread otherwise.
pub fn route_image_load(kind: DecodedImageKind, critical: bool) -> (r: ImageLoadRoute)
    ensures
        r == (match kind {
            DecodedImageKind::Compressed => ImageLoadRoute::CompressedUpload,
            DecodedImageKind::HardwareBuffer => ImageLoadRoute::HardwareBufferImport,
            DecodedImageKind::Rgba => if critical {
                ImageLoadRoute::SyncUpload
            } else {
                ImageLoadRoute::AsyncUpload
            },
        }),
{
    match kind {
        DecodedImageKind::Compressed => ImageLoadRoute::CompressedUpload,
        DecodedImageKind::HardwareBuffer => ImageLoadRoute::HardwareBufferImport,
        DecodedImageKind::Rgba => if critical {
            ImageLoadRoute::SyncUpload
        } else {
            ImageLoadRoute::AsyncUpload
        },
    }
}

/// What the upload thread's refusal of an image calls for.
#[derive(Debug, Clone, Copy, PartialEq, Eq, Structural)]
pub enum AsyncUploadRejectAction {
    /// Waiting cannot help (no healthy upload thread, or the image never
    /// fits its budget): upload synchronously.
    SyncFallback,
    /// A temporary budget squeeze: retry next frame.
    DeferRetry,
}

/// Whether a refused asynchronous upload ends up synchronous: always on
/// `SyncFallback`; on `DeferRetry` only when the deferred queue did not
/// take the image (`deferred` false), as a last resort.
pub fn rejected_upload_is_sync(action: AsyncUploadRejectAction, deferred: bool) -> (sync: bool)
    ensures
        sync == (action == AsyncUploadRejectAction::SyncFallback || !deferred),
{
    match action {
        AsyncUploadRejectAction::SyncFallback => true,
        AsyncUploadRejectAction::DeferRetry => !deferred,
    }
}

/// The canvas manager's state that spans calls: the swap interval last
/// set, whether the context was lost and on which window the onscreen
/// canvas last lived, the readback latch, the onscreen context kept for
/// reuse (`C`, the driver's context handle) and the damage history of the
/// window's back buffers.  The caller makes the driver calls each step
/// names.
pub struct CanvasSession<C> {
    last_swap_interval: i32,
    context_lost: bool,
    last_window: Option<usize>,
    needs_default_fbo_readback: bool,
    preserved_ctx: Option<C>,
    damage_history: DamageHistory,
}

impl<C> CanvasSession<C> {
    /// The swap interval last set (-1: none, so the next swap sets it).
    pub closed spec fn swap_interval(&self) -> i32 {
        self.last_swap_interval
    }

    /// Whether a swap reported the context lost since the onscreen canvas
    /// was last created.
    pub closed spec fn context_lost(&self) -> bool {
        self.context_lost
    }

    /// The window the onscreen canvas was last created on.
    pub closed spec fn last_window(&self) -> Option<usize> {
        self.last_window
    }

    /// Whether the default framebuffer was ever read back.
    pub closed spec fn readback_latched(&self) -> bool {
        self.needs_default_fbo_readback
    }

    /// The context of a destroyed onscreen canvas, kept for reuse.
    pub closed spec fn preserved(&self) -> Option<C> {
        self.preserved_ctx
    }

    /// Damages of the last presented frames, oldest first.
    pub closed spec fn history(&self) -> Seq<ResolvedDamage> {
        self.damage_history.entries()
    }

    /// The history never holds more than `MAX_HISTORY` frames.
    pub closed spec fn wf(&self) -> bool {
        self.damage_history.entries().len() <= MAX_HISTORY
    }

    /// A manager before any canvas exists.
    pub fn new() -> (s: Self)
        ensures
            s.wf(),
            s.swap_interval() == -1,
            !s.context_lost(),
            s.last_window() == None::<usize>,
            !s.readback_latched(),
            s.preserved() == None::<C>,
            s.history() == Seq::<ResolvedDamage>::empty(),
    {
        CanvasSession {
            last_swap_interval: -1,
            context_lost: false,
            last_window: None,
            needs_default_fbo_readback: false,
            preserved_ctx: None,
            damage_history: DamageHistory::new(),
        }
    }

    /// First step of `create_onscreen`: the plan for `window`.  Unless it is
    /// `Skip`, the canvas lives on `window` from now on, the context counts
    /// as healthy again, and the new surface starts with no swap interval
    /// set and no damage history.  A `Skip` changes nothing.
    pub fn begin_onscreen(
        &mut self,
        installed: Option<InstalledCanvas>,
        window: usize,
        expected: Option<(u32, u32)>,
    ) -> (p: OnscreenPlan)
        requires
            old(self).wf(),
        ensures
            final(self).wf(),
            p == plan_onscreen_spec(installed, window, expected),
            p == OnscreenPlan::Skip ==> *final(self) == *old(self),
            p != OnscreenPlan::Skip ==> {
                &&& final(self).last_window() == Some(window)
                &&& !final(self).context_lost()
                &&& final(self).swap_interval() == -1
                &&& final(self).history() == Seq::<ResolvedDamage>::empty()
                &&& final(self).readback_latched() == old(self).readback_latched()
                &&& final(self).preserved() == old(self).preserved()
            },
    {
        let p = plan_onscreen(installed, window, expected);
        match p {
            OnscreenPlan::Skip => {},
            OnscreenPlan::Create { .. } => {
                self.last_window = Some(window);
                self.context_lost = false;
                self.last_swap_interval = -1;
                self.damage_history.clear();
            },
        }
        p
    }

    /// The onscreen canvas was torn down and its context `ctx` kept for
    /// reuse; gives back the context kept before, which the caller
    /// destroys.  Its surface is gone, so no interval is set and the
    /// history no longer applies.
    pub fn onscreen_destroyed(&mut self, ctx: C) -> (prev: Option<C>)
        requires
            old(self).wf(),
        ensures
            final(self).wf(),
            prev == old(self).preserved(),
            final(self).preserved() == Some(ctx),
            final(self).swap_interval() == -1,
            final(self).history() == Seq::<ResolvedDamage>::empty(),
            final(self).context_lost() == old(self).context_lost(),
            final(self).last_window() == old(self).last_window(),
            final(self).readback_latched() == old(self).readback_latched(),
    {
        let prev = self.preserved_ctx.take();
        self.preserved_ctx = Some(ctx);
        self.last_swap_interval = -1;
        self.damage_history.clear();
        prev
    }

    /// The kept context, if any, for the new onscreen canvas to reuse; it
    /// is kept no longer.
    pub fn take_preserved_context(&mut self) -> (c: Option<C>)
        requires
            old(self).wf(),
        ensures
            final(self).wf(),
            c == old(self).preserved(),
            final(self).preserved() == None::<C>,
            final(self).swap_interval() == old(self).swap_interval(),
            final(self).history() == old(self).history(),
            final(self).context_lost() == old(self).context_lost(),
            final(self).last_window() == old(self).last_window(),
            final(self).readback_latched() == old(self).readback_latched(),
    {
        self.preserved_ctx.take()
    }

    /// A swap reported the context lost.
    pub fn mark_context_lost(&mut self)
        requires
            old(self).wf(),
        ensures
            final(self).wf(),
            final(self).context_lost(),
            final(self).swap_interval() == old(self).swap_interval(),
            final(self).history() == old(self).history(),
            final(self).last_window() == old(self).last_window(),
            final(self).readback_latched() == old(self).readback_latched(),
            final(self).preserved() == old(self).preserved(),
    {
        self.context_lost = true;
    }

    /// Whether the context is lost.
    pub fn is_context_lost(&self) -> (b: bool)
        ensures
            b == self.context_lost(),
    {
        self.context_lost
    }

    /// What a recovery attempt does: recreate on the last window when the
    /// context is lost (with no expected size, so it always rebuilds).
    pub fn recovery(&self) -> (p: RecoveryPlan)
        ensures
            p == (if !self.context_lost() {
                RecoveryPlan::NotLost
            } else {
                match self.last_window() {
                    Some(w) => RecoveryPlan::Recreate { window: w },
                    None => RecoveryPlan::NoWindow,
                }
            }),
    {
        recovery_plan(self.context_lost, self.last_window)
    }

    /// A default-framebuffer readback was seen: latch it (for good) and say
    /// what to do now.
    pub fn signal_readback(&mut self, bypass_was_active: bool, has_drawing_buffer: bool) -> (p: ReadbackPlan)
        requires
            old(self).wf(),
        ensures
            final(self).wf(),
            p == (if old(self).readback_latched() {
                ReadbackPlan::Nothing
            } else {
                ReadbackPlan::DisableBypass { reverse_blit: bypass_was_active && has_drawing_buffer }
            }),
            final(self).readback_latched(),
            final(self).swap_interval() == old(self).swap_interval(),
            final(self).history() == old(self).history(),
            final(self).context_lost() == old(self).context_lost(),
            final(self).last_window() == old(self).last_window(),
            final(self).preserved() == old(self).preserved(),
    {
        let p = readback_signal_plan(self.needs_default_fbo_readback, bypass_was_active, has_drawing_buffer);
        self.needs_default_fbo_readback = true;
        p
    }

    /// Whether the onscreen canvas may bypass its drawing buffer.
    pub fn can_bypass(&self, canvas_count: usize, onscreen_has_drawing_buffer: bool) -> (b: bool)
        ensures
            b == bypass_allowed(canvas_count, self.readback_latched(), onscreen_has_drawing_buffer),
    {
        can_bypass_drawing_buffer(canvas_count, self.needs_default_fbo_readback, onscreen_has_drawing_buffer)
    }

    /// The swap interval to set before this swap, if it changes; it is then
    /// the one last set.
    pub fn swap_interval_for(&mut self, wait_for_vsync: bool) -> (r: Option<i32>)
        requires
            old(self).wf(),
        ensures
            final(self).wf(),
            r == swap_interval_change_spec(wait_for_vsync, old(self).swap_interval()),
            final(self).swap_interval() == (if wait_for_vsync { 1i32 } else { 0i32 }),
            final(self).history() == old(self).history(),
            final(self).context_lost() == old(self).context_lost(),
            final(self).last_window() == old(self).last_window(),
            final(self).readback_latched() == old(self).readback_latched(),
            final(self).preserved() == old(self).preserved(),
    {
        let r = swap_interval_change(wait_for_vsync, self.last_swap_interval);
        if let Some(i) = r {
            self.last_swap_interval = i;
        }
        r
    }

    /// The damage to declare for this frame's back buffer.
    pub fn declared_damage(&self, current: ResolvedDamage, has_buffer_age: bool, queried_age: Option<i32>) -> (r: ResolvedDamage)
        requires
            forall|a: i32|
                has_buffer_age && queried_age == Some(a) && a > 1 && a - 1 <= self.history().len()
                    ==> #[trigger] fold_computable(
                    current,
                    self.history().subrange(self.history().len() - (a - 1), self.history().len() as int),
                ),
        ensures
            r == declared_damage_spec(current, has_buffer_age, queried_age, self.history()),
    {
        declared_buffer_damage(current, has_buffer_age, queried_age, &self.damage_history)
    }

    /// A frame was presented with `damage`: record it (after a successful
    /// swap only).
    pub fn record_presented(&mut self, damage: ResolvedDamage)
        requires
            old(self).wf(),
        ensures
            final(self).wf(),
            final(self).history() == (if old(self).history().len() >= MAX_HISTORY {
                old(self).history().drop_first()
            } else {
                old(self).history()
            }).push(damage),
            final(self).swap_interval() == old(self).swap_interval(),
            final(self).context_lost() == old(self).context_lost(),
            final(self).last_window() == old(self).last_window(),
            final(self).readback_latched() == old(self).readback_latched(),
            final(self).preserved() == old(self).preserved(),
    {
        self.damage_history.push(damage);
    }
}

/// After a surface is (re)created the swap interval counts as unset, so
/// the next swap always sets it, whichever interval it asks for.
pub proof fn law_new_surface_reapplies_swap_interval(wait_for_vsync: bool)
    ensures
        swap_interval_change_spec(wait_for_vsync, -1i32) is Some,
{
}

/// Once the readback latch is set, the drawing buffer is never bypassed
/// again.
pub proof fn law_latched_readback_forbids_bypass<C>(s: CanvasSession<C>, canvas_count: usize, has_drawing_buffer: bool)
    requires
        s.readback_latched(),
    ensures
        !bypass_allowed(canvas_count, s.readback_latched(), has_drawing_buffer),
{
}

/// Recovery after a lost context rebuilds the onscreen canvas: it asks for
/// no expected size, and creating without one never skips.
pub proof fn law_recovery_rebuilds(installed: Option<InstalledCanvas>, window: usize)
    ensures
        plan_onscreen_spec(installed, window, None) != OnscreenPlan::Skip,
{
}

/// Creating the onscreen canvas again with the size it already has on the
/// same window does nothing.
pub proof fn law_onscreen_recreate_is_idempotent(window: usize, w: u32, h: u32)
    ensures
        plan_onscreen_spec(
            Some(InstalledCanvas { kind: CanvasSurfaceKind::Window(window), physical_width: w, physical_height: h }),
            window,
            Some((w, h)),
        ) == OnscreenPlan::Skip,
{
}

/// Asking for the size a canvas already has, or for no size at all,
/// plans nothing.
pub proof fn law_resize_to_current_size_is_noop(old: (u32, u32), kind: CanvasSurfaceKind, is_current: bool)
    ensures
        plan_canvas_resize_spec(old, (Some(old.0), Some(old.1)), kind, is_current) == CanvasResizePlan::Unchanged,
        plan_canvas_resize_spec(old, (None, None), kind, is_current) == CanvasResizePlan::Unchanged,
{
}

} // verus!
