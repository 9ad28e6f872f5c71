//! The native surface across lifecycle changes: created, resized, destroyed
//! (remembering what it was so it can be recreated), or lost with the GL
//! context.
//!
//! The device pixel ratio is carried as the bit pattern of an `f32`
//! (`f32::to_bits`); nothing here computes with it.

use vstd::prelude::*;

verus! {

/// Surface state.
#[derive(Debug, Clone, Copy, PartialEq, Eq, Structural)]
pub enum SurfaceState {
    /// No surface.
    NoSurface,
    /// Being recreated.
    Creating,
    /// Valid and ready.
    Valid,
    /// Being destroyed.
    Destroying,
    /// Lost with the GL context.
    Lost,
}

/// Bit pattern of the `f32` 1.0.
pub const DPI_ONE_BITS: u32 = 0x3F80_0000;

/// What is known of a surface.
#[derive(Debug, Clone, Copy, PartialEq, Eq, Structural)]
pub struct SurfaceInfo {
    /// Native window handle.
    pub native_window: usize,
    /// Width in pixels.
    pub width: u32,
    /// Height in pixels.
    pub height: u32,
    /// Device pixel ratio, as `f32` bits.
    pub dpi_bits: u32,
    /// Refresh rate in Hz.
    pub refresh_rate: u32,
}

impl SurfaceInfo {
    /// No window, no size, a pixel ratio of 1.0 and 60 Hz.
    pub open spec fn initial() -> SurfaceInfo {
        SurfaceInfo { native_window: 0, width: 0, height: 0, dpi_bits: DPI_ONE_BITS, refresh_rate: 60 }
    }
}

impl Default for SurfaceInfo {
    fn default() -> (i: Self)
        ensures
            i == SurfaceInfo::initial(),
    {
        SurfaceInfo { native_window: 0, width: 0, height: 0, dpi_bits: DPI_ONE_BITS, refresh_rate: 60 }
    }
}

/// The values a `SurfaceManager` holds.
#[derive(Debug, Clone, Copy, PartialEq, Eq)]
pub struct SurfaceView {
    pub state: SurfaceState,
    pub info: SurfaceInfo,
    pub pending: Option<SurfaceInfo>,
    pub context_lost: bool,
    pub frame_count: u64,
}

/// A surface was created with these values: it is valid, the context is
/// fresh and the frame count restarts.
pub open spec fn after_created(
    v: SurfaceView,
    native_window: usize,
    width: u32,
    height: u32,
    dpi_bits: u32,
) -> SurfaceView {
    SurfaceView {
        state: SurfaceState::Valid,
        info: SurfaceInfo { native_window, width, height, dpi_bits, refresh_rate: 60 },
        context_lost: false,
        frame_count: 0,
        ..v
    }
}

/// The surface was destroyed: a valid one is remembered for recreation,
/// and the window is gone.
pub open spec fn after_destroyed(v: SurfaceView) -> SurfaceView {
    SurfaceView {
        state: SurfaceState::NoSurface,
        info: SurfaceInfo { native_window: 0, ..v.info },
        pending: if v.state == SurfaceState::Valid {
            Some(v.info)
        } else {
            v.pending
        },
        ..v
    }
}

/// Recreation can start: no surface, and one is remembered.
pub open spec fn can_prepare(v: SurfaceView) -> bool {
    v.state == SurfaceState::NoSurface && v.pending is Some
}

/// Recreation started.
pub open spec fn after_prepare(v: SurfaceView) -> SurfaceView {
    if can_prepare(v) {
        SurfaceView { state: SurfaceState::Creating, ..v }
    } else {
        v
    }
}

/// Recreation finished on `native_window`: the remembered surface comes
/// back on the new window.
pub open spec fn after_complete(v: SurfaceView, native_window: usize) -> SurfaceView {
    match v.pending {
        Some(p) => SurfaceView {
            state: SurfaceState::Valid,
            info: SurfaceInfo { native_window, ..p },
            pending: None,
            context_lost: false,
            ..v
        },
        None => v,
    }
}

/// Manages the surface across lifecycle changes.
#[derive(Debug)]
pub struct SurfaceManager {
    state: SurfaceState,
    info: SurfaceInfo,
    pending_info: Option<SurfaceInfo>,
    context_lost: bool,
    frame_count: u64,
}

impl View for SurfaceManager {
    type V = SurfaceView;

    closed spec fn view(&self) -> SurfaceView {
        SurfaceView {
            state: self.state,
            info: self.info,
            pending: self.pending_info,
            context_lost: self.context_lost,
            frame_count: self.frame_count,
        }
    }
}

impl SurfaceManager {
    /// No surface yet.
    pub fn new() -> (m: Self)
        ensures
            m@ == (SurfaceView {
                state: SurfaceState::NoSurface,
                info: SurfaceInfo::initial(),
                pending: None,
                context_lost: false,
                frame_count: 0,
            }),
    {
        SurfaceManager {
            state: SurfaceState::NoSurface,
            info: SurfaceInfo::default(),
            pending_info: None,
            context_lost: false,
            frame_count: 0,
        }
    }

    /// Current state.
    pub fn state(&self) -> (s: SurfaceState)
        ensures
            s == self@.state,
    {
        self.state
    }

    /// Current surface information.
    pub fn info(&self) -> (i: &SurfaceInfo)
        ensures
            *i == self@.info,
    {
        &self.info
    }

    /// The surface can be rendered to: valid and the context not lost.
    pub fn is_valid(&self) -> (b: bool)
        ensures
            b == (self@.state == SurfaceState::Valid && !self@.context_lost),
    {
        self.state == SurfaceState::Valid && !self.context_lost
    }

    /// A surface was created.
    pub fn on_surface_created(&mut self, native_window: usize, width: u32, height: u32, dpi_bits: u32)
        ensures
            final(self)@ == after_created(old(self)@, native_window, width, height, dpi_bits),
    {
        self.info = SurfaceInfo { native_window, width, height, dpi_bits, refresh_rate: 60 };
        self.state = SurfaceState::Valid;
        self.context_lost = false;
        self.frame_count = 0;
    }

    /// The surface was resized.
    pub fn on_surface_changed(&mut self, width: u32, height: u32)
        ensures
            final(self)@ == (SurfaceView {
                info: SurfaceInfo { width, height, ..old(self)@.info },
                ..old(self)@
            }),
    {
        if self.info.width == width && self.info.height == height {
            return ;
        }
        self.info.width = width;
        self.info.height = height;
    }

    /// The surface was destroyed.
    pub fn on_surface_destroyed(&mut self)
        ensures
            final(self)@ == after_destroyed(old(self)@),
    {
        if self.state == SurfaceState::Valid {
            self.pending_info = Some(self.info);
        }
        self.state = SurfaceState::NoSurface;
        self.info.native_window = 0;
    }

    /// The GL context was lost.
    pub fn on_context_lost(&mut self)
        ensures
            final(self)@ == (SurfaceView {
                context_lost: true,
                state: SurfaceState::Lost,
                ..old(self)@
            }),
    {
        self.context_lost = true;
        self.state = SurfaceState::Lost;
    }

    /// A destroyed surface waits to be recreated.
    pub fn has_pending_surface(&self) -> (b: bool)
        ensures
            b == self@.pending is Some,
    {
        self.pending_info.is_some()
    }

    /// Take the remembered surface, forgetting it.
    pub fn take_pending_surface(&mut self) -> (p: Option<SurfaceInfo>)
        ensures
            p == old(self)@.pending,
            final(self)@ == (SurfaceView { pending: None, ..old(self)@ }),
    {
        self.pending_info.take()
    }

    /// Start recreating the remembered surface, returning it; `None`, with
    /// nothing changed, unless there is no surface and one is remembered.
    pub fn prepare_recreation(&mut self) -> (p: Option<SurfaceInfo>)
        ensures
            final(self)@ == after_prepare(old(self)@),
            p == (if can_prepare(old(self)@) {
                old(self)@.pending
            } else {
                None
            }),
    {
        if self.state == SurfaceState::NoSurface && self.pending_info.is_some() {
            self.state = SurfaceState::Creating;
            return self.pending_info;
        }
        None
    }

    /// Finish recreating the remembered surface on `native_window`.
    pub fn complete_recreation(&mut self, native_window: usize)
        ensures
            final(self)@ == after_complete(old(self)@, native_window),
    {
        if let Some(info) = self.pending_info {
            self.info = SurfaceInfo { native_window, ..info };
            self.state = SurfaceState::Valid;
            self.context_lost = false;
            self.pending_info = None;
        }
    }

    /// Count a presented frame.
    pub fn on_frame(&mut self)
        requires
            old(self)@.frame_count < u64::MAX,
        ensures
            final(self)@ == (SurfaceView { frame_count: (old(self)@.frame_count + 1) as u64, ..old(self)@ }),
    {
        self.frame_count = self.frame_count + 1;
    }

    /// Frames since the surface was created.
    pub fn frame_count(&self) -> (n: u64)
        ensures
            n == self@.frame_count,
    {
        self.frame_count
    }

    /// `(width, height)` in physical pixels.
    pub fn physical_size(&self) -> (s: (u32, u32))
        ensures
            s == (self@.info.width, self@.info.height),
    {
        (self.info.width, self.info.height)
    }
}

impl Default for SurfaceManager {
    fn default() -> (m: Self)
        ensures
            m@ == (SurfaceView {
                state: SurfaceState::NoSurface,
                info: SurfaceInfo::initial(),
                pending: None,
                context_lost: false,
                frame_count: 0,
            }),
    {
        SurfaceManager::new()
    }
}

/// Destroying a valid surface and recreating it on a new window brings the
/// surface back as it was, only on the new window, valid and with a live
/// context.
pub proof fn law_recreation_restores_surface(v: SurfaceView, window: usize)
    requires
        v.state == SurfaceState::Valid,
    ensures
        can_prepare(after_destroyed(v)),
        after_destroyed(v).pending == Some(v.info),
        after_complete(after_prepare(after_destroyed(v)), window).info == (SurfaceInfo {
            native_window: window,
            ..v.info
        }),
        after_complete(after_prepare(after_destroyed(v)), window).state == SurfaceState::Valid,
        !after_complete(after_prepare(after_destroyed(v)), window).context_lost,
        after_complete(after_prepare(after_destroyed(v)), window).pending is None,
{
}

/// A lost context makes the surface unusable until a surface is created or
/// recreated.
pub proof fn law_lost_context_is_not_valid(v: SurfaceView)
    ensures
        !((SurfaceView { context_lost: true, state: SurfaceState::Lost, ..v }).state
            == SurfaceState::Valid),
        !after_created(v, 0, 0, 0, 0).context_lost,
{
}

} // verus!
