//! Application lifecycle state (foreground / background / suspended).
//!
//! The published state lives in an atomic shared with other threads, so no
//! contract can say what a later read returns.  The decisions themselves —
//! which state a callback publishes, how many frames per second a state
//! renders at — are plain functions on `AppLifecycleState` and
//! `LifecycleConfig` with exact contracts.

use std::sync::atomic::{AtomicU8, Ordering};
use std::sync::Arc;
use vstd::prelude::*;

verus! {

/// Application lifecycle state.
#[derive(Debug, Clone, Copy, PartialEq, Eq, Structural)]
pub enum AppLifecycleState {
    /// App is not yet initialized.
    Uninitialized,
    /// App is starting up (loading resources).
    Starting,
    /// App is in foreground, fully active.
    Active,
    /// App is in background but the surface is valid.
    Background,
    /// App is suspended (surface destroyed).
    Suspended,
    /// App is shutting down.
    Stopping,
}

/// The state a stored byte stands for; unknown bytes read as
/// `Uninitialized`.
pub open spec fn state_of_u8(v: u8) -> AppLifecycleState {
    if v == 1 {
        AppLifecycleState::Starting
    } else if v == 2 {
        AppLifecycleState::Active
    } else if v == 3 {
        AppLifecycleState::Background
    } else if v == 4 {
        AppLifecycleState::Suspended
    } else if v == 5 {
        AppLifecycleState::Stopping
    } else {
        AppLifecycleState::Uninitialized
    }
}

/// The byte that encodes a state.
pub open spec fn u8_of_state(s: AppLifecycleState) -> u8 {
    match s {
        AppLifecycleState::Uninitialized => 0,
        AppLifecycleState::Starting => 1,
        AppLifecycleState::Active => 2,
        AppLifecycleState::Background => 3,
        AppLifecycleState::Suspended => 4,
        AppLifecycleState::Stopping => 5,
    }
}

impl From<u8> for AppLifecycleState {
    fn from(v: u8) -> (s: Self) {
        match v {
            1 => AppLifecycleState::Starting,
            2 => AppLifecycleState::Active,
            3 => AppLifecycleState::Background,
            4 => AppLifecycleState::Suspended,
            5 => AppLifecycleState::Stopping,
            _ => AppLifecycleState::Uninitialized,
        }
    }
}

impl vstd::std_specs::convert::FromSpecImpl<u8> for AppLifecycleState {
    open spec fn obeys_from_spec() -> bool {
        true
    }

    open spec fn from_spec(v: u8) -> Self {
        state_of_u8(v)
    }
}

impl AppLifecycleState {
    /// The byte this state is stored as.
    pub fn as_u8(self) -> (v: u8)
        ensures
            v == u8_of_state(self),
    {
        match self {
            AppLifecycleState::Uninitialized => 0,
            AppLifecycleState::Starting => 1,
            AppLifecycleState::Active => 2,
            AppLifecycleState::Background => 3,
            AppLifecycleState::Suspended => 4,
            AppLifecycleState::Stopping => 5,
        }
    }

    /// Decode a stored byte.
    pub fn from_u8(v: u8) -> (s: Self)
        ensures
            s == state_of_u8(v),
    {
        AppLifecycleState::from(v)
    }

    /// The app is in the foreground.
    pub fn is_active(self) -> (b: bool)
        ensures
            b == (self == AppLifecycleState::Active),
    {
        self == AppLifecycleState::Active
    }

    /// The app renders frames (foreground or background).
    pub fn should_render(self) -> (b: bool)
        ensures
            b == (self == AppLifecycleState::Active || self == AppLifecycleState::Background),
    {
        match self {
            AppLifecycleState::Active | AppLifecycleState::Background => true,
            _ => false,
        }
    }

    /// The app has no surface (suspended or stopping).
    pub fn is_suspended(self) -> (b: bool)
        ensures
            b == (self == AppLifecycleState::Suspended || self == AppLifecycleState::Stopping),
    {
        match self {
            AppLifecycleState::Suspended | AppLifecycleState::Stopping => true,
            _ => false,
        }
    }

    /// The state published on resume: active with a surface, otherwise
    /// starting until one arrives.
    pub fn after_resume(surface_valid: bool) -> (s: Self)
        ensures
            s == (if surface_valid {
                AppLifecycleState::Active
            } else {
                AppLifecycleState::Starting
            }),
    {
        if surface_valid {
            AppLifecycleState::Active
        } else {
            AppLifecycleState::Starting
        }
    }

    /// The state published when a surface is created while in `self`:
    /// suspended or starting apps become active, others keep their state.
    pub fn after_surface_created(self) -> (s: Self)
        ensures
            s == (if self == AppLifecycleState::Suspended || self == AppLifecycleState::Starting {
                AppLifecycleState::Active
            } else {
                self
            }),
    {
        match self {
            AppLifecycleState::Suspended | AppLifecycleState::Starting => AppLifecycleState::Active,
            _ => self,
        }
    }
}

/// What creating a surface does in state `current`: the state to publish
/// (`None` when the state stays), and whether `Activated` is sent after
/// `SurfaceCreated`.  Suspended or starting apps become active; others keep
/// their state.
pub open spec fn surface_created_step_spec(current: AppLifecycleState) -> (Option<AppLifecycleState>, bool) {
    if current == AppLifecycleState::Suspended || current == AppLifecycleState::Starting {
        (Some(AppLifecycleState::Active), true)
    } else {
        (None, false)
    }
}

/// The decision `on_surface_created` takes on the state it read.
pub fn surface_created_step(current: AppLifecycleState) -> (r: (Option<AppLifecycleState>, bool))
    ensures
        r == surface_created_step_spec(current),
{
    let next = current.after_surface_created();
    if next != current {
        (Some(next), true)
    } else {
        (None, false)
    }
}

/// Decoding the encoding of a state gives the state back.
pub proof fn law_state_byte_roundtrip(s: AppLifecycleState)
    ensures
        state_of_u8(u8_of_state(s)) == s,
{
}

/// A state never both renders and is suspended.
pub proof fn law_render_excludes_suspended(s: AppLifecycleState)
    ensures
        !((s == AppLifecycleState::Active || s == AppLifecycleState::Background) && (s
            == AppLifecycleState::Suspended || s == AppLifecycleState::Stopping)),
{
}

/// `Arc::clone`: another pointer to the same allocation, so the clone
/// designates the same value.
#[verifier::external_body]
fn arc_clone<T>(a: &Arc<T>) -> (r: Arc<T>)
    ensures
        r == *a,
{
    a.clone()
}

/// Lifecycle state shared across threads.
pub struct SharedLifecycleState {
    state: Arc<AtomicU8>,
}

impl Clone for SharedLifecycleState {
    /// Another handle on the same shared state.
    fn clone(&self) -> (r: Self)
        ensures
            r == *self,
    {
        SharedLifecycleState { state: arc_clone(&self.state) }
    }
}

impl SharedLifecycleState {
    pub fn new() -> Self {
        SharedLifecycleState { state: Arc::new(AtomicU8::new(0)) }
    }

    /// Current state.  Other clones may change it at any time, so nothing
    /// is promised about the value read.
    pub fn get(&self) -> AppLifecycleState {
        AppLifecycleState::from_u8(self.state.load(Ordering::Acquire))
    }

    /// Publish `state` to every clone.
    pub fn set(&self, state: AppLifecycleState) {
        self.state.store(state.as_u8(), Ordering::Release);
    }

    /// Whether the state read is `Active`.
    pub fn is_active(&self) -> bool {
        self.get().is_active()
    }

    /// Whether the state read renders frames.
    pub fn should_render(&self) -> bool {
        self.get().should_render()
    }

    /// Whether the state read has no surface.
    pub fn is_suspended(&self) -> bool {
        self.get().is_suspended()
    }
}

impl Default for SharedLifecycleState {
    fn default() -> Self {
        SharedLifecycleState::new()
    }
}

/// Configuration for the lifecycle states.
#[derive(Debug, Clone)]
pub struct LifecycleConfig {
    /// Target FPS when active.
    pub active_fps: u32,
    /// Target FPS in the background.
    pub background_fps: u32,
    /// Whether GPU resources are released on suspend.
    pub release_resources_on_suspend: bool,
    /// Whether audio keeps playing in the background.
    pub audio_in_background: bool,
    /// Time in the background before deep sleep (ms).
    pub background_timeout_ms: u64,
}

impl Default for LifecycleConfig {
    fn default() -> (c: Self)
        ensures
            c.active_fps == 60,
            c.background_fps == 5,
            c.release_resources_on_suspend,
            c.audio_in_background,
            c.background_timeout_ms == 5000,
    {
        LifecycleConfig {
            active_fps: 60,
            background_fps: 5,
            release_resources_on_suspend: true,
            audio_in_background: true,
            background_timeout_ms: 5000,
        }
    }
}

/// The frame rate a state renders at under `config`.
pub open spec fn fps_for(config: LifecycleConfig, s: AppLifecycleState) -> u32 {
    match s {
        AppLifecycleState::Active => config.active_fps,
        AppLifecycleState::Background => config.background_fps,
        _ => 0,
    }
}

impl LifecycleConfig {
    /// Target frame rate for `state`: the active or background rate, and
    /// zero in every other state.
    pub fn fps_for_state(&self, state: AppLifecycleState) -> (fps: u32)
        ensures
            fps == fps_for(*self, state),
    {
        match state {
            AppLifecycleState::Active => self.active_fps,
            AppLifecycleState::Background => self.background_fps,
            _ => 0,
        }
    }
}

/// A state that does not render has a zero target frame rate.
pub proof fn law_no_render_no_frames(config: LifecycleConfig, s: AppLifecycleState)
    requires
        !(s == AppLifecycleState::Active || s == AppLifecycleState::Background),
    ensures
        fps_for(config, s) == 0,
{
}

/// Lifecycle event sent to listeners.
#[derive(Debug, Clone, Copy)]
pub enum LifecycleEvent {
    /// App became active (resumed).
    Activated,
    /// App went to the background.
    Deactivated,
    /// Surface was created.
    SurfaceCreated { width: u32, height: u32 },
    /// Surface was resized.
    SurfaceResized { width: u32, height: u32 },
    /// Surface was destroyed.
    SurfaceDestroyed,
    /// Low memory warning.
    LowMemory,
    /// Configuration changed (orientation, etc.).
    ConfigChanged,
}

/// Listener for lifecycle events, implemented by users of the library.
pub trait LifecycleListener: Send + Sync {
    /// Called when a lifecycle event occurs.
    fn on_lifecycle_event(&self, event: LifecycleEvent);
}

} // verus!
