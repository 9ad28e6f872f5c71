//! The application lifecycle state machine.

use crate::lifecycle::{
    fps_for, surface_created_step, surface_created_step_spec,
    AppLifecycleState, LifecycleConfig, LifecycleEvent, LifecycleListener, SharedLifecycleState,
};
use std::sync::Arc;
use std::time::Instant;
use vstd::prelude::*;

verus! {

#[verifier::external_type_specification]
#[verifier::external_body]
pub struct ExInstant(Instant);


/// `Instant::now`: the current monotonic time.  Nothing is promised about
/// the value.
#[verifier::external_body]
fn instant_now() -> Instant {
    Instant::now()
}

/// `Instant::elapsed`, in whole milliseconds.  It depends on the clock, so
/// nothing is promised about the value.
#[verifier::external_body]
fn elapsed_millis(start: &Instant) -> u128 {
    start.elapsed().as_millis()
}

/// The registered listeners, in registration order.
#[verifier::external_body]
pub struct ListenerList {
    items: Vec<Arc<dyn LifecycleListener>>,
}

/// Number of listeners a list holds.
pub uninterp spec fn listener_list_len(l: ListenerList) -> nat;

/// The calls `send` has made through a list, in order: which listener, by
/// registration index, was handed which event.
pub uninterp spec fn listener_calls(l: ListenerList) -> Seq<(nat, LifecycleEvent)>;

/// One round of `event` over `n` listeners: listener 0 first, then 1, and
/// so on up to `n - 1`.
pub open spec fn round(n: nat, event: LifecycleEvent) -> Seq<(nat, LifecycleEvent)> {
    Seq::new(n, |k: int| (k as nat, event))
}

impl ListenerList {
    /// `Vec::new`: no listener, and no call made yet.
    #[verifier::external_body]
    fn new() -> (l: Self)
        ensures
            listener_list_len(l) == 0,
            listener_calls(l) == Seq::<(nat, LifecycleEvent)>::empty(),
    {
        ListenerList { items: Vec::new() }
    }

    /// `Vec::len`: number of listeners.
    #[verifier::external_body]
    fn len(&self) -> (n: usize)
        ensures
            n == listener_list_len(*self),
    {
        self.items.len()
    }

    /// Calls `LifecycleListener::on_lifecycle_event` with `event` on the
    /// `i`-th listener (`Vec` indexing, then the call): the call is added
    /// to the list's calls.  The listener is user code, so nothing is
    /// promised about what it does with the event.
    #[verifier::external_body]
    fn send(&mut self, i: usize, event: LifecycleEvent)
        requires
            i < listener_list_len(*old(self)),
        ensures
            listener_calls(*final(self)) == listener_calls(*old(self)).push((i as nat, event)),
            listener_list_len(*final(self)) == listener_list_len(*old(self)),
    {
        self.items[i].on_lifecycle_event(event)
    }
}

/// Whether a background stay of `background_elapsed_ms` (`None`: the app
/// is not in the background) exceeds `timeout_ms`.
pub fn deep_sleep_due(background_elapsed_ms: Option<u128>, timeout_ms: u64) -> (b: bool)
    ensures
        b == (match background_elapsed_ms {
            Some(e) => e > timeout_ms,
            None => false,
        }),
{
    match background_elapsed_ms {
        Some(e) => e > timeout_ms as u128,
        None => false,
    }
}

/// Manages application lifecycle state transitions.
pub struct AppStateManager {
    state: SharedLifecycleState,
    config: LifecycleConfig,
    background_start: Option<Instant>,
    listeners: ListenerList,
    surface_valid: bool,
    surface_size: (u32, u32),
    published: Ghost<Seq<AppLifecycleState>>,
    last_read: Ghost<AppLifecycleState>,
}

impl AppStateManager {
    /// Whether the manager holds a valid surface.
    pub closed spec fn spec_surface_valid(&self) -> bool {
        self.surface_valid
    }

    /// The last surface size reported.
    pub closed spec fn spec_surface_size(&self) -> (u32, u32) {
        self.surface_size
    }

    /// When the app last went to the background, if it has not come back
    /// since.
    pub closed spec fn timer_start(&self) -> Option<Instant> {
        self.background_start
    }

    /// Whether the background timer is running.
    pub open spec fn in_background_timer(&self) -> bool {
        self.timer_start() is Some
    }

    /// The state this manager last read back from the shared state (the
    /// initial state until it reads one).
    pub closed spec fn last_read(&self) -> AppLifecycleState {
        self.last_read@
    }

    /// The configuration.
    pub closed spec fn spec_config(&self) -> LifecycleConfig {
        self.config
    }

    /// Number of registered listeners.
    pub closed spec fn listener_count(&self) -> nat {
        listener_list_len(self.listeners)
    }

    /// The states this manager has stored into the shared state, oldest
    /// first, starting with the state the shared state was created with.
    /// This is a record the manager keeps of its own stores; it says
    /// nothing of what other handles stored since or what readers see.
    pub closed spec fn published(&self) -> Seq<AppLifecycleState> {
        self.published@
    }

    /// The calls made to the listeners so far, in order: which listener,
    /// by registration index, was handed which event.
    pub closed spec fn calls(&self) -> Seq<(nat, LifecycleEvent)> {
        listener_calls(self.listeners)
    }

    /// The handle the manager publishes through.
    pub closed spec fn state_handle(&self) -> SharedLifecycleState {
        self.state
    }

    pub fn new(config: LifecycleConfig) -> (m: Self)
        ensures
            !m.spec_surface_valid(),
            m.spec_surface_size() == (0u32, 0u32),
            !m.in_background_timer(),
            m.spec_config() == config,
            m.listener_count() == 0,
            m.published() == seq![AppLifecycleState::Uninitialized],
            m.calls() == Seq::<(nat, LifecycleEvent)>::empty(),
            m.last_read() == AppLifecycleState::Uninitialized,
    {
        AppStateManager {
            state: SharedLifecycleState::new(),
            config,
            background_start: None,
            listeners: ListenerList::new(),
            surface_valid: false,
            surface_size: (0, 0),
            published: Ghost(Seq::empty().push(AppLifecycleState::Uninitialized)),
            last_read: Ghost(AppLifecycleState::Uninitialized),
        }
    }

    /// Handle to the shared state, for other threads: the very handle the
    /// manager publishes through.
    pub fn shared_state(&self) -> (r: SharedLifecycleState)
        ensures
            r == self.state_handle(),
    {
        self.state.clone()
    }

    /// Publish `s` through the shared state and record it.
    fn publish(&mut self, s: AppLifecycleState)
        ensures
            final(self).published() == old(self).published().push(s),
            final(self).calls() == old(self).calls(),
            final(self).last_read() == old(self).last_read(),
            final(self).state_handle() == old(self).state_handle(),
            final(self).spec_surface_valid() == old(self).spec_surface_valid(),
            final(self).spec_surface_size() == old(self).spec_surface_size(),
            final(self).timer_start() == old(self).timer_start(),
            final(self).spec_config() == old(self).spec_config(),
            final(self).listener_count() == old(self).listener_count(),
    {
        self.state.set(s);
        proof {
            self.published@ = self.published@.push(s);
        }
    }

    /// Register a lifecycle listener: `Vec::push` on the listener list.  It
    /// calls no listener.
    #[verifier::external_body]
    pub fn add_listener(&mut self, listener: Arc<dyn LifecycleListener>)
        ensures
            final(self).listener_count() == old(self).listener_count() + 1,
            final(self).spec_surface_valid() == old(self).spec_surface_valid(),
            final(self).spec_surface_size() == old(self).spec_surface_size(),
            final(self).timer_start() == old(self).timer_start(),
            final(self).spec_config() == old(self).spec_config(),
            final(self).published() == old(self).published(),
            final(self).calls() == old(self).calls(),
            final(self).state_handle() == old(self).state_handle(),
    {
        self.listeners.items.push(listener);
    }

    /// Current state, as last published by any thread.
    pub fn current_state(&self) -> AppLifecycleState {
        self.state.get()
    }

    /// Target FPS for the state read: `fps_for(config, state)`.  The state
    /// is whatever another thread published last, so the result is the
    /// configured rate of some state: the active rate, the background rate
    /// or zero.
    pub fn target_fps(&self) -> (fps: u32)
        ensures
            exists|st: AppLifecycleState| fps == fps_for(self.spec_config(), st),
            fps == self.spec_config().active_fps || fps == self.spec_config().background_fps
                || fps == 0,
    {
        let s = self.state.get();
        let fps = self.config.fps_for_state(s);
        assert(fps == fps_for(self.spec_config(), s));
        fps
    }

    /// The app came to the foreground: stop the background timer and
    /// publish `AppLifecycleState::after_resume(surface_valid)`, notifying
    /// `Activated` when a surface is present.
    pub fn on_resume(&mut self)
        ensures
            !final(self).in_background_timer(),
            final(self).spec_surface_valid() == old(self).spec_surface_valid(),
            final(self).spec_surface_size() == old(self).spec_surface_size(),
            final(self).spec_config() == old(self).spec_config(),
            final(self).listener_count() == old(self).listener_count(),
            final(self).state_handle() == old(self).state_handle(),
            final(self).published() == old(self).published().push(
                if old(self).spec_surface_valid() {
                    AppLifecycleState::Active
                } else {
                    AppLifecycleState::Starting
                },
            ),
            final(self).calls() == (if old(self).spec_surface_valid() {
                old(self).calls() + round(old(self).listener_count(), LifecycleEvent::Activated)
            } else {
                old(self).calls()
            }),
    {
        self.background_start = None;
        let next = AppLifecycleState::after_resume(self.surface_valid);
        self.publish(next);
        if self.surface_valid {
            self.notify(LifecycleEvent::Activated);
        }
    }

    /// The app went to the background: start the background timer and, with
    /// a surface, publish `Background` and notify `Deactivated`.
    pub fn on_pause(&mut self)
        ensures
            final(self).in_background_timer(),
            final(self).spec_surface_valid() == old(self).spec_surface_valid(),
            final(self).spec_surface_size() == old(self).spec_surface_size(),
            final(self).spec_config() == old(self).spec_config(),
            final(self).listener_count() == old(self).listener_count(),
            final(self).state_handle() == old(self).state_handle(),
            final(self).published() == (if old(self).spec_surface_valid() {
                old(self).published().push(AppLifecycleState::Background)
            } else {
                old(self).published()
            }),
            final(self).calls() == (if old(self).spec_surface_valid() {
                old(self).calls() + round(old(self).listener_count(), LifecycleEvent::Deactivated)
            } else {
                old(self).calls()
            }),
    {
        self.background_start = Some(instant_now());
        if self.surface_valid {
            self.publish(AppLifecycleState::Background);
            self.notify(LifecycleEvent::Deactivated);
        }
    }

    /// A surface was created: record it, read the shared state and apply
    /// `surface_created_step` to it: publish the state it names, if any,
    /// then notify `SurfaceCreated`, then `Activated` when it says so.
    pub fn on_surface_created(&mut self, width: u32, height: u32)
        ensures
            final(self).spec_surface_valid(),
            final(self).spec_surface_size() == (width, height),
            final(self).timer_start() == old(self).timer_start(),
            final(self).spec_config() == old(self).spec_config(),
            final(self).listener_count() == old(self).listener_count(),
            final(self).state_handle() == old(self).state_handle(),
            final(self).published() == (match surface_created_step_spec(final(self).last_read()).0 {
                Some(next) => old(self).published().push(next),
                None => old(self).published(),
            }),
            final(self).calls() == (if surface_created_step_spec(final(self).last_read()).1 {
                old(self).calls() + round(old(self).listener_count(), LifecycleEvent::SurfaceCreated { width, height }) + round(old(self).listener_count(), LifecycleEvent::Activated)
            } else {
                old(self).calls() + round(old(self).listener_count(), LifecycleEvent::SurfaceCreated { width, height })
            }),
    {
        self.surface_valid = true;
        self.surface_size = (width, height);
        let current = self.state.get();
        proof {
            self.last_read@ = current;
        }
        let (publish, activated) = surface_created_step(current);
        match publish {
            Some(next) => self.publish(next),
            None => {},
        }
        self.notify(LifecycleEvent::SurfaceCreated { width, height });
        if activated {
            self.notify(LifecycleEvent::Activated);
        }
    }

    /// The surface was resized: record the new size and notify
    /// `SurfaceResized` unless it did not change.
    pub fn on_surface_changed(&mut self, width: u32, height: u32)
        ensures
            final(self).spec_surface_size() == (width, height),
            final(self).spec_surface_valid() == old(self).spec_surface_valid(),
            final(self).timer_start() == old(self).timer_start(),
            final(self).spec_config() == old(self).spec_config(),
            final(self).listener_count() == old(self).listener_count(),
            final(self).state_handle() == old(self).state_handle(),
            final(self).published() == old(self).published(),
            final(self).calls() == (if old(self).spec_surface_size() == (width, height) {
                old(self).calls()
            } else {
                old(self).calls() + round(old(self).listener_count(), LifecycleEvent::SurfaceResized { width, height })
            }),
    {
        if self.surface_size.0 == width && self.surface_size.1 == height {
            return ;
        }
        self.surface_size = (width, height);
        self.notify(LifecycleEvent::SurfaceResized { width, height });
    }

    /// The surface was destroyed: forget it, notify `SurfaceDestroyed` and
    /// publish `Suspended`.
    pub fn on_surface_destroyed(&mut self)
        ensures
            !final(self).spec_surface_valid(),
            final(self).spec_surface_size() == old(self).spec_surface_size(),
            final(self).timer_start() == old(self).timer_start(),
            final(self).spec_config() == old(self).spec_config(),
            final(self).listener_count() == old(self).listener_count(),
            final(self).state_handle() == old(self).state_handle(),
            final(self).calls() == old(self).calls() + round(old(self).listener_count(), LifecycleEvent::SurfaceDestroyed),
            final(self).published() == old(self).published().push(AppLifecycleState::Suspended),
    {
        self.surface_valid = false;
        self.notify(LifecycleEvent::SurfaceDestroyed);
        self.publish(AppLifecycleState::Suspended);
    }

    /// Low-memory warning: notify `LowMemory`.
    pub fn on_low_memory(&mut self)
        ensures
            final(self).spec_surface_valid() == old(self).spec_surface_valid(),
            final(self).spec_surface_size() == old(self).spec_surface_size(),
            final(self).timer_start() == old(self).timer_start(),
            final(self).spec_config() == old(self).spec_config(),
            final(self).listener_count() == old(self).listener_count(),
            final(self).state_handle() == old(self).state_handle(),
            final(self).published() == old(self).published(),
            final(self).calls() == old(self).calls() + round(old(self).listener_count(), LifecycleEvent::LowMemory),
    {
        self.notify(LifecycleEvent::LowMemory);
    }

    /// The app is being destroyed: publish `Stopping`.
    pub fn on_destroy(&mut self)
        ensures
            final(self).spec_surface_valid() == old(self).spec_surface_valid(),
            final(self).spec_surface_size() == old(self).spec_surface_size(),
            final(self).timer_start() == old(self).timer_start(),
            final(self).spec_config() == old(self).spec_config(),
            final(self).listener_count() == old(self).listener_count(),
            final(self).state_handle() == old(self).state_handle(),
            final(self).published() == old(self).published().push(AppLifecycleState::Stopping),
            final(self).calls() == old(self).calls(),
    {
        self.publish(AppLifecycleState::Stopping);
    }

    /// Whether the app has been in the background for longer than the
    /// configured timeout.  Never true while the background timer is off;
    /// with the timer on, the answer is `deep_sleep_due` on the clock's
    /// reading.
    pub fn should_deep_sleep(&self) -> (b: bool)
        ensures
            b ==> self.in_background_timer(),
    {
        let elapsed: Option<u128> = match &self.background_start {
            Some(start) => Some(elapsed_millis(start)),
            None => None,
        };
        deep_sleep_due(elapsed, self.config.background_timeout_ms)
    }

    /// Whether the surface is currently valid.
    pub fn has_valid_surface(&self) -> (b: bool)
        ensures
            b == self.spec_surface_valid(),
    {
        self.surface_valid
    }

    /// Last surface size reported.
    pub fn surface_size(&self) -> (s: (u32, u32))
        ensures
            s == self.spec_surface_size(),
    {
        self.surface_size
    }

    /// Send `event` to every listener, in registration order.
    fn notify(&mut self, event: LifecycleEvent)
        ensures
            final(self).calls() == old(self).calls() + round(old(self).listener_count(), event),
            final(self).published() == old(self).published(),
            final(self).last_read() == old(self).last_read(),
            final(self).state_handle() == old(self).state_handle(),
            final(self).spec_surface_valid() == old(self).spec_surface_valid(),
            final(self).spec_surface_size() == old(self).spec_surface_size(),
            final(self).timer_start() == old(self).timer_start(),
            final(self).spec_config() == old(self).spec_config(),
            final(self).listener_count() == old(self).listener_count(),
    {
        let n = self.listeners.len();
        let mut i: usize = 0;
        while i < n
            invariant
                n == listener_list_len(self.listeners),
                n == listener_list_len(old(self).listeners),
                0 <= i <= n,
                listener_calls(self.listeners) == listener_calls(old(self).listeners) + round(
                    i as nat,
                    event,
                ),
                self.state == old(self).state,
                self.config == old(self).config,
                self.background_start == old(self).background_start,
                self.surface_valid == old(self).surface_valid,
                self.surface_size == old(self).surface_size,
                self.published == old(self).published,
                self.last_read == old(self).last_read,
            decreases n - i,
        {
            let ghost before = listener_calls(self.listeners);
            self.listeners.send(i, event);
            proof {
                assert(round((i + 1) as nat, event) =~= round(i as nat, event).push((i as nat, event)));
                assert(listener_calls(self.listeners) =~= listener_calls(old(self).listeners) + round(
                    (i + 1) as nat,
                    event,
                ));
            }
            i = i + 1;
        }
    }
}

} // verus!
