//! When the detector looks again.

use vstd::prelude::*;

verus! {

/// What can end, or change, a wait.
#[derive(Clone, Copy, Debug, PartialEq, Eq, Structural)]
pub enum WakeEvent {
    /// The backend says that something changed.
    Ping,
    /// The period has passed.
    Timer,
    /// The backend is gone.
    BackendClosed,
}

/// What wakes the detector: a timer, and a backend that reports events where
/// there is one.
///
/// The timer is kept even with a backend, which may miss an event or die.
pub struct WakeSource {
    period_ms: u128,
    backend: bool,
}

impl WakeSource {
    /// How long a wait lasts at most, in milliseconds.
    pub closed spec fn period(&self) -> u128 {
        self.period_ms
    }

    /// Whether a backend is listened to.
    pub closed spec fn has_backend(&self) -> bool {
        self.backend
    }

    /// A source with no backend, which wakes every `period_ms`.
    pub fn timer_only(period_ms: u128) -> (wake: WakeSource)
        ensures
            wake.period() == period_ms,
            !wake.has_backend(),
    {
        WakeSource { period_ms, backend: false }
    }

    /// A source with a backend, which wakes at its events, and every
    /// `period_ms` in any case.
    pub fn events(period_ms: u128) -> (wake: WakeSource)
        ensures
            wake.period() == period_ms,
            wake.has_backend(),
    {
        WakeSource { period_ms, backend: true }
    }

    /// How long a wait that starts now lasts if nothing else happens. The
    /// first wait is no shorter than the others.
    pub fn timeout_ms(&self) -> (ms: u128)
        ensures
            ms == self.period(),
    {
        self.period_ms
    }

    /// Whether to listen to the backend.
    pub fn listens(&self) -> (listens: bool)
        ensures
            listens == self.has_backend(),
    {
        self.backend
    }

    /// Takes an event during a wait, and says whether it ends the wait. A
    /// backend that is gone is not listened to again: the wait goes on to its
    /// timer.
    pub fn on_event(&mut self, event: WakeEvent) -> (woken: bool)
        ensures
            woken == (event != WakeEvent::BackendClosed),
            final(self).period() == old(self).period(),
            final(self).has_backend() == (old(self).has_backend() && event
                != WakeEvent::BackendClosed),
    {
        if event == WakeEvent::BackendClosed {
            self.backend = false;
            false
        } else {
            true
        }
    }
}

} // verus!
