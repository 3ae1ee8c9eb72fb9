//! The one shutdown event of a process, and the subscriptions that observe it.

use vstd::prelude::*;

verus! {

/// Owns the shutdown event: it fires at most once, and every subscription
/// sees it after it has fired.
pub struct ShutdownCoordinator {
    fired: bool,
}

/// One receiver of the shutdown event; it reports the event at most once.
pub struct Subscription {
    observed: bool,
}

impl ShutdownCoordinator {
    /// Whether the event has fired.
    pub closed spec fn fired(&self) -> bool {
        self.fired
    }

    /// A coordinator whose event has not fired yet.
    pub fn new() -> (r: ShutdownCoordinator)
        ensures
            !r.fired(),
    {
        ShutdownCoordinator { fired: false }
    }

    /// A fresh subscription, which has not observed the event.
    pub fn subscribe(&self) -> (s: Subscription)
        ensures
            !s.observed(),
    {
        Subscription { observed: false }
    }

    /// Fires the event. Returns whether this call was the one that fired it:
    /// a second call changes nothing.
    pub fn trigger(&mut self) -> (first: bool)
        ensures
            final(self).fired(),
            first == !old(self).fired(),
    {
        let first = !self.fired;
        self.fired = true;
        first
    }

    /// Whether the event has fired.
    pub fn is_fired(&self) -> (r: bool)
        ensures
            r == self.fired(),
    {
        self.fired
    }
}

impl Subscription {
    /// Whether this subscription has reported the event.
    pub closed spec fn observed(&self) -> bool {
        self.observed
    }

    /// Looks for the event: returns `true` on the first look after it fired,
    /// and `false` on every other.
    pub fn observe(&mut self, coordinator: &ShutdownCoordinator) -> (seen: bool)
        ensures
            seen == (coordinator.fired() && !old(self).observed()),
            final(self).observed() == (old(self).observed() || coordinator.fired()),
    {
        if coordinator.fired && !self.observed {
            self.observed = true;
            true
        } else {
            false
        }
    }

    /// Whether this subscription has reported the event.
    pub fn has_observed(&self) -> (r: bool)
        ensures
            r == self.observed(),
    {
        self.observed
    }
}

} // verus!
