//! The registry's record of one endpoint.
use vstd::prelude::*;

use crate::events::Events;

verus! {

/// One registered endpoint: its native handle, the events asked for, and the
/// events that the last readiness check reported.
#[derive(Debug, Copy, Clone)]
pub struct Descriptor {
    fd: i32,
    events: Events,
    revents: Events,
    waker: bool,
}

impl Descriptor {
    /// The native handle.
    pub closed spec fn spec_fd(&self) -> i32 {
        self.fd
    }

    /// The events asked for.
    pub closed spec fn spec_events(&self) -> Events {
        self.events
    }

    /// The events that the last readiness check reported.
    pub closed spec fn spec_revents(&self) -> Events {
        self.revents
    }

    /// Whether this entry is the reading half of a waker.
    pub closed spec fn spec_is_waker(&self) -> bool {
        self.waker
    }

    /// This descriptor with the events asked for replaced.
    pub closed spec fn with_events(self, events: Events) -> Descriptor {
        Descriptor { events, ..self }
    }

    /// This descriptor with the reported events replaced.
    pub closed spec fn with_revents(self, revents: Events) -> Descriptor {
        Descriptor { revents, ..self }
    }

    /// `d` is a fresh entry for `fd`, asking for `events`, with nothing reported yet.
    pub open spec fn is_fresh(d: Descriptor, fd: i32, events: Events, waker: bool) -> bool {
        &&& d.fd() == fd
        &&& d.events() == events
        &&& d.revents() == 0
        &&& d.is_waker() == waker
    }

    pub broadcast proof fn lemma_with_events(d: Descriptor, events: Events)
        ensures
            (#[trigger] d.with_events(events)).fd() == d.fd(),
            d.with_events(events).events() == events,
            d.with_events(events).revents() == d.revents(),
            d.with_events(events).is_waker() == d.is_waker(),
    {
    }

    pub broadcast proof fn lemma_with_revents(d: Descriptor, revents: Events)
        ensures
            (#[trigger] d.with_revents(revents)).fd() == d.fd(),
            d.with_revents(revents).events() == d.events(),
            d.with_revents(revents).revents() == revents,
            d.with_revents(revents).is_waker() == d.is_waker(),
    {
    }

    /// What the functional updates change, and what they keep.
    pub broadcast group group_updates {
        Descriptor::lemma_with_events,
        Descriptor::lemma_with_revents,
    }

    /// A descriptor for `fd` asking for `events`.
    pub fn new(fd: i32, events: Events) -> (r: Descriptor)
        ensures
            Descriptor::is_fresh(r, fd, events, false),
    {
        Descriptor { fd, events, revents: 0, waker: false }
    }

    /// A descriptor for the reading half of a waker: it asks for reading.
    pub fn waker(fd: i32) -> (r: Descriptor)
        ensures
            Descriptor::is_fresh(r, fd, crate::events::READ, true),
    {
        Descriptor { fd, events: crate::events::READ, revents: 0, waker: true }
    }

    #[verifier::when_used_as_spec(spec_fd)]
    pub fn fd(&self) -> (r: i32)
        ensures
            r == self.spec_fd(),
    {
        self.fd
    }

    #[verifier::when_used_as_spec(spec_events)]
    pub fn events(&self) -> (r: Events)
        ensures
            r == self.spec_events(),
    {
        self.events
    }

    #[verifier::when_used_as_spec(spec_revents)]
    pub fn revents(&self) -> (r: Events)
        ensures
            r == self.spec_revents(),
    {
        self.revents
    }

    #[verifier::when_used_as_spec(spec_is_waker)]
    pub fn is_waker(&self) -> (r: bool)
        ensures
            r == self.spec_is_waker(),
    {
        self.waker
    }

    /// Adds `events` to the events asked for.
    pub fn set(&mut self, events: Events)
        ensures
            *final(self) == old(self).with_events(old(self).events() | events),
    {
        self.events = self.events | events;
    }

    /// Removes `events` from the events asked for.
    pub fn unset(&mut self, events: Events)
        ensures
            *final(self) == old(self).with_events(old(self).events() & !events),
    {
        self.events = self.events & !events;
    }

    /// Replaces the events asked for.
    pub fn set_events(&mut self, events: Events)
        ensures
            *final(self) == old(self).with_events(events),
    {
        self.events = events;
    }

    /// Records what a readiness check reported for this descriptor.
    pub fn set_revents(&mut self, revents: Events)
        ensures
            *final(self) == old(self).with_revents(revents),
    {
        self.revents = revents;
    }
}

} // verus!
