//! What a readiness check reported for one descriptor, as four facets.
use vstd::prelude::*;

use crate::descriptor::Descriptor;
use crate::events::{Events, POLLERR, POLLHUP, POLLNVAL, READ, WRITE};

verus! {

/// An event on one descriptor.
#[derive(Debug, Copy, Clone)]
pub struct Event {
    /// The file is writable.
    pub writable: bool,
    /// The file is readable.
    pub readable: bool,
    /// The file has been disconnected.
    pub hangup: bool,
    /// An error has occurred on the file.
    pub errored: bool,
    /// The descriptor that fired, as it stood after the readiness check.
    pub descriptor: Descriptor,
}

/// Whether any of `flags` is among `revents`.
pub open spec fn reports(revents: Events, flags: Events) -> bool {
    revents & flags != 0
}

/// The event that a descriptor's reported readiness stands for.
pub open spec fn event_of(d: Descriptor) -> Event {
    Event {
        readable: reports(d.revents(), READ),
        writable: reports(d.revents(), WRITE),
        hangup: reports(d.revents(), POLLHUP),
        errored: reports(d.revents(), POLLERR | POLLNVAL),
        descriptor: d,
    }
}

impl Event {
    /// The event for what the last readiness check reported on `descriptor`.
    pub fn from(descriptor: &Descriptor) -> (r: Event)
        ensures
            r == event_of(*descriptor),
    {
        let revents = descriptor.revents();
        Event {
            readable: revents & READ != 0,
            writable: revents & WRITE != 0,
            hangup: revents & POLLHUP != 0,
            errored: revents & (POLLERR | POLLNVAL) != 0,
            descriptor: *descriptor,
        }
    }
}

} // verus!
