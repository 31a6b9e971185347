//! Readiness flags, with the values that `poll(2)` uses on Linux.
use vstd::prelude::*;

verus! {

/// Events that can be waited for.
pub type Events = i16;

/// The associated file is available for read operations.
pub const POLLIN: Events = 0x1;

/// There is urgent data available for read operations.
pub const POLLPRI: Events = 0x2;

/// The associated file is available for write operations.
pub const POLLOUT: Events = 0x4;

/// Error condition happened on the associated file descriptor.
/// It is always reported; it is not necessary to ask for it.
pub const POLLERR: Events = 0x8;

/// Hang up happened on the associated file descriptor.
/// It is always reported; it is not necessary to ask for it.
pub const POLLHUP: Events = 0x10;

/// The associated file is invalid.
/// It is always reported; it is not necessary to ask for it.
pub const POLLNVAL: Events = 0x20;

/// Priority data may be written.
pub const POLLWRBAND: Events = 0x200;

/// The associated file is ready to be read.
pub const READ: Events = POLLIN | POLLPRI;

/// The associated file is ready to be written.
pub const WRITE: Events = POLLOUT | POLLWRBAND;

} // verus!
