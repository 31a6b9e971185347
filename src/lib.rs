//! A readiness-based I/O event core: a keyed registry of descriptors, the
//! translation of readiness bits into events, and the interpretation of one
//! readiness check into the events that callers see.
pub mod descriptor;
pub mod descriptors;
pub mod event;
pub mod events;
pub mod lemmas;
pub mod wait;

pub use descriptor::Descriptor;
pub use descriptors::Descriptors;
pub use event::Event;
pub use events::Events;
pub use wait::{timeout_millis, wait, Error, Wait};
