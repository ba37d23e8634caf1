//! A minimal message-oriented server core: a byte-level codec for a small
//! closed set of wire messages, the per-connection read/dispatch/respond
//! logic, and the shared running-state lifecycle that an accept loop and its
//! connection tasks observe.

pub mod codec;
pub mod handler;
pub mod lifecycle;
pub mod messages;
pub mod wire;
