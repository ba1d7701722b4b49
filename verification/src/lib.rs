//! Readiness-style socket handles over a completion-based kernel I/O model.
//!
//! A completion-based kernel reports "this operation finished", while a
//! readiness poller expects "this handle is now readable/writable".  This
//! library is the verified core of a bridge between the two models: a
//! selector owns a bounded buffer pool and a side-table of per-socket
//! state machines, hands buffers to speculative in-flight operations,
//! drains completion packets, and turns them into readiness events
//! carrying the caller's token.  The stream and listener handles compose
//! a state machine with a selector-identity guard that forbids
//! re-associating a handle with a second selector while it is still bound
//! to a first one.
//!
//! The kernel itself sits outside the library: callers submit the
//! completion packets the kernel produced to the selector's poll, and the
//! library decides, with proved contracts, which events are surfaced, how
//! buffers travel between the pool and in-flight operations, and how each
//! state machine advances.

pub mod ready;
pub mod pool;
pub mod poll;
pub mod net;
pub mod machine;
pub mod selector;
pub mod stream;
pub mod listener;
pub mod vectored;

pub use listener::UnixListener;
pub use stream::UnixStream;
