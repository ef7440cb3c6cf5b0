//! A capability-table resource broker with a readiness bridge.
//!
//! A sandboxed guest reaches host-owned resources only through opaque
//! handles resolved by a capability table.  The table records parent/child
//! ownership, so dropping a parent transitively invalidates every handle
//! that descends from it.  A graphics context behind such a handle moves
//! through a small state machine (unconfigured, then configured for one of
//! a closed set of backends) and hands out frame buffers as child handles.
//! A subscription bridge turns a multicast host-event stream into a
//! per-subscriber one-shot readiness signal with a private cursor and a
//! one-slot latch.

pub mod error;
pub mod table;
pub mod events;
pub mod graphics;
pub mod host;
pub mod laws;
