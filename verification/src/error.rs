//! Error taxonomy of the broker.

use vstd::prelude::*;

verus! {

/// Every failure a broker operation can report to the guest.
///
/// All of these are recovered at the call boundary and returned as typed
/// values; none aborts the host.
#[derive(Clone, Copy, Debug, PartialEq, Eq)]
pub enum BrokerError {
    /// A stale, unknown or foreign handle was presented to a table operation.
    NoSuchHandle,
    /// A frame buffer was requested from a context before a backend was selected.
    Unconfigured,
    /// The native surface could not produce a texture; recoverable by
    /// reconfigure and retry.
    SurfaceLost,
    /// The native surface timed out producing a texture; recoverable.
    SurfaceTimeout,
    /// The multicast stream overflowed for a slow subscriber and events were
    /// dropped; the cursor has been resynchronised to the oldest retained event.
    SubscriptionLag,
}

} // verus!
