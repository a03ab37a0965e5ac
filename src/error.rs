//! The ways a clock operation can fail.
use vstd::prelude::*;

verus! {

/// A failed clock operation; the node's state is left as it was.
#[derive(Debug, Clone, PartialEq, Eq)]
pub enum HlcError {
    /// The text is not `<RFC 3339 time>-<hex counter>-<node id>`.
    InvalidFormat,
    /// A wall-time argument is not an RFC 3339 timestamp in range.
    InvalidTimestamp,
    /// The clock would run ahead of the observed wall time by more than
    /// allowed; the payload is the drift in whole minutes, rounded toward zero.
    ClockDrift { drift_minutes: i64 },
    /// The counter would pass its largest value within one wall-time tick.
    Overflow { counter: u32 },
    /// A remote timestamp claims the local node's own identity.
    DuplicateNode { node_id: String },
}

} // verus!
