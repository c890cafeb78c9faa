//! The failures that the node's logic can report.

use vstd::prelude::*;

verus! {

/// What can go wrong. None of these ends the process: a failed call is
/// dropped, a skipped tick is tried again, a closed channel or transport ends
/// the loop that owns it.
#[derive(Clone, Copy, Debug, PartialEq, Eq, Structural)]
pub enum RelayError {
    /// A path is malformed, or its signature cannot be made or does not verify.
    InvalidAddress,
    /// A send was attempted before any relay peer connected.
    NoActiveRelay,
    /// The consumer or producer of a channel of the bridge is gone.
    ChannelClosed,
    /// The client transport ended.
    TransportClosed,
}

} // verus!
