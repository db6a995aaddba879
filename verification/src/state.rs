//! Lifecycle states of a session.

use vstd::prelude::*;

verus! {

/// Where a session stands in its lifecycle.
#[derive(Clone, Copy, Debug, PartialEq, Eq, Structural)]
pub enum ClientThreadState {
    /// Accepted, not logged in.
    Unauthorized,
    /// Logged in, waiting for the datagram claim.
    Unclaimed,
    /// Claimed, ready for promotion.
    Established,
    /// Promoted; handling gameplay.
    Active,
    /// Shutdown requested.
    Terminating,
    /// Transport ended, cleanup pending.
    Disconnected,
}

/// How a pre-active session ended.
#[derive(Clone, Copy, Debug, PartialEq, Eq, Structural)]
pub enum UnauthorizedThreadOutcome {
    /// The datagram flow was bound; the session is ready for promotion.
    Upgrade,
    /// The session asked to shut down.
    Terminate,
}

} // verus!
