use crate::ping::PingResult;
use std::time::Duration;
use vstd::prelude::*;

verus! {

/// Why an announcement to a peer could not be delivered.
#[derive(Debug)]
pub struct PeerError {
    pub message: String,
}

/// A member of a group, as seen by the failure detector.
///
/// Users implement this trait for their own transport. Each of the three
/// calls that the failure detector makes (`ping`, `ping_request` and
/// `announce_failure`) comes with a relation that the implementation uses
/// to describe what a call may do: from which state of the peers, with
/// which arguments, to which state and which answer. The failure detector
/// does not assume anything of these relations; its contracts say that
/// every answer it reports is one that such a call gave, on the right peer,
/// with the right target and timeout. An implementation that keeps the
/// default of a relation allows any outcome of that call; as the relations
/// may be refined by an implementation, the failure detector never relies
/// on their defaults.
pub trait Peer: Sized {
    /// What a probe of this peer may do: from state `before`, waiting at
    /// most `timeout`, to state `after`, with answer `r`. By default any
    /// outcome is allowed.
    open spec fn probed(before: Self, timeout: Duration, after: Self, r: PingResult) -> bool {
        true
    }

    /// Probes this peer directly, waiting at most `timeout`.
    fn ping(&mut self, timeout: Duration) -> (r: PingResult)
        ensures
            Self::probed(*old(self), timeout, *final(self), r),
    ;

    /// What a probe of `target` made by this peer on the caller's behalf may
    /// do: from states `before` and `target_before`, waiting at most
    /// `timeout`, to states `after` and `target_after`, with answer `r`. By
    /// default any outcome is allowed.
    open spec fn probed_for(
        before: Self,
        target_before: Self,
        timeout: Duration,
        after: Self,
        target_after: Self,
        r: PingResult,
    ) -> bool {
        true
    }

    /// Asks this peer to probe `target` on the caller's behalf.
    fn ping_request(&mut self, target: &mut Self, timeout: Duration) -> (r: PingResult)
        ensures
            Self::probed_for(*old(self), *old(target), timeout, *final(self), *final(target), r),
    ;

    /// What telling this peer that `target` has failed may do: from state
    /// `before` to state `after`, with result `r`. By default any outcome is
    /// allowed.
    open spec fn told_failure(before: Self, target: Self, after: Self, r: Result<(), PeerError>) -> bool {
        true
    }

    /// Tells this peer that `target` has failed.
    fn announce_failure(&mut self, target: &Self) -> (r: Result<(), PeerError>)
        ensures
            Self::told_failure(*old(self), *target, *final(self), r),
    ;

    /// Tells this peer that `target` has left the group. By default the
    /// announcement is delivered and the peer is left as it was.
    fn announce_remove(&mut self, target: &Self) -> (r: Result<(), PeerError>)
        default_ensures
            r is Ok,
            *final(self) == *old(self),
    {
        Ok(())
    }

    /// Tells this peer that `target` has joined the group. By default the
    /// announcement is delivered and the peer is left as it was.
    fn announce_add(&mut self, target: &Self) -> (r: Result<(), PeerError>)
        default_ensures
            r is Ok,
            *final(self) == *old(self),
    {
        Ok(())
    }

    /// A human-readable name for this peer.
    fn name(&self) -> String;
}

} // verus!
