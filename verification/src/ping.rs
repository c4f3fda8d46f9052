use vstd::prelude::*;

verus! {

/// The answer to a probe of a peer.
#[derive(Debug, Clone, Copy, PartialEq, Eq, Structural)]
pub enum PingResult {
    /// The peer answered.
    Pong,
    /// The peer did not answer in time, or the probe failed.
    Pang,
}

impl PingResult {
    /// Whether this answer is a success.
    pub open spec fn is_pong(self) -> bool {
        self is Pong
    }

    /// Executable form of `is_pong`.
    pub fn answered(&self) -> (r: bool)
        ensures
            r == self.is_pong(),
    {
        match self {
            PingResult::Pong => true,
            PingResult::Pang => false,
        }
    }
}

} // verus!
