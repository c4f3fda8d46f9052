//! Membership and failure detection for a group of peers, in the style of
//! the SWIM protocol: each protocol period one member is probed directly,
//! and when it does not answer, `k` other members are asked to probe it on
//! the prober's behalf before it is declared failed.

pub mod ping;
pub mod peer;
pub mod registry;
pub mod group;
pub mod connection;
mod sampling;
