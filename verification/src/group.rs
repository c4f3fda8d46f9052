use crate::peer::Peer;
use crate::registry::{round_effect, CheckOutcome, Registry};
use vstd::prelude::*;

verus! {

/// A request to the task that owns the registry of a group.
#[derive(Debug)]
pub enum HandlerMsg<M> {
    /// Add `member` under `id`; the sender waits for an acknowledgement.
    Add { id: usize, member: M },
    /// Remove the member with `id`.
    Remove { id: usize },
    /// Run one round of failure detection.
    PeriodicCheck,
}

/// What the task that owns the registry does after handling a request.
#[derive(Debug)]
pub enum HandlerAction {
    /// Acknowledge an `Add` to its sender, then wait for the next request.
    Acknowledge,
    /// Report the outcome of a round of failure detection, then wait for the
    /// next request.
    Checked(Option<CheckOutcome>),
    /// Wait for the next request.
    Continue,
    /// The request channel is closed: stop.
    Stop,
}

/// One step of the task that owns the registry of a group: `msg` is the next
/// request, or nothing when every sender has gone. An `Add` is applied and
/// acknowledged, a `Remove` is applied, a `PeriodicCheck` runs one round of
/// failure detection, and a closed channel stops the task with the registry
/// untouched.
pub fn handler_step<M: Peer>(registry: &mut Registry<M>, msg: Option<HandlerMsg<M>>) -> (action: HandlerAction)
    ensures
        final(registry).same_settings(old(registry)),
        match msg {
            None => action is Stop && final(registry)@ == old(registry)@,
            Some(HandlerMsg::Add { id, member }) => action is Acknowledge && final(registry)@ == old(registry)@.insert(id, member),
            Some(HandlerMsg::Remove { id }) => action is Continue && final(registry)@ == old(registry)@.remove(id),
            Some(HandlerMsg::PeriodicCheck) => action matches HandlerAction::Checked(outcome) && round_effect(old(registry)@, final(registry)@, old(registry).sample_size(), old(registry).timeout(), outcome),
        },
{
    match msg {
        None => HandlerAction::Stop,
        Some(HandlerMsg::Add { id, member }) => {
            registry.add(id, member);
            HandlerAction::Acknowledge
        },
        Some(HandlerMsg::Remove { id }) => {
            let _ = registry.remove(&id);
            HandlerAction::Continue
        },
        Some(HandlerMsg::PeriodicCheck) => {
            let outcome = registry.perform_periodic_check();
            HandlerAction::Checked(outcome)
        },
    }
}

} // verus!
