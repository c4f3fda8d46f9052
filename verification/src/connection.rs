use vstd::prelude::*;

verus! {

/// How long a connection task waits before it tries to connect again.
pub const RETRY_DELAY_MILLIS: u64 = 500;

/// Whether the settings of a group are usable: a probe must time out before
/// the next protocol period begins. Both durations are in nanoseconds.
pub fn periods_valid(protocol_nanos: u128, timeout_nanos: u128) -> (b: bool)
    ensures
        b == (timeout_nanos < protocol_nanos),
{
    timeout_nanos < protocol_nanos
}

/// Where the task that holds the connection to a peer stands.
#[derive(Debug, Clone, Copy, PartialEq, Eq, Structural)]
pub enum ConnectState {
    /// Not connected yet; `attempt` attempts have failed so far.
    Connecting { attempt: u64 },
    /// Connected; messages are written to the peer.
    Connected,
}

/// What happened since the last step.
#[derive(Debug)]
pub enum ConnectEvent {
    /// An attempt to connect failed.
    ConnectFailed,
    /// An attempt to connect succeeded.
    ConnectSucceeded,
    /// A message to write to the peer arrived.
    Outgoing { msg: String },
    /// The channel that carries messages to write is closed.
    ChannelClosed,
}

/// What the task does next.
#[derive(Debug)]
pub enum ConnectAction {
    /// Wait `millis` milliseconds, then try to connect again.
    RetryAfter { millis: u64 },
    /// Tell whoever waits for the connection that it is ready.
    SignalReady,
    /// Write `msg` to the peer.
    Write { msg: String },
    /// Report that no more messages can arrive, and carry on.
    ReportClosedChannel,
    /// The event does not fit the state: nothing to do.
    Ignore,
}

/// The state that a step leads to from `state` on `event`.
pub open spec fn connect_next(state: ConnectState, event: ConnectEvent) -> ConnectState {
    match (state, event) {
        (ConnectState::Connecting { attempt }, ConnectEvent::ConnectFailed) => ConnectState::Connecting {
            attempt: (attempt + 1) as u64,
        },
        (ConnectState::Connecting { .. }, ConnectEvent::ConnectSucceeded) => ConnectState::Connected,
        _ => state,
    }
}

/// One step of the task that connects to a peer and then writes to it:
/// while connecting, a failed attempt is counted and retried after
/// `RETRY_DELAY_MILLIS`, and a successful one is signalled; once connected,
/// every message is written and a closed channel is reported. Events that
/// do not fit the state are ignored.
pub fn connection_step(state: ConnectState, event: ConnectEvent) -> (r: (ConnectState, ConnectAction))
    requires
        event is ConnectFailed ==> (state matches ConnectState::Connecting { attempt } ==> attempt < u64::MAX),
    ensures
        r.0 == connect_next(state, event),
        event is ConnectSucceeded && state is Connecting ==> r.0 == ConnectState::Connected,
        state is Connected ==> r.0 == ConnectState::Connected,
        r.1 is SignalReady ==> r.0 == ConnectState::Connected,
        r.0 is Connected ==> (state is Connected || event is ConnectSucceeded),
        match (state, event) {
            (ConnectState::Connecting { .. }, ConnectEvent::ConnectFailed) => r.1 matches ConnectAction::RetryAfter { millis } && millis == RETRY_DELAY_MILLIS,
            (ConnectState::Connecting { .. }, ConnectEvent::ConnectSucceeded) => r.1 is SignalReady,
            (ConnectState::Connected, ConnectEvent::Outgoing { msg }) => r.1 matches ConnectAction::Write { msg: m } && m == msg,
            (ConnectState::Connected, ConnectEvent::ChannelClosed) => r.1 is ReportClosedChannel,
            _ => r.1 is Ignore,
        },
{
    match (state, event) {
        (ConnectState::Connecting { attempt }, ConnectEvent::ConnectFailed) => (
            ConnectState::Connecting { attempt: attempt + 1 },
            ConnectAction::RetryAfter { millis: RETRY_DELAY_MILLIS },
        ),
        (ConnectState::Connecting { .. }, ConnectEvent::ConnectSucceeded) => (
            ConnectState::Connected,
            ConnectAction::SignalReady,
        ),
        (ConnectState::Connected, ConnectEvent::Outgoing { msg }) => (
            ConnectState::Connected,
            ConnectAction::Write { msg },
        ),
        (ConnectState::Connected, ConnectEvent::ChannelClosed) => (
            ConnectState::Connected,
            ConnectAction::ReportClosedChannel,
        ),
        (s, _) => (s, ConnectAction::Ignore),
    }
}

/// A successful attempt connects, from any number of failed attempts; once
/// connected, the task stays connected whatever happens; a failed attempt
/// only counts one more attempt; and nothing but a successful attempt
/// connects a task that is not yet connected.
pub proof fn lemma_connect_progress(attempt: u64, event: ConnectEvent)
    ensures
        connect_next((ConnectState::Connecting { attempt }), ConnectEvent::ConnectSucceeded) == ConnectState::Connected,
        connect_next(ConnectState::Connected, event) == ConnectState::Connected,
        attempt < u64::MAX ==> connect_next((ConnectState::Connecting { attempt }), ConnectEvent::ConnectFailed) == (
        ConnectState::Connecting { attempt: (attempt + 1) as u64 }),
        !(event is ConnectSucceeded) ==> connect_next((ConnectState::Connecting { attempt }), event)
            != ConnectState::Connected,
{
}

} // verus!
