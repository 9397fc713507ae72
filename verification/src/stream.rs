//! WebSocket stream lifecycle as an explicit state machine.
//!
//! One machine owns one logical connection.  The embedding program performs
//! the outside work — handshakes, frame reads, sleeps — and feeds each
//! observation in as a [`StreamEvent`]; the machine decides the next state
//! and the one [`StreamAction`] to perform.  Control frames are answered
//! without caller involvement; a lost connection leads back to `Connecting`
//! with a bounded exponential back-off, unless the caller requested `Stop`,
//! which is terminal.  A per-message decode failure is not an event of this
//! machine: the embedding program reports it and keeps reading, so one
//! malformed message never tears down a healthy stream.

use vstd::prelude::*;

verus! {

/// First reconnect delay, in milliseconds.
pub const BACKOFF_BASE_MS: u64 = 500;

/// Upper bound on the reconnect delay, in milliseconds.
pub const BACKOFF_CAP_MS: u64 = 60000;

/// Lifecycle state of one subscription's connection.
#[derive(Clone, Copy, Debug, PartialEq, Eq, Structural)]
pub enum StreamState {
    /// A handshake attempt is due or in flight; `attempt` counts consecutive
    /// failures since the last healthy connection.
    Connecting { attempt: u32 },
    /// The read loop is live.
    Connected,
    /// The connection was lost (or a handshake failed); the next `Tick`
    /// decides between reconnecting and stopping.
    Disconnected { attempt: u32 },
    /// Terminal: entered only on explicit caller request.
    Stopped,
}

/// One observation fed to the machine by the embedding program.
pub enum StreamEvent {
    /// The handshake of a `Connect` action succeeded.
    HandshakeOk,
    /// The handshake of a `Connect` action failed.
    HandshakeFailed { detail: String },
    /// A text frame arrived.
    Text { payload: String },
    /// A ping control frame arrived.
    Ping { data: Vec<u8> },
    /// A pong control frame arrived.
    Pong,
    /// The peer closed the connection.
    Close,
    /// A frame could not be read.
    ReadFailure { detail: String },
    /// The driver is ready for the next step after a disconnect.
    Tick,
    /// The caller requested a stop.
    Stop,
}

/// The one action the embedding program performs after a step.
pub enum StreamAction {
    Idle,
    /// Wait `delay_ms`, then attempt the handshake.
    Connect { delay_ms: u64 },
    /// Answer a ping with this pong payload.
    SendPong { data: Vec<u8> },
    /// Hand a text frame to the caller's decode-and-dispatch routine.
    Dispatch { payload: String },
}

/// Bounded exponential back-off: doubling from the base, capped.
pub open spec fn spec_backoff_ms(attempt: nat) -> int
    decreases attempt,
{
    if attempt == 0 {
        BACKOFF_BASE_MS as int
    } else if attempt > 6 {
        BACKOFF_CAP_MS as int
    } else {
        2 * spec_backoff_ms((attempt - 1) as nat)
    }
}

/// The transition function: next state and action for a state and event.
pub open spec fn spec_step(s: StreamState, e: StreamEvent) -> (StreamState, StreamAction) {
    match e {
        StreamEvent::Stop => (StreamState::Stopped, StreamAction::Idle),
        _ => match s {
            StreamState::Stopped => (StreamState::Stopped, StreamAction::Idle),
            StreamState::Connecting { attempt } => match e {
                StreamEvent::HandshakeOk => (StreamState::Connected, StreamAction::Idle),
                StreamEvent::HandshakeFailed { .. } => (
                    StreamState::Disconnected { attempt },
                    StreamAction::Idle,
                ),
                _ => (s, StreamAction::Idle),
            },
            StreamState::Connected => match e {
                StreamEvent::Text { payload } => (
                    StreamState::Connected,
                    StreamAction::Dispatch { payload },
                ),
                StreamEvent::Ping { data } => (
                    StreamState::Connected,
                    StreamAction::SendPong { data },
                ),
                StreamEvent::Close => (
                    StreamState::Disconnected { attempt: 0 },
                    StreamAction::Idle,
                ),
                StreamEvent::ReadFailure { .. } => (
                    StreamState::Disconnected { attempt: 0 },
                    StreamAction::Idle,
                ),
                _ => (StreamState::Connected, StreamAction::Idle),
            },
            StreamState::Disconnected { attempt } => match e {
                StreamEvent::Tick => (
                    StreamState::Connecting {
                        attempt: if attempt == u32::MAX {
                            attempt
                        } else {
                            (attempt + 1) as u32
                        },
                    },
                    StreamAction::Connect { delay_ms: spec_backoff_ms(attempt as nat) as u64 },
                ),
                _ => (s, StreamAction::Idle),
            },
        },
    }
}

/// The reconnect delay before attempt `attempt + 1`.
pub fn backoff_ms(attempt: u32) -> (r: u64)
    ensures
        r as int == spec_backoff_ms(attempt as nat),
        BACKOFF_BASE_MS <= r <= BACKOFF_CAP_MS,
{
    proof {
        reveal_with_fuel(spec_backoff_ms, 8);
    }
    match attempt {
        0 => BACKOFF_BASE_MS,
        1 => 1000,
        2 => 2000,
        3 => 4000,
        4 => 8000,
        5 => 16000,
        6 => 32000,
        _ => BACKOFF_CAP_MS,
    }
}

/// Performs one transition, consuming the event and yielding the action for
/// the embedding program.
pub fn step(state: StreamState, event: StreamEvent) -> (r: (StreamState, StreamAction))
    ensures
        r == spec_step(state, event),
{
    match event {
        StreamEvent::Stop => (StreamState::Stopped, StreamAction::Idle),
        e => match state {
            StreamState::Stopped => (StreamState::Stopped, StreamAction::Idle),
            StreamState::Connecting { attempt } => match e {
                StreamEvent::HandshakeOk => (StreamState::Connected, StreamAction::Idle),
                StreamEvent::HandshakeFailed { .. } => (
                    StreamState::Disconnected { attempt },
                    StreamAction::Idle,
                ),
                _ => (state, StreamAction::Idle),
            },
            StreamState::Connected => match e {
                StreamEvent::Text { payload } => (
                    StreamState::Connected,
                    StreamAction::Dispatch { payload },
                ),
                StreamEvent::Ping { data } => (
                    StreamState::Connected,
                    StreamAction::SendPong { data },
                ),
                StreamEvent::Close => (
                    StreamState::Disconnected { attempt: 0 },
                    StreamAction::Idle,
                ),
                StreamEvent::ReadFailure { .. } => (
                    StreamState::Disconnected { attempt: 0 },
                    StreamAction::Idle,
                ),
                _ => (StreamState::Connected, StreamAction::Idle),
            },
            StreamState::Disconnected { attempt } => match e {
                StreamEvent::Tick => {
                    let next: u32 = if attempt == u32::MAX {
                        attempt
                    } else {
                        attempt + 1
                    };
                    let delay = backoff_ms(attempt);
                    (
                        StreamState::Connecting { attempt: next },
                        StreamAction::Connect { delay_ms: delay },
                    )
                },
                _ => (state, StreamAction::Idle),
            },
        },
    }
}

/// A connection-close frame (or read failure) while connected leads, without
/// caller intervention, through `Disconnected` back to `Connecting` with a
/// reconnect action at the next tick — unless `Stop` was requested, in which
/// case the machine is `Stopped` and no connection attempt is issued.
pub proof fn lemma_close_reconnects(attempt: u32)
    ensures
        spec_step(StreamState::Connected, StreamEvent::Close) == (
            StreamState::Disconnected { attempt: 0 },
            StreamAction::Idle,
        ),
        spec_step(StreamState::Disconnected { attempt }, StreamEvent::Tick).0 is Connecting,
        spec_step(StreamState::Disconnected { attempt }, StreamEvent::Tick).1 is Connect,
        spec_step(StreamState::Disconnected { attempt }, StreamEvent::Stop) == (
            StreamState::Stopped,
            StreamAction::Idle,
        ),
{
}

/// `Stopped` is terminal: whatever arrives, the machine stays `Stopped` and
/// never issues a connection attempt.
pub proof fn lemma_stopped_is_terminal(e: StreamEvent)
    ensures
        spec_step(StreamState::Stopped, e).0 == StreamState::Stopped,
        !(spec_step(StreamState::Stopped, e).1 is Connect),
{
}

/// The reconnect delay grows monotonically with the failure count and never
/// exceeds the cap.
pub proof fn lemma_backoff_bounded(attempt: nat)
    ensures
        BACKOFF_BASE_MS <= spec_backoff_ms(attempt) <= BACKOFF_CAP_MS,
        attempt > 0 ==> spec_backoff_ms((attempt - 1) as nat) <= spec_backoff_ms(attempt),
    decreases attempt,
{
    if attempt > 0 {
        lemma_backoff_bounded((attempt - 1) as nat);
        reveal_with_fuel(spec_backoff_ms, 8);
    }
}

} // verus!
