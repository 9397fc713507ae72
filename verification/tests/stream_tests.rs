use binance_core::{backoff_ms, step, StreamAction, StreamEvent, StreamState};

// A connection-close frame leads back to Connecting with a reconnect action
// at the next tick, without caller intervention.
#[test]
fn close_frame_reconnects() {
    let (s1, a1) = step(StreamState::Connected, StreamEvent::Close);
    assert_eq!(s1, StreamState::Disconnected { attempt: 0 });
    assert!(matches!(a1, StreamAction::Idle));
    let (s2, a2) = step(s1, StreamEvent::Tick);
    assert_eq!(s2, StreamState::Connecting { attempt: 1 });
    assert!(matches!(a2, StreamAction::Connect { delay_ms: 500 }));
    let (s3, a3) = step(s2, StreamEvent::HandshakeOk);
    assert_eq!(s3, StreamState::Connected);
    assert!(matches!(a3, StreamAction::Idle));
}

// After Stop, the machine is Stopped and issues no further connection
// attempts, whatever arrives.
#[test]
fn stop_is_terminal() {
    let (s1, _) = step(StreamState::Disconnected { attempt: 0 }, StreamEvent::Stop);
    assert_eq!(s1, StreamState::Stopped);
    let (s2, a2) = step(s1, StreamEvent::Tick);
    assert_eq!(s2, StreamState::Stopped);
    assert!(matches!(a2, StreamAction::Idle));
    let (s3, a3) = step(s2, StreamEvent::HandshakeOk);
    assert_eq!(s3, StreamState::Stopped);
    assert!(matches!(a3, StreamAction::Idle));
}

#[test]
fn stop_wins_in_every_state() {
    for s in [
        StreamState::Connecting { attempt: 3 },
        StreamState::Connected,
        StreamState::Disconnected { attempt: 1 },
        StreamState::Stopped,
    ] {
        let (next, action) = step(s, StreamEvent::Stop);
        assert_eq!(next, StreamState::Stopped);
        assert!(matches!(action, StreamAction::Idle));
    }
}

#[test]
fn text_frames_dispatch_and_connection_stays_up() {
    let (s, a) = step(
        StreamState::Connected,
        StreamEvent::Text { payload: "{\"e\":\"aggTrade\"}".to_string() },
    );
    assert_eq!(s, StreamState::Connected);
    match a {
        StreamAction::Dispatch { payload } => assert_eq!(payload, "{\"e\":\"aggTrade\"}"),
        _ => panic!("expected a dispatch"),
    }
}

#[test]
fn ping_frames_are_answered_without_caller_involvement() {
    let (s, a) = step(StreamState::Connected, StreamEvent::Ping { data: vec![1, 2, 3] });
    assert_eq!(s, StreamState::Connected);
    match a {
        StreamAction::SendPong { data } => assert_eq!(data, vec![1, 2, 3]),
        _ => panic!("expected a pong"),
    }
}

#[test]
fn handshake_failure_backs_off_exponentially() {
    let mut state = StreamState::Connecting { attempt: 1 };
    let mut delays = Vec::new();
    for _ in 0..9 {
        let (s, _) = step(state, StreamEvent::HandshakeFailed { detail: "refused".to_string() });
        let (s2, a) = step(s, StreamEvent::Tick);
        match a {
            StreamAction::Connect { delay_ms } => delays.push(delay_ms),
            _ => panic!("expected a reconnect"),
        }
        state = s2;
    }
    assert_eq!(delays, vec![1000, 2000, 4000, 8000, 16000, 32000, 60000, 60000, 60000]);
}

#[test]
fn backoff_is_bounded() {
    assert_eq!(backoff_ms(0), 500);
    assert_eq!(backoff_ms(6), 32000);
    assert_eq!(backoff_ms(7), 60000);
    assert_eq!(backoff_ms(1000), 60000);
}
