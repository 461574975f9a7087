use tcp_bridge::embedded::{
    reader_step, ConnectionState, DialOutcome, HostEvent, ReadOutcome, ReaderDecision,
    SendDecision,
};

#[test]
fn connect_success_stores_handles_and_starts_tasks() {
    let mut state = ConnectionState::new();
    assert!(!state.tcp_is_connected());
    let outcome = state.tcp_connect(DialOutcome::Succeeded);
    assert_eq!(outcome.response, Ok(b"Connected successfully".to_vec()));
    assert_eq!(
        outcome.event,
        Some(HostEvent::Connection { connected: true, error: None })
    );
    assert!(outcome.spawn_reader);
    assert!(outcome.spawn_writer);
    assert!(state.tcp_is_connected());
    assert!(state.stream && state.tx);
}

#[test]
fn connect_failure_changes_nothing_and_reports() {
    let mut state = ConnectionState::new();
    let outcome = state.tcp_connect(DialOutcome::Failed { error: b"timed out".to_vec() });
    assert_eq!(outcome.response, Err(b"Failed to connect: timed out".to_vec()));
    assert_eq!(outcome.event, None);
    assert!(!outcome.spawn_reader);
    assert!(!outcome.spawn_writer);
    assert!(!state.tcp_is_connected());
}

#[test]
fn send_enqueues_only_while_connected() {
    let mut state = ConnectionState::new();
    let rejected = state.tcp_send(b"ping".to_vec());
    assert_eq!(
        rejected,
        SendDecision::Rejected { error: b"not connected".to_vec() }
    );

    state.tcp_connect(DialOutcome::Succeeded);
    let queued = state.tcp_send(b"ping".to_vec());
    assert_eq!(
        queued,
        SendDecision::Enqueue { data: b"ping".to_vec(), response: b"Packet sent".to_vec() }
    );
}

#[test]
fn disconnect_clears_both_handles() {
    let mut state = ConnectionState::new();
    state.tcp_connect(DialOutcome::Succeeded);
    let response = state.tcp_disconnect();
    assert_eq!(response, b"Disconnected".to_vec());
    assert!(!state.tcp_is_connected());
    assert!(!state.stream && !state.tx);
    // sending afterwards is rejected again
    let rejected = state.tcp_send(b"x".to_vec());
    assert_eq!(
        rejected,
        SendDecision::Rejected { error: b"not connected".to_vec() }
    );
}

#[test]
fn status_is_a_pure_read() {
    let mut state = ConnectionState::new();
    assert!(!state.tcp_is_connected());
    assert!(!state.tcp_is_connected());
    state.tcp_connect(DialOutcome::Succeeded);
    assert!(state.tcp_is_connected());
    assert!(state.tcp_is_connected());
}

#[test]
fn reader_delivers_chunks_and_stops_on_eof() {
    let decision = reader_step(ReadOutcome::Data { data: b"abc".to_vec() });
    assert_eq!(
        decision,
        ReaderDecision::Deliver { event: HostEvent::PacketReceived { data: b"abc".to_vec() } }
    );

    let decision = reader_step(ReadOutcome::Eof);
    assert_eq!(
        decision,
        ReaderDecision::Stop {
            event: HostEvent::Connection {
                connected: false,
                error: Some(b"connection closed".to_vec()),
            },
        }
    );
}

#[test]
fn reader_stops_on_read_error_with_its_text() {
    let decision = reader_step(ReadOutcome::Failed { error: b"connection reset".to_vec() });
    assert_eq!(
        decision,
        ReaderDecision::Stop {
            event: HostEvent::Connection {
                connected: false,
                error: Some(b"connection reset".to_vec()),
            },
        }
    );
}
