use tcp_bridge::codec::{encode_event, Event};
use tcp_bridge::session::{Action, Input, Session, SessionState};
use tokio::net::{TcpListener, TcpStream};

fn connect_frame(host: &str, port: u16) -> Vec<u8> {
    let mut v = Vec::new();
    v.extend_from_slice(b"{\"type\":\"connect\",\"host\":\"");
    v.extend_from_slice(host.as_bytes());
    v.extend_from_slice(b"\",\"port\":");
    v.extend_from_slice(port.to_string().as_bytes());
    v.push(b'}');
    v
}

fn disconnect_frame() -> Vec<u8> {
    b"{\"type\":\"disconnect\"}".to_vec()
}

fn connected_session() -> Session {
    let mut s = Session::new();
    let a = s.handle(Input::Text { data: connect_frame("127.0.0.1", 4000) });
    assert_eq!(a, vec![Action::Dial { host: b"127.0.0.1".to_vec(), port: 4000 }]);
    let a = s.handle(Input::DialOk);
    assert_eq!(
        a,
        vec![
            Action::SpawnReader { reader: 0 },
            Action::Emit { event: Event::Connect { ok: true, error: None } },
        ]
    );
    assert_eq!(s.state, SessionState::Connected { reader: 0 });
    s
}

#[test]
fn echo_round_trip() {
    // connect{host,port} -> connect{ok:true}; binary "ping" out and the
    // echoed "ping" back; disconnect -> disconnect{reason:"client requested"}
    let mut s = connected_session();

    let a = s.handle(Input::Binary { data: b"ping".to_vec() });
    assert_eq!(a, vec![Action::WriteUpstream { data: b"ping".to_vec() }]);

    let a = s.handle(Input::ReaderData { reader: 0, data: b"ping".to_vec() });
    assert_eq!(a, vec![Action::Forward { data: b"ping".to_vec() }]);

    let a = s.handle(Input::Text { data: disconnect_frame() });
    assert_eq!(a.len(), 2);
    assert_eq!(a[0], Action::CancelReader { reader: 0 });
    let ev = Event::Disconnect { reason: Some(b"client requested".to_vec()) };
    assert_eq!(a[1], Action::Emit { event: ev.clone() });
    assert_eq!(
        encode_event(&ev),
        b"{\"type\":\"disconnect\",\"reason\":\"client requested\"}".to_vec()
    );
    assert_eq!(s.state, SessionState::Idle);
}

#[test]
fn payload_while_idle_yields_one_error_and_no_write() {
    let mut s = Session::new();
    let a = s.handle(Input::Binary { data: b"ping".to_vec() });
    assert_eq!(
        a,
        vec![Action::Emit { event: Event::Error { message: b"not connected".to_vec() } }]
    );
    assert!(a.iter().all(|act| !matches!(act, Action::WriteUpstream { .. })));
    assert_eq!(s.state, SessionState::Idle);
    // and again: nothing has changed
    let a = s.handle(Input::Binary { data: b"ping".to_vec() });
    assert_eq!(
        a,
        vec![Action::Emit { event: Event::Error { message: b"not connected".to_vec() } }]
    );
}

#[test]
fn eof_yields_one_disconnect_then_not_connected() {
    let mut s = connected_session();
    let a = s.handle(Input::ReaderEof { reader: 0 });
    assert_eq!(
        a,
        vec![Action::Emit {
            event: Event::Disconnect { reason: Some(b"connection closed".to_vec()) },
        }]
    );
    assert_eq!(s.state, SessionState::Idle);
    let a = s.handle(Input::Binary { data: b"x".to_vec() });
    assert_eq!(
        a,
        vec![Action::Emit { event: Event::Error { message: b"not connected".to_vec() } }]
    );
}

#[test]
fn read_error_yields_disconnect_with_error_text() {
    let mut s = connected_session();
    let a = s.handle(Input::ReaderFailed { reader: 0, error: b"connection reset".to_vec() });
    assert_eq!(
        a,
        vec![Action::Emit {
            event: Event::Disconnect { reason: Some(b"connection reset".to_vec()) },
        }]
    );
    assert_eq!(s.state, SessionState::Idle);
}

#[test]
fn reconnect_cancels_stale_reader_and_drops_its_bytes() {
    let mut s = connected_session();
    let a = s.handle(Input::Text { data: connect_frame("10.0.0.2", 9) });
    assert_eq!(
        a,
        vec![
            Action::CancelReader { reader: 0 },
            Action::Dial { host: b"10.0.0.2".to_vec(), port: 9 },
        ]
    );
    let a = s.handle(Input::DialOk);
    assert_eq!(
        a,
        vec![
            Action::SpawnReader { reader: 1 },
            Action::Emit { event: Event::Connect { ok: true, error: None } },
        ]
    );
    // anything the stale reader still reports is dropped
    let a = s.handle(Input::ReaderData { reader: 0, data: b"stale".to_vec() });
    assert_eq!(a, Vec::new());
    let a = s.handle(Input::ReaderEof { reader: 0 });
    assert_eq!(a, Vec::new());
    assert_eq!(s.state, SessionState::Connected { reader: 1 });
    // the live reader's bytes still flow
    let a = s.handle(Input::ReaderData { reader: 1, data: b"fresh".to_vec() });
    assert_eq!(a, vec![Action::Forward { data: b"fresh".to_vec() }]);
}

#[test]
fn malformed_control_yields_one_error_and_no_state_change() {
    let mut s = connected_session();
    let a = s.handle(Input::Text { data: b"{\"type\":\"open\"}".to_vec() });
    assert_eq!(
        a,
        vec![Action::Emit { event: Event::Error { message: b"invalid command".to_vec() } }]
    );
    assert_eq!(s.state, SessionState::Connected { reader: 0 });
    // the session still forwards payload: the link is untouched
    let a = s.handle(Input::Binary { data: b"x".to_vec() });
    assert_eq!(a, vec![Action::WriteUpstream { data: b"x".to_vec() }]);
}

#[test]
fn dial_failure_reports_and_recovers() {
    let mut s = Session::new();
    let a = s.handle(Input::Text { data: connect_frame("10.0.0.1", 1) });
    assert_eq!(a, vec![Action::Dial { host: b"10.0.0.1".to_vec(), port: 1 }]);
    let a = s.handle(Input::DialFailed { error: b"connection refused".to_vec() });
    assert_eq!(a.len(), 1);
    match &a[0] {
        Action::Emit { event: Event::Connect { ok, error } } => {
            assert!(!ok);
            let error = error.as_ref().expect("a dial failure carries an error");
            assert_eq!(error, &b"Failed to connect: connection refused".to_vec());
            assert!(!error.is_empty());
        },
        other => panic!("expected a connect ack, got {:?}", other),
    }
    assert_eq!(s.state, SessionState::Idle);
    // a subsequent connect is accepted
    let a = s.handle(Input::Text { data: connect_frame("10.0.0.1", 2) });
    assert_eq!(a, vec![Action::Dial { host: b"10.0.0.1".to_vec(), port: 2 }]);
    let a = s.handle(Input::DialOk);
    assert_eq!(a[0], Action::SpawnReader { reader: 0 });
}

#[test]
fn write_failure_tears_the_link_down() {
    let mut s = connected_session();
    let a = s.handle(Input::Binary { data: b"p".to_vec() });
    assert_eq!(a, vec![Action::WriteUpstream { data: b"p".to_vec() }]);
    let a = s.handle(Input::WriteFailed { error: b"broken pipe".to_vec() });
    assert_eq!(
        a,
        vec![
            Action::CancelReader { reader: 0 },
            Action::Emit { event: Event::Disconnect { reason: Some(b"broken pipe".to_vec()) } },
        ]
    );
    assert_eq!(s.state, SessionState::Idle);
}

#[test]
fn channel_close_cancels_the_reader_silently() {
    let mut s = connected_session();
    let a = s.handle(Input::ChannelClosed);
    assert_eq!(a, vec![Action::CancelReader { reader: 0 }]);
    assert_eq!(s.state, SessionState::Idle);

    let mut idle = Session::new();
    let a = idle.handle(Input::ChannelClosed);
    assert_eq!(a, Vec::new());
}

#[test]
fn dial_failure_against_closed_port() {
    let rt = tokio::runtime::Runtime::new().unwrap();
    rt.block_on(async {
        // find a port with nothing listening on it
        let listener = TcpListener::bind("127.0.0.1:0").await.unwrap();
        let addr = listener.local_addr().unwrap();
        drop(listener);

        let mut s = Session::new();
        let a = s.handle(Input::Text { data: connect_frame("127.0.0.1", addr.port()) });
        assert!(matches!(a[0], Action::Dial { .. }));
        let error = match TcpStream::connect(addr).await {
            Ok(_) => panic!("nothing should be listening"),
            Err(e) => e.to_string().into_bytes(),
        };
        let a = s.handle(Input::DialFailed { error });
        match &a[0] {
            Action::Emit { event: Event::Connect { ok, error } } => {
                assert!(!ok);
                assert!(!error.as_ref().unwrap().is_empty());
            }
            other => panic!("expected a connect ack, got {:?}", other),
        }
        assert_eq!(s.state, SessionState::Idle);
        // the session remains able to accept a subsequent connect
        let a = s.handle(Input::Text { data: connect_frame("127.0.0.1", 80) });
        assert_eq!(a, vec![Action::Dial { host: b"127.0.0.1".to_vec(), port: 80 }]);
    });
}

#[test]
fn disconnect_while_idle_still_notifies() {
    let mut s = Session::new();
    let a = s.handle(Input::Text { data: disconnect_frame() });
    assert_eq!(
        a,
        vec![Action::Emit {
            event: Event::Disconnect { reason: Some(b"client requested".to_vec()) },
        }]
    );
    assert_eq!(s.state, SessionState::Idle);
}
