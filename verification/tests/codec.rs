use tcp_bridge::codec::{encode_event, parse_command, Command, Event};

fn parse(s: &[u8]) -> Option<Command> {
    parse_command(s)
}

#[test]
fn encode_connect_ok() {
    let out = encode_event(&Event::Connect { ok: true, error: None });
    assert_eq!(out, b"{\"type\":\"connect\",\"ok\":true,\"error\":null}".to_vec());
}

#[test]
fn encode_connect_failure() {
    let out = encode_event(
        &Event::Connect { ok: false, error: Some(b"Failed to connect: refused".to_vec()) },
    );
    assert_eq!(
        out,
        b"{\"type\":\"connect\",\"ok\":false,\"error\":\"Failed to connect: refused\"}".to_vec()
    );
}

#[test]
fn encode_disconnect_with_reason() {
    let out = encode_event(&Event::Disconnect { reason: Some(b"client requested".to_vec()) });
    assert_eq!(out, b"{\"type\":\"disconnect\",\"reason\":\"client requested\"}".to_vec());
}

#[test]
fn encode_disconnect_without_reason() {
    let out = encode_event(&Event::Disconnect { reason: None });
    assert_eq!(out, b"{\"type\":\"disconnect\",\"reason\":null}".to_vec());
}

#[test]
fn encode_error_event() {
    let out = encode_event(&Event::Error { message: b"invalid command".to_vec() });
    assert_eq!(out, b"{\"type\":\"error\",\"message\":\"invalid command\"}".to_vec());
}

#[test]
fn encode_escapes_special_bytes() {
    let message = vec![97, 34, 98, 92, 99, 10, 100, 9, 13, 1, 31];
    let out = encode_event(&Event::Error { message });
    assert_eq!(
        out,
        b"{\"type\":\"error\",\"message\":\"a\\\"b\\\\c\\nd\\t\\r\\u0001\\u001f\"}".to_vec()
    );
}

#[test]
fn parse_connect_frame() {
    let cmd = parse(b"{\"type\":\"connect\",\"host\":\"127.0.0.1\",\"port\":5000}");
    assert_eq!(cmd, Some(Command::Connect { host: b"127.0.0.1".to_vec(), port: 5000 }));
}

#[test]
fn parse_connect_frame_with_escaped_host() {
    let cmd = parse(b"{\"type\":\"connect\",\"host\":\"a\\\"b\\\\c\",\"port\":1}");
    assert_eq!(cmd, Some(Command::Connect { host: b"a\"b\\c".to_vec(), port: 1 }));
}

#[test]
fn parse_connect_port_bounds() {
    let cmd = parse(b"{\"type\":\"connect\",\"host\":\"h\",\"port\":65535}");
    assert_eq!(cmd, Some(Command::Connect { host: b"h".to_vec(), port: 65535 }));
    assert_eq!(parse(b"{\"type\":\"connect\",\"host\":\"h\",\"port\":65536}"), None);
    assert_eq!(parse(b"{\"type\":\"connect\",\"host\":\"h\",\"port\":99999}"), None);
    assert_eq!(parse(b"{\"type\":\"connect\",\"host\":\"h\",\"port\":100000}"), None);
}

#[test]
fn parse_connect_port_zero() {
    let cmd = parse(b"{\"type\":\"connect\",\"host\":\"h\",\"port\":0}");
    assert_eq!(cmd, Some(Command::Connect { host: b"h".to_vec(), port: 0 }));
}

#[test]
fn parse_rejects_leading_zero_port() {
    assert_eq!(parse(b"{\"type\":\"connect\",\"host\":\"h\",\"port\":007}"), None);
    assert_eq!(parse(b"{\"type\":\"connect\",\"host\":\"h\",\"port\":01}"), None);
}

#[test]
fn parse_rejects_empty_or_missing_port() {
    assert_eq!(parse(b"{\"type\":\"connect\",\"host\":\"h\",\"port\":}"), None);
    assert_eq!(parse(b"{\"type\":\"connect\",\"host\":\"h\"}"), None);
}

#[test]
fn parse_connect_empty_host() {
    let cmd = parse(b"{\"type\":\"connect\",\"host\":\"\",\"port\":80}");
    assert_eq!(cmd, Some(Command::Connect { host: Vec::new(), port: 80 }));
}

#[test]
fn parse_disconnect_frame() {
    assert_eq!(parse(b"{\"type\":\"disconnect\"}"), Some(Command::Disconnect));
}

#[test]
fn parse_rejects_malformed_input() {
    assert_eq!(parse(b""), None);
    assert_eq!(parse(b"hello"), None);
    assert_eq!(parse(b"{}"), None);
    assert_eq!(parse(b"{\"type\":\"shutdown\"}"), None);
    assert_eq!(parse(b"{\"type\":\"disconnect\"} "), None);
    assert_eq!(parse(b"{\"type\":\"disconnect\""), None);
    assert_eq!(parse(b"{\"type\":\"connect\",\"host\":\"h,\"port\":1}"), None);
    assert_eq!(parse(b"{\"type\":\"connect\",\"host\":\"h\",\"port\":1}x"), None);
    assert_eq!(parse(b"{\"type\":\"connect\",\"host\":\"h\\x\",\"port\":1}"), None);
}
