use ws_client::client::{Client, ConnState, LogEntry};

fn fresh(endpoint: &str) -> Client {
    Client::initialize(endpoint.to_string()).expect("endpoint should be well-formed")
}

#[test]
fn initialize_well_formed_urls_succeed() {
    for url in [
        "ws://127.0.0.1:3012",
        "wss://example.com",
        "ws://host:1",
        "ws://h",
        "ws://host:65535",
        "wss://a-b.c-d:80",
    ] {
        let c = Client::initialize(url.to_string());
        assert!(c.is_ok(), "{url} should be accepted");
        let c = c.unwrap();
        assert_eq!(c.state, ConnState::Connecting);
        assert_eq!(c.endpoint, url);
        assert_eq!(c.staged, "");
        assert!(c.sent.is_empty());
        assert!(c.log.is_empty());
    }
}

#[test]
fn initialize_malformed_urls_fail() {
    for url in [
        "",
        "ws",
        "ws:/",
        "http://x",
        "ws://",
        "wss://",
        "wss://:123",
        "ws://host:",
        "ws://host:65536",
        "ws://host:123456",
        "ws://ho st",
        "ws://host:12a",
        "ws://host:1:2",
        "ws://host/path",
    ] {
        assert!(
            Client::initialize(url.to_string()).is_err(),
            "{url} should be rejected"
        );
    }
}

#[test]
fn last_input_change_wins() {
    let mut c = fresh("ws://127.0.0.1:3012");
    c.on_input_change("t1".to_string());
    let _ = c.on_send_trigger();
    c.on_input_change("t2".to_string());
    let _ = c.on_send_trigger();
    let _ = c.on_send_trigger();
    c.on_input_change("t3".to_string());
    assert_eq!(c.staged, "t3");
}

#[test]
fn send_when_open_transmits_staged_and_keeps_it() {
    let mut c = fresh("ws://127.0.0.1:3012");
    let greeting = c.on_open();
    assert_eq!(greeting.as_deref(), Some("ping"));
    c.on_input_change("hello".to_string());
    let first = c.on_send_trigger();
    assert_eq!(first.as_deref(), Some("hello"));
    let second = c.on_send_trigger();
    assert_eq!(second.as_deref(), Some("hello"));
    assert_eq!(
        c.sent,
        vec!["ping".to_string(), "hello".to_string(), "hello".to_string()]
    );
    assert!(c.log.is_empty());
}

#[test]
fn send_when_closed_logs_transmit_error() {
    let mut c = fresh("ws://127.0.0.1:3012");
    c.on_disconnect();
    assert_eq!(c.state, ConnState::Closed);
    c.on_input_change("hello".to_string());
    let t = c.on_send_trigger();
    assert!(t.is_none());
    assert!(c.sent.is_empty());
    assert_eq!(c.log, vec![LogEntry::TransmitError]);
}

#[test]
fn send_when_still_connecting_logs_transmit_error() {
    let mut c = fresh("ws://127.0.0.1:3012");
    let t = c.on_send_trigger();
    assert!(t.is_none());
    assert!(c.sent.is_empty());
    assert_eq!(c.log, vec![LogEntry::TransmitError]);
}

#[test]
fn open_transmits_ping_once_whatever_is_staged() {
    let mut c = fresh("ws://127.0.0.1:3012");
    c.on_input_change("draft".to_string());
    let t = c.on_open();
    assert_eq!(t.as_deref(), Some("ping"));
    assert_eq!(c.state, ConnState::Open);
    assert_eq!(c.sent, vec!["ping".to_string()]);
    assert_eq!(c.staged, "draft");
    // a second open notification changes nothing
    let again = c.on_open();
    assert!(again.is_none());
    assert_eq!(c.sent, vec!["ping".to_string()]);
}

#[test]
fn inbound_text_is_logged_exactly_once() {
    let mut c = fresh("ws://127.0.0.1:3012");
    c.on_message(Some("msg".to_string()));
    assert_eq!(c.log, vec![LogEntry::Inbound("msg".to_string())]);
    assert!(c.sent.is_empty());
    assert_eq!(c.state, ConnState::Connecting);
}

#[test]
fn undecodable_inbound_payload_logs_decode_error() {
    let mut c = fresh("ws://127.0.0.1:3012");
    c.on_message(None);
    assert_eq!(c.log, vec![LogEntry::PayloadDecodeError]);
    assert!(c.sent.is_empty());
}

#[test]
fn error_notification_is_logged_verbatim() {
    let mut c = fresh("ws://127.0.0.1:3012");
    c.on_error("boom".to_string());
    assert_eq!(c.log, vec![LogEntry::ErrorNotice("boom".to_string())]);
    assert_eq!(c.state, ConnState::Connecting);
    assert!(c.sent.is_empty());
}

#[test]
fn scenario_open_hi_send_bye_send() {
    let mut c = fresh("ws://host:1");
    let _ = c.on_open();
    c.on_input_change("hi".to_string());
    let _ = c.on_send_trigger();
    c.on_input_change("bye".to_string());
    let _ = c.on_send_trigger();
    assert_eq!(
        c.sent,
        vec!["ping".to_string(), "hi".to_string(), "bye".to_string()]
    );
}
