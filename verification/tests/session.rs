use mchat::internal::clock::ClockTime;
use mchat::internal::conn::format_broadcast_line;
use mchat::internal::conn::prompt_bytes;
use mchat::internal::conn::BusEvent;
use mchat::internal::conn::ConnStats;
use mchat::internal::conn::HandshakeStep;
use mchat::internal::conn::NetModel;
use mchat::internal::conn::PromptKind;
use mchat::internal::conn::RelayOutcome;
use mchat::internal::conn::SessionPhase;
use mchat::internal::conn::SocketOutcome;
use mchat::internal::packet::Packet;

fn bus(
    capacity: usize,
) -> (
    tokio::sync::broadcast::Sender<Packet>,
    tokio::sync::broadcast::Receiver<Packet>,
) {
    tokio::sync::broadcast::channel(capacity)
}

#[test]
fn with_param_binds_session_to_bus_and_peer() {
    let (tx, _rx) = bus(16);
    let s = ConnStats::with_param(String::from("10.0.0.7:9999"), tx);
    assert_eq!(s.peer, "10.0.0.7:9999");
    assert_eq!(s.phase, SessionPhase::Handshake);
    assert!(s.net_model.is_none());
    assert!(s.read_buf.is_empty());
    assert!(s.write_buf.is_empty());
    assert_eq!(s.nickname.len(), 36);
}

#[test]
fn handshake_sets_name_and_mode() {
    let (tx, _rx) = bus(16);
    let mut s = ConnStats::with_param(String::from("127.0.0.1:40000"), tx);
    s.feed_bytes(b"alice\r\n");
    assert_eq!(s.handshake_step(), HandshakeStep::Completed);
    assert_eq!(s.nickname, "alice");
    assert!(matches!(s.net_model, Some(NetModel::Stream)));
    assert_eq!(s.phase, SessionPhase::Relaying);
    assert!(s.read_buf.is_empty());
}

#[test]
fn handshake_magic_selects_binary_mode() {
    let (tx, _rx) = bus(16);
    let mut s = ConnStats::with_param(String::from("127.0.0.1:40000"), tx);
    s.feed_bytes(&[0x78, 0x56, 0x56, 0x78, b'n', b'\r', b'\n']);
    assert_eq!(s.handshake_step(), HandshakeStep::Completed);
    assert_eq!(s.nickname, "n");
    assert!(matches!(s.net_model, Some(NetModel::Client)));
    assert_eq!(s.phase, SessionPhase::Relaying);
}

#[test]
fn handshake_too_long_resets_and_reprompts() {
    let (tx, _rx) = bus(16);
    let mut s = ConnStats::with_param(String::from("127.0.0.1:40000"), tx);
    s.feed_bytes(&[b'x'; 129]);
    assert_eq!(
        s.handshake_step(),
        HandshakeStep::Reprompt(PromptKind::Retry)
    );
    assert!(s.read_buf.is_empty());
    assert_eq!(s.phase, SessionPhase::Handshake);
    // the connection stays open: a proper name still completes
    s.feed_bytes(b"bob\r\n");
    assert_eq!(s.handshake_step(), HandshakeStep::Completed);
    assert_eq!(s.nickname, "bob");
}

#[test]
fn handshake_invalid_utf8_stays_in_handshake() {
    let (tx, _rx) = bus(16);
    let mut s = ConnStats::with_param(String::from("127.0.0.1:40000"), tx);
    let before = s.nickname.clone();
    s.feed_bytes(&[0xff, 0xfe, b'\r', b'\n']);
    assert_eq!(
        s.handshake_step(),
        HandshakeStep::Reprompt(PromptKind::InvalidUtf8)
    );
    assert_eq!(s.phase, SessionPhase::Handshake);
    assert_eq!(s.nickname, before);
}

#[test]
fn handshake_empty_name_reprompts() {
    let (tx, _rx) = bus(16);
    let mut s = ConnStats::with_param(String::from("127.0.0.1:40000"), tx);
    s.feed_bytes(b"\r\n");
    assert_eq!(
        s.handshake_step(),
        HandshakeStep::Reprompt(PromptKind::InvalidName)
    );
    assert_eq!(s.phase, SessionPhase::Handshake);
}

#[test]
fn handshake_waits_for_terminator() {
    let (tx, _rx) = bus(16);
    let mut s = ConnStats::with_param(String::from("127.0.0.1:40000"), tx);
    s.feed_bytes(b"al");
    assert_eq!(s.handshake_step(), HandshakeStep::KeepReading);
    assert_eq!(&s.read_buf[..], b"al");
    s.feed_bytes(b"ice\r\n");
    assert_eq!(s.handshake_step(), HandshakeStep::Completed);
    assert_eq!(s.nickname, "alice");
}

#[test]
fn relay_two_clients_scenario() {
    let (tx, _rx) = bus(64);
    let mut a = ConnStats::with_param(String::from("127.0.0.1:40000"), tx.clone());
    let mut b = ConnStats::with_param(String::from("127.0.0.1:40000"), tx.clone());
    a.feed_bytes(b"alice\r\n");
    assert_eq!(a.handshake_step(), HandshakeStep::Completed);
    b.feed_bytes(b"bob\r\n");
    assert_eq!(b.handshake_step(), HandshakeStep::Completed);

    a.feed_bytes(b"hi\r\n");
    assert_eq!(a.on_socket_bytes().0, SocketOutcome::Proceed);

    match b.step_bus() {
        RelayOutcome::Deliver(bytes) => {
            let text = String::from_utf8(bytes).unwrap();
            assert!(text.starts_with("[broadcast] ["));
            assert!(text.ends_with("] [alice]: hi\r\n"));
            // the middle is the HH:MM:SS stamp
            let stamp = &text["[broadcast] [".len().."[broadcast] [".len() + 8];
            assert_eq!(stamp.as_bytes()[2], b':');
            assert_eq!(stamp.as_bytes()[5], b':');
        }
        other => panic!("expected a delivery, got {:?}", other),
    }

    // the sender never sees its own message
    assert!(matches!(a.step_bus(), RelayOutcome::Discard));
    assert!(matches!(a.step_bus(), RelayOutcome::Idle));
}

#[test]
fn self_echo_discarded_at_decision_level() {
    let (tx, _rx) = bus(16);
    let mut s = ConnStats::with_param(String::from("127.0.0.1:40000"), tx);
    s.feed_bytes(b"alice\r\n");
    assert_eq!(s.handshake_step(), HandshakeStep::Completed);
    let mut m = Packet::new();
    m.user_id = s.id;
    assert!(matches!(s.on_bus_event(BusEvent::Msg(m)), RelayOutcome::Discard));
}

#[test]
fn bus_error_events_stop_the_relay() {
    let (tx, _rx) = bus(16);
    let s = ConnStats::with_param(String::from("127.0.0.1:40000"), tx);
    assert!(matches!(s.on_bus_event(BusEvent::Lagged(3)), RelayOutcome::Stop));
    assert!(matches!(s.on_bus_event(BusEvent::Closed), RelayOutcome::Stop));
}

#[test]
fn bus_lag_reports_not_deadlocks() {
    let (tx, _rx) = bus(2);
    let mut a = ConnStats::with_param(String::from("127.0.0.1:40000"), tx.clone());
    let mut b = ConnStats::with_param(String::from("127.0.0.1:40000"), tx.clone());
    a.feed_bytes(b"alice\r\n");
    assert_eq!(a.handshake_step(), HandshakeStep::Completed);
    b.feed_bytes(b"bob\r\n");
    assert_eq!(b.handshake_step(), HandshakeStep::Completed);

    // a burst far beyond the bus capacity while b never reads
    for _ in 0..10 {
        a.feed_bytes(b"m\r\n");
        assert_eq!(a.on_socket_bytes().0, SocketOutcome::Proceed);
    }
    // b's next poll reports the lag and stops, rather than hanging
    assert!(matches!(b.step_bus(), RelayOutcome::Stop));

    // the other client is unaffected: it can still publish, and a fresh
    // subscriber still receives
    let mut c = ConnStats::with_param(String::from("127.0.0.1:40000"), tx.clone());
    c.feed_bytes(b"carol\r\n");
    assert_eq!(c.handshake_step(), HandshakeStep::Completed);
    a.feed_bytes(b"again\r\n");
    assert_eq!(a.on_socket_bytes().0, SocketOutcome::Proceed);
    assert!(matches!(c.step_bus(), RelayOutcome::Deliver(_)));
}

#[test]
fn binary_mode_delivery_is_skipped() {
    let (tx, _rx) = bus(16);
    let mut s = ConnStats::with_param(String::from("127.0.0.1:40000"), tx);
    s.feed_bytes(&[0x78, 0x56, 0x56, 0x78, b'n', b'\r', b'\n']);
    assert_eq!(s.handshake_step(), HandshakeStep::Completed);
    let mut m = Packet::new();
    m.user_id = s.id.wrapping_add(1);
    m.username = Some(String::from("other"));
    m.msg = Some(String::from("x"));
    assert!(matches!(s.on_bus_event(BusEvent::Msg(m)), RelayOutcome::Skip));
    // binary-mode ingest stays an inert extension point
    s.feed_bytes(&[0, 4, 1, 3, b'h', b'i']);
    assert_eq!(s.on_socket_bytes().0, SocketOutcome::Stop);
}

#[test]
fn prompts_have_the_expected_text() {
    assert_eq!(
        prompt_bytes(&PromptKind::Greeting),
        b"\r\nplease set your name: \r\n".to_vec()
    );
    assert_eq!(
        prompt_bytes(&PromptKind::Retry),
        b"retry set your name: \r\n".to_vec()
    );
    assert_eq!(
        prompt_bytes(&PromptKind::InvalidName),
        b"Invalid username. retry set your name: \r\n".to_vec()
    );
    assert_eq!(
        prompt_bytes(&PromptKind::InvalidUtf8),
        b"Invalid UTF-8 sequence, retry set your name: \r\n".to_vec()
    );
    assert_eq!(
        prompt_bytes(&PromptKind::Success),
        b"success! welcome \r\n".to_vec()
    );
}

#[test]
fn broadcast_line_is_exact() {
    let mut m = Packet::new();
    m.time = ClockTime {
        hour: 1,
        minute: 2,
        second: 3,
    };
    m.username = Some(String::from("alice"));
    m.msg = Some(String::from("hi"));
    assert_eq!(
        format_broadcast_line(&m),
        b"[broadcast] [01:02:03] [alice]: hi\r\n".to_vec()
    );
    assert_eq!(m.get_time_format(), "01:02:03");
}

#[test]
fn check_buf_follows_the_mode() {
    let (tx, _rx) = bus(16);
    let mut s = ConnStats::with_param(String::from("127.0.0.1:40000"), tx);
    assert!(!s.check_buf());
    s.feed_bytes(b"x");
    // no mode chosen yet
    assert!(!s.check_buf());
    s.net_model = Some(NetModel::Stream);
    assert!(s.check_buf());
    s.net_model = Some(NetModel::Client);
    // one byte is no complete frame
    assert!(!s.check_buf());
}
