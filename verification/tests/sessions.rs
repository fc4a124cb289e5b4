use tcp_monitor::client::{
    classify_io_error, ClientAction, ClientEvent, ClientSession, PeerAction, PeerEvent, PeerLoop,
    SessionEnd,
};
use tcp_monitor::config::{ClientConfig, PeerConfig, ServerConfig};
use tcp_monitor::disconnect::{DisconnectReason, IoErrorKind};
use tcp_monitor::metrics::{metrics_handler, Metrics};
use tcp_monitor::protocol::{encode_packet, HandshakeError};
use tcp_monitor::server::{
    listen_addresses, probe_banner, probe_step, ProbeAction, ProbeEvent, ServerAction, ServerEvent,
    ServerSession, HANDSHAKE_TIMEOUT,
};

fn settings(max_misses: u32) -> ClientConfig {
    ClientConfig { heartbeat_interval: 30, max_misses, reconnect_delay: 10 }
}

fn value(metrics: &Metrics, name: &str, labels: &str) -> Option<i64> {
    let start = format!("{}{{{}}} ", name, labels);
    metrics_handler(metrics)
        .body
        .lines()
        .find(|line| line.starts_with(&start))
        .map(|line| line[start.len()..].parse().unwrap())
}

const AB: &str = "node=\"a\",peer=\"b\"";

fn client(metrics: &Metrics, name: &str) -> Option<i64> {
    value(metrics, &format!("tcp_monitor_client_{}", name), AB)
}

fn server(metrics: &Metrics, name: &str) -> Option<i64> {
    value(metrics, &format!("tcp_monitor_server_{}", name), AB)
}

fn disconnects(metrics: &Metrics, side: &str, reason: &str) -> Option<i64> {
    value(
        metrics,
        &format!("tcp_monitor_{}_session_disconnects_total", side),
        &format!("{},reason=\"{}\"", AB, reason),
    )
}

fn take(session: &mut ClientSession, metrics: &mut Metrics, event: ClientEvent) -> ClientAction {
    assert!(session.accepts(event), "{:?}", event);
    session.step(event, metrics)
}

#[test]
fn errors_are_classified() {
    assert_eq!(classify_io_error(IoErrorKind::ConnectionReset), "connection_reset");
    assert_eq!(classify_io_error(IoErrorKind::UnexpectedEof), "remote_close");
    assert_eq!(classify_io_error(IoErrorKind::BrokenPipe), "remote_close");
    assert_eq!(classify_io_error(IoErrorKind::Other), "local_error");
}

#[test]
fn client_session_answered_and_missed() {
    let mut metrics = Metrics::new();
    let mut session = ClientSession::new("a", "b", &settings(3));
    assert_eq!(client(&metrics, "session_active"), None);
    let action = take(&mut session, &mut metrics, ClientEvent::GreetingSent);
    assert_eq!(action, ClientAction::WaitUntil(0));
    assert_eq!(client(&metrics, "session_active"), Some(1));
    assert_eq!(client(&metrics, "sessions_total"), Some(1));
    assert_eq!(client(&metrics, "heartbeats_consecutive_missed"), Some(0));

    for seq in 0..2 {
        assert_eq!(take(&mut session, &mut metrics, ClientEvent::Woken), ClientAction::Send(seq));
        assert_eq!(take(&mut session, &mut metrics, ClientEvent::Sent), ClientAction::AwaitEcho(30));
        assert_eq!(
            take(&mut session, &mut metrics, ClientEvent::EchoTimedOut),
            ClientAction::WaitUntil(30 * (seq + 1))
        );
    }
    assert_eq!(client(&metrics, "heartbeats_missed_total"), Some(2));
    assert_eq!(client(&metrics, "heartbeats_consecutive_missed"), Some(2));
    assert_eq!(client(&metrics, "heartbeats_received_total"), None);

    assert_eq!(take(&mut session, &mut metrics, ClientEvent::Woken), ClientAction::Send(2));
    take(&mut session, &mut metrics, ClientEvent::Sent);
    assert_eq!(
        take(&mut session, &mut metrics, ClientEvent::EchoReceived),
        ClientAction::WaitUntil(90)
    );
    assert_eq!(client(&metrics, "heartbeats_received_total"), Some(1));
    assert_eq!(client(&metrics, "heartbeats_consecutive_missed"), Some(0));
    assert_eq!(client(&metrics, "heartbeats_sent_total"), Some(3));
    assert_eq!(client(&metrics, "session_active"), Some(1));

    for seq in 3..5 {
        assert_eq!(take(&mut session, &mut metrics, ClientEvent::Woken), ClientAction::Send(seq));
        take(&mut session, &mut metrics, ClientEvent::Sent);
        take(&mut session, &mut metrics, ClientEvent::EchoTimedOut);
    }
    take(&mut session, &mut metrics, ClientEvent::Woken);
    take(&mut session, &mut metrics, ClientEvent::Sent);
    assert_eq!(
        take(&mut session, &mut metrics, ClientEvent::EchoTimedOut),
        ClientAction::End(SessionEnd::Lost(DisconnectReason::Timeout))
    );
    assert_eq!(client(&metrics, "session_active"), Some(0));
    assert_eq!(client(&metrics, "heartbeats_consecutive_missed"), Some(3));
    assert_eq!(disconnects(&metrics, "client", "timeout"), Some(1));
    assert!(!session.accepts(ClientEvent::Woken));
    assert!(!session.accepts(ClientEvent::Cancelled));
}

#[test]
fn first_miss_ends_a_session_without_tolerance() {
    for max_misses in [0, 1] {
        let mut metrics = Metrics::new();
        let mut session = ClientSession::new("a", "b", &settings(max_misses));
        take(&mut session, &mut metrics, ClientEvent::GreetingSent);
        take(&mut session, &mut metrics, ClientEvent::Woken);
        take(&mut session, &mut metrics, ClientEvent::Sent);
        assert_eq!(
            take(&mut session, &mut metrics, ClientEvent::EchoTimedOut),
            ClientAction::End(SessionEnd::Lost(DisconnectReason::Timeout))
        );
        assert_eq!(disconnects(&metrics, "client", "timeout"), Some(1));
    }
}

#[test]
fn failed_greeting_is_no_session() {
    let mut metrics = Metrics::new();
    let mut session = ClientSession::new("a", "b", &settings(3));
    assert!(!session.accepts(ClientEvent::Cancelled));
    assert_eq!(
        take(&mut session, &mut metrics, ClientEvent::GreetingFailed),
        ClientAction::End(SessionEnd::Lost(DisconnectReason::LocalError))
    );
    assert_eq!(client(&metrics, "session_active"), None);
    assert_eq!(client(&metrics, "sessions_total"), None);
    assert_eq!(disconnects(&metrics, "client", "local_error"), None);
}

#[test]
fn failed_io_loses_a_client_session() {
    let cases = [
        (IoErrorKind::ConnectionReset, DisconnectReason::ConnectionReset),
        (IoErrorKind::UnexpectedEof, DisconnectReason::RemoteClose),
        (IoErrorKind::BrokenPipe, DisconnectReason::RemoteClose),
        (IoErrorKind::Other, DisconnectReason::LocalError),
    ];
    for (kind, reason) in cases {
        let mut metrics = Metrics::new();
        let mut session = ClientSession::new("a", "b", &settings(3));
        take(&mut session, &mut metrics, ClientEvent::GreetingSent);
        take(&mut session, &mut metrics, ClientEvent::Woken);
        assert_eq!(
            take(&mut session, &mut metrics, ClientEvent::SendFailed(kind)),
            ClientAction::End(SessionEnd::Lost(reason))
        );
        assert_eq!(disconnects(&metrics, "client", reason.as_str()), Some(1));
        assert_eq!(client(&metrics, "heartbeats_sent_total"), None);

        let mut session = ClientSession::new("a", "b", &settings(3));
        take(&mut session, &mut metrics, ClientEvent::GreetingSent);
        take(&mut session, &mut metrics, ClientEvent::Woken);
        take(&mut session, &mut metrics, ClientEvent::Sent);
        assert_eq!(
            take(&mut session, &mut metrics, ClientEvent::EchoFailed(kind)),
            ClientAction::End(SessionEnd::Lost(reason))
        );
        assert_eq!(disconnects(&metrics, "client", reason.as_str()), Some(2));
        assert_eq!(client(&metrics, "sessions_total"), Some(2));
        assert_eq!(client(&metrics, "session_active"), Some(0));
    }
}

#[test]
fn cancelled_session_is_not_counted() {
    let mut metrics = Metrics::new();
    let mut session = ClientSession::new("a", "b", &settings(3));
    take(&mut session, &mut metrics, ClientEvent::GreetingSent);
    assert_eq!(
        take(&mut session, &mut metrics, ClientEvent::Cancelled),
        ClientAction::End(SessionEnd::Cancelled)
    );
    assert_eq!(client(&metrics, "session_active"), Some(0));
    assert!(!metrics_handler(&metrics).body.contains("disconnects_total{"));
}

#[test]
fn heartbeats_that_no_clock_can_time_are_not_taken() {
    let config = ClientConfig { heartbeat_interval: u64::MAX, max_misses: 3, reconnect_delay: 1 };
    let mut metrics = Metrics::new();
    let mut session = ClientSession::new("a", "b", &config);
    take(&mut session, &mut metrics, ClientEvent::GreetingSent);
    take(&mut session, &mut metrics, ClientEvent::Woken);
    take(&mut session, &mut metrics, ClientEvent::Sent);
    assert_eq!(
        take(&mut session, &mut metrics, ClientEvent::EchoReceived),
        ClientAction::WaitUntil(u64::MAX)
    );
    assert!(!session.accepts(ClientEvent::Woken));
}

fn goes_to(action: PeerAction, host: &str) -> bool {
    matches!(action, PeerAction::Connect(to) if to == host)
}

#[test]
fn peer_loop_reconnects() {
    let mut metrics = Metrics::new();
    let peer = PeerConfig { name: "b".to_string(), host: "10.0.0.2".to_string(), port: 9700 };
    let mut peer_loop = PeerLoop::new(&peer, &settings(3), "a", &mut metrics);
    assert_eq!(disconnects(&metrics, "client", "connect_failed"), Some(0));
    assert_eq!(disconnects(&metrics, "server", "timeout"), Some(0));
    assert_eq!(disconnects(&metrics, "server", "connect_failed"), None);
    assert!(goes_to(peer_loop.action(), "10.0.0.2:9700"));

    assert!(peer_loop.expects(PeerEvent::ConnectFailed));
    assert!(!peer_loop.expects(PeerEvent::Rested));
    assert!(matches!(
        peer_loop.step(PeerEvent::ConnectFailed, &mut metrics),
        PeerAction::Rest(10)
    ));
    assert_eq!(disconnects(&metrics, "client", "connect_failed"), Some(1));
    assert!(goes_to(peer_loop.step(PeerEvent::Rested, &mut metrics), "10.0.0.2:9700"));
    assert!(matches!(
        peer_loop.step(PeerEvent::Connected, &mut metrics),
        PeerAction::RunSession
    ));
    assert!(!peer_loop.expects(PeerEvent::Cancelled));
    let lost = PeerEvent::SessionEnded(SessionEnd::Lost(DisconnectReason::Timeout));
    assert!(peer_loop.expects(lost));
    assert!(matches!(peer_loop.step(lost, &mut metrics), PeerAction::Rest(10)));
    assert_eq!(disconnects(&metrics, "client", "timeout"), Some(0));
    assert!(peer_loop.expects(PeerEvent::Cancelled));
    assert!(matches!(peer_loop.step(PeerEvent::Cancelled, &mut metrics), PeerAction::Stop));
    assert!(!peer_loop.expects(PeerEvent::Rested));
}

#[test]
fn peer_loop_stops_with_a_cancelled_session() {
    let mut metrics = Metrics::new();
    let peer = PeerConfig { name: "b".to_string(), host: "h".to_string(), port: 1 };
    let mut peer_loop = PeerLoop::new(&peer, &settings(3), "a", &mut metrics);
    peer_loop.step(PeerEvent::Connected, &mut metrics);
    let ended = PeerEvent::SessionEnded(SessionEnd::Cancelled);
    assert!(matches!(peer_loop.step(ended, &mut metrics), PeerAction::Stop));
}

fn open(metrics: &mut Metrics) -> ServerSession {
    ServerSession::open("a", Ok("b".to_string()), 90, metrics).unwrap()
}

fn serve(session: &mut ServerSession, metrics: &mut Metrics, event: ServerEvent) -> ServerAction {
    assert!(session.expects(&event), "{:?}", event);
    session.step(event, metrics)
}

#[test]
fn server_session_echoes() {
    let mut metrics = Metrics::new();
    let mut session = open(&mut metrics);
    assert_eq!(session.peer(), "b");
    assert!(matches!(session.first(), ServerAction::Receive(90)));
    assert_eq!(server(&metrics, "session_active"), Some(1));
    assert_eq!(server(&metrics, "sessions_total"), Some(1));
    assert_eq!(server(&metrics, "heartbeats_received_total"), None);
    for seq in 0..3 {
        let packet = encode_packet(seq, 1700000000.5f64.to_bits());
        match serve(&mut session, &mut metrics, ServerEvent::Received(packet)) {
            ServerAction::Echo(echo) => assert_eq!(echo, packet),
            other => panic!("{:?}", other),
        }
        assert!(!session.expects(&ServerEvent::TimedOut));
        assert!(matches!(
            serve(&mut session, &mut metrics, ServerEvent::Echoed),
            ServerAction::Receive(90)
        ));
    }
    assert_eq!(server(&metrics, "heartbeats_received_total"), Some(3));
    assert!(matches!(
        serve(&mut session, &mut metrics, ServerEvent::TimedOut),
        ServerAction::End(DisconnectReason::Timeout)
    ));
    assert_eq!(server(&metrics, "session_active"), Some(0));
    assert_eq!(disconnects(&metrics, "server", "timeout"), Some(1));
    assert_eq!(disconnects(&metrics, "server", "remote_close"), Some(0));
    assert_eq!(disconnects(&metrics, "client", "timeout"), Some(0));
    assert!(!session.expects(&ServerEvent::Received([0; 16])));
}

#[test]
fn failed_receive_ends_a_server_session() {
    let cases = [
        (IoErrorKind::ConnectionReset, DisconnectReason::ConnectionReset),
        (IoErrorKind::UnexpectedEof, DisconnectReason::RemoteClose),
        (IoErrorKind::BrokenPipe, DisconnectReason::LocalError),
        (IoErrorKind::Other, DisconnectReason::LocalError),
    ];
    for (kind, reason) in cases {
        let mut metrics = Metrics::new();
        let mut session = open(&mut metrics);
        match serve(&mut session, &mut metrics, ServerEvent::ReceiveFailed(kind)) {
            ServerAction::End(found) => assert_eq!(found, reason),
            other => panic!("{:?}", other),
        }
        assert_eq!(disconnects(&metrics, "server", reason.as_str()), Some(1));
    }
}

#[test]
fn failed_echo_ends_a_server_session() {
    let mut metrics = Metrics::new();
    let mut session = open(&mut metrics);
    serve(&mut session, &mut metrics, ServerEvent::Received([7; 16]));
    assert!(matches!(
        serve(&mut session, &mut metrics, ServerEvent::EchoFailed(IoErrorKind::Other)),
        ServerAction::End(DisconnectReason::LocalError)
    ));
    assert_eq!(disconnects(&metrics, "server", "local_error"), Some(1));
    assert_eq!(server(&metrics, "heartbeats_received_total"), Some(1));

    let mut session = open(&mut metrics);
    serve(&mut session, &mut metrics, ServerEvent::Received([7; 16]));
    assert!(matches!(
        serve(&mut session, &mut metrics, ServerEvent::EchoFailed(IoErrorKind::ConnectionReset)),
        ServerAction::End(DisconnectReason::ConnectionReset)
    ));
    assert_eq!(disconnects(&metrics, "server", "connection_reset"), Some(1));
    assert_eq!(disconnects(&metrics, "server", "local_error"), Some(1));
    assert_eq!(server(&metrics, "heartbeats_received_total"), Some(2));

    let mut session = open(&mut metrics);
    serve(&mut session, &mut metrics, ServerEvent::Received([7; 16]));
    serve(&mut session, &mut metrics, ServerEvent::EchoFailed(IoErrorKind::BrokenPipe));
    assert_eq!(disconnects(&metrics, "server", "local_error"), Some(2));
}

#[test]
fn connection_without_a_name_is_no_session() {
    assert_eq!(HANDSHAKE_TIMEOUT, 5);
    let errors = [
        HandshakeError::TimedOut,
        HandshakeError::InvalidLength,
        HandshakeError::Io(IoErrorKind::UnexpectedEof),
    ];
    for error in errors {
        let mut metrics = Metrics::new();
        assert!(ServerSession::open("a", Err(error), 90, &mut metrics).is_none());
        assert!(!metrics_handler(&metrics).body.contains("node="));
    }
}

#[test]
fn probe_is_greeted_and_held() {
    assert_eq!(probe_banner().as_bytes(), b"TCP-MONITOR OK\r\n");
    assert_eq!(probe_step(ProbeEvent::Accepted), ProbeAction::SendBanner);
    assert_eq!(probe_step(ProbeEvent::BannerSent), ProbeAction::Drain);
    assert_eq!(probe_step(ProbeEvent::BannerFailed), ProbeAction::Drain);
    assert_eq!(probe_step(ProbeEvent::Read(3)), ProbeAction::Drain);
    assert_eq!(probe_step(ProbeEvent::Read(0)), ProbeAction::Close);
    assert_eq!(probe_step(ProbeEvent::ReadFailed), ProbeAction::Close);
}

#[test]
fn listening_addresses() {
    let config = ServerConfig {
        bind: "127.0.0.1".to_string(),
        port: 9700,
        metrics_port: 9702,
        probe_port: 9701,
        heartbeat_recv_timeout: 90,
        probe_idle_timeout: 30,
    };
    let addresses = listen_addresses(&config);
    assert_eq!(addresses.heartbeat, "127.0.0.1:9700");
    assert_eq!(addresses.probe, "127.0.0.1:9701");
    assert_eq!(addresses.metrics, "0.0.0.0:9702");
}

#[test]
fn sessions_keep_to_their_peers() {
    let mut metrics = Metrics::new();
    let mut first = ClientSession::new("a", "b", &settings(3));
    let mut second = ClientSession::new("a", "c", &settings(3));
    take(&mut first, &mut metrics, ClientEvent::GreetingSent);
    take(&mut second, &mut metrics, ClientEvent::GreetingSent);
    let mut inbound = open(&mut metrics);
    take(&mut second, &mut metrics, ClientEvent::Woken);
    take(&mut second, &mut metrics, ClientEvent::SendFailed(IoErrorKind::ConnectionReset));
    assert_eq!(client(&metrics, "session_active"), Some(1));
    assert_eq!(
        value(&metrics, "tcp_monitor_client_session_active", "node=\"a\",peer=\"c\""),
        Some(0)
    );
    assert_eq!(disconnects(&metrics, "client", "connection_reset"), Some(0));
    assert_eq!(server(&metrics, "session_active"), Some(1));
    serve(&mut inbound, &mut metrics, ServerEvent::TimedOut);
    assert_eq!(server(&metrics, "session_active"), Some(0));
    assert_eq!(client(&metrics, "session_active"), Some(1));
    assert_eq!(disconnects(&metrics, "client", "timeout"), Some(0));
}

#[test]
fn every_failed_connect_is_counted() {
    let mut metrics = Metrics::new();
    let peer = PeerConfig { name: "b".to_string(), host: "h".to_string(), port: 1 };
    let mut peer_loop = PeerLoop::new(&peer, &settings(3), "a", &mut metrics);
    for n in 1..4 {
        peer_loop.step(PeerEvent::ConnectFailed, &mut metrics);
        assert_eq!(disconnects(&metrics, "client", "connect_failed"), Some(n));
        peer_loop.step(PeerEvent::Rested, &mut metrics);
    }
}

#[test]
fn silent_peer_times_out_after_the_limit() {
    let mut metrics = Metrics::new();
    let mut session = ClientSession::new("a", "b", &settings(4));
    take(&mut session, &mut metrics, ClientEvent::GreetingSent);
    let mut action = ClientAction::WaitUntil(0);
    for n in 1..5 {
        take(&mut session, &mut metrics, ClientEvent::Woken);
        take(&mut session, &mut metrics, ClientEvent::Sent);
        action = take(&mut session, &mut metrics, ClientEvent::EchoTimedOut);
        assert_eq!(client(&metrics, "heartbeats_consecutive_missed"), Some(n));
        assert_eq!(matches!(action, ClientAction::End(_)), n == 4);
    }
    assert_eq!(action, ClientAction::End(SessionEnd::Lost(DisconnectReason::Timeout)));
    assert_eq!(client(&metrics, "heartbeats_sent_total"), Some(4));
    assert_eq!(client(&metrics, "heartbeats_missed_total"), Some(4));
}

#[test]
fn peer_is_active_while_one_of_its_sessions_is_open() {
    let mut metrics = Metrics::new();
    let mut first = open(&mut metrics);
    let mut second = open(&mut metrics);
    let mut other = ServerSession::open("a", Ok("c".to_string()), 90, &mut metrics).unwrap();
    assert_eq!(server(&metrics, "sessions_total"), Some(2));
    serve(&mut first, &mut metrics, ServerEvent::TimedOut);
    assert_eq!(server(&metrics, "session_active"), Some(1));
    assert_eq!(disconnects(&metrics, "server", "timeout"), Some(1));
    let mut third = open(&mut metrics);
    serve(&mut second, &mut metrics, ServerEvent::TimedOut);
    assert_eq!(server(&metrics, "session_active"), Some(1));
    serve(&mut third, &mut metrics, ServerEvent::TimedOut);
    assert_eq!(server(&metrics, "session_active"), Some(0));
    assert_eq!(
        value(&metrics, "tcp_monitor_server_session_active", "node=\"a\",peer=\"c\""),
        Some(1)
    );
    serve(&mut other, &mut metrics, ServerEvent::TimedOut);
    assert_eq!(
        value(&metrics, "tcp_monitor_server_session_active", "node=\"a\",peer=\"c\""),
        Some(0)
    );
    assert_eq!(disconnects(&metrics, "server", "timeout"), Some(3));
}

#[test]
fn outbound_gauge_follows_session_after_session() {
    let mut metrics = Metrics::new();
    let mut refused = ClientSession::new("a", "b", &settings(3));
    take(&mut refused, &mut metrics, ClientEvent::GreetingFailed);
    assert_eq!(client(&metrics, "session_active"), None);
    for n in 1..4 {
        let mut session = ClientSession::new("a", "b", &settings(3));
        assert_ne!(client(&metrics, "session_active"), Some(1));
        take(&mut session, &mut metrics, ClientEvent::GreetingSent);
        assert_eq!(client(&metrics, "session_active"), Some(1));
        assert_eq!(client(&metrics, "heartbeats_consecutive_missed"), Some(0));
        take(&mut session, &mut metrics, ClientEvent::Woken);
        take(&mut session, &mut metrics, ClientEvent::Sent);
        take(&mut session, &mut metrics, ClientEvent::EchoTimedOut);
        assert_eq!(client(&metrics, "session_active"), Some(1));
        assert_eq!(client(&metrics, "heartbeats_consecutive_missed"), Some(1));
        take(&mut session, &mut metrics, ClientEvent::Cancelled);
        assert_eq!(client(&metrics, "session_active"), Some(0));
        assert_eq!(client(&metrics, "sessions_total"), Some(n));
    }
}

#[test]
fn every_metric_carries_node_and_peer() {
    let mut metrics = Metrics::new();
    let mut outbound = ClientSession::new("a", "b", &settings(1));
    take(&mut outbound, &mut metrics, ClientEvent::GreetingSent);
    take(&mut outbound, &mut metrics, ClientEvent::Woken);
    take(&mut outbound, &mut metrics, ClientEvent::Sent);
    take(&mut outbound, &mut metrics, ClientEvent::EchoTimedOut);
    let mut inbound = open(&mut metrics);
    serve(&mut inbound, &mut metrics, ServerEvent::Received([0; 16]));
    let body = metrics_handler(&metrics).body;
    let lines: Vec<&str> = body.lines().filter(|line| !line.starts_with('#')).collect();
    assert_eq!(lines.len(), 3 + 5 + 4 + 5);
    for line in lines {
        let labels = &line[line.find('{').unwrap()..line.find('}').unwrap()];
        assert!(labels.starts_with("{node=\"a\",peer=\"b\""), "{}", line);
        assert_eq!(labels.contains(",reason=\""), line.contains("_disconnects_total"), "{}", line);
        assert_eq!(labels.matches('=').count(), if labels.contains("reason") { 3 } else { 2 });
    }
}
