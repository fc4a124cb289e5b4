use prometheus_client::registry::Registry;
use tcp_monitor::disconnect::DisconnectReason;
use tcp_monitor::metrics::{
    catalogue, metrics_handler, metrics_reply, DisconnectLabel, Metric, Metrics, PeerLabel,
};

#[test]
fn names_and_help_texts() {
    let expected = [
        ("tcp_monitor_server_session_active",
            "1 if a server session is currently active with this peer"),
        ("tcp_monitor_server_session_start_timestamp_seconds",
            "Unix timestamp when the current/last server session was established"),
        ("tcp_monitor_server_session_duration_seconds",
            "Duration of the active or last completed server session"),
        ("tcp_monitor_server_sessions", "Total inbound sessions accepted since startup"),
        ("tcp_monitor_server_heartbeats_received",
            "Total heartbeat packets received from a peer"),
        ("tcp_monitor_server_last_heartbeat_timestamp_seconds",
            "Unix timestamp of the most recently received heartbeat"),
        ("tcp_monitor_server_session_disconnects",
            "Server session disconnects by peer and reason"),
        ("tcp_monitor_client_session_active",
            "1 if a client session is currently active to this peer"),
        ("tcp_monitor_client_session_start_timestamp_seconds",
            "Unix timestamp when the current/last client session was established"),
        ("tcp_monitor_client_session_duration_seconds",
            "Duration of the active or last completed client session"),
        ("tcp_monitor_client_sessions", "Total outbound sessions established since startup"),
        ("tcp_monitor_client_heartbeats_sent", "Total heartbeat packets sent to a peer"),
        ("tcp_monitor_client_heartbeats_received",
            "Total heartbeat echoes received from a peer"),
        ("tcp_monitor_client_heartbeats_missed",
            "Total heartbeat echoes not received within the timeout window"),
        ("tcp_monitor_client_heartbeats_consecutive_missed",
            "Current run of consecutive unanswered heartbeats"),
        ("tcp_monitor_client_heartbeat_rtt_seconds",
            "Round-trip time of the most recent heartbeat echo"),
        ("tcp_monitor_client_last_heartbeat_timestamp_seconds",
            "Unix timestamp of the most recent successful heartbeat echo"),
        ("tcp_monitor_client_session_disconnects",
            "Client session disconnects by peer and reason"),
    ];
    let metrics = catalogue();
    assert_eq!(metrics.len(), expected.len());
    for (metric, (name, help)) in metrics.iter().zip(expected) {
        assert_eq!(metric.name(), name);
        assert_eq!(metric.help(), help);
    }
}

#[test]
fn metrics_in_seconds_are_left_to_the_caller() {
    let metrics = Metrics::new();
    let mut registry = Registry::default();
    for metric in catalogue() {
        let in_seconds = metric.name().ends_with("_seconds");
        assert_eq!(metrics.register(metric, &mut registry), !in_seconds);
    }
    assert!(!metrics.register(Metric::CliRtt, &mut registry));
    assert!(metrics.register(Metric::CliDisconnects, &mut registry));
}

#[test]
fn labels() {
    let label = PeerLabel::new("a", "b");
    assert_eq!(
        label.pairs(),
        [("node".to_string(), "a".to_string()), ("peer".to_string(), "b".to_string())]
    );
    let label = DisconnectLabel::new("a", "b", DisconnectReason::Timeout);
    assert_eq!(label.reason, "timeout");
    assert_eq!(
        label.pairs(),
        [
            ("node".to_string(), "a".to_string()),
            ("peer".to_string(), "b".to_string()),
            ("reason".to_string(), "timeout".to_string())
        ]
    );
}

#[test]
fn reason_texts() {
    assert_eq!(DisconnectReason::RemoteClose.as_str(), "remote_close");
    assert_eq!(DisconnectReason::ConnectionReset.as_str(), "connection_reset");
    assert_eq!(DisconnectReason::Timeout.as_str(), "timeout");
    assert_eq!(DisconnectReason::LocalError.as_str(), "local_error");
    assert_eq!(DisconnectReason::ConnectFailed.as_str(), "connect_failed");
}

#[test]
fn disconnect_counters_are_shown_from_the_start() {
    let mut metrics = Metrics::new();
    metrics.init_disconnect_labels("a", "b");
    metrics.init_disconnect_labels("a", "b");
    let reply = metrics_handler(&metrics);
    assert_eq!(reply.status, 200);
    assert_eq!(reply.content_type, "text/plain; version=0.0.4; charset=utf-8");
    for reason in ["remote_close", "connection_reset", "timeout", "local_error"] {
        let line = format!(
            "tcp_monitor_server_session_disconnects_total{{node=\"a\",peer=\"b\",reason=\"{}\"}} 0\n",
            reason
        );
        assert!(reply.body.contains(&line), "{}", reply.body);
    }
    for reason in ["remote_close", "connection_reset", "timeout", "local_error", "connect_failed"] {
        let line = format!(
            "tcp_monitor_client_session_disconnects_total{{node=\"a\",peer=\"b\",reason=\"{}\"}} 0\n",
            reason
        );
        assert!(reply.body.contains(&line), "{}", reply.body);
    }
    assert_eq!(reply.body.matches("_total{").count(), 9);
}

#[test]
fn registered_metrics_show_help_and_type() {
    let mut metrics = Metrics::new();
    metrics.init_disconnect_labels("a", "b");
    let body = metrics_handler(&metrics).body;
    assert!(body.contains(
        "# HELP tcp_monitor_client_session_disconnects Client session disconnects by peer and reason.\n"
    ));
    assert!(body.contains("# TYPE tcp_monitor_client_session_disconnects counter\n"));
    assert!(body.ends_with("# EOF\n"));
}

#[test]
fn reply_to_a_failed_scrape() {
    let reply = metrics_reply(None);
    assert_eq!(reply.status, 500);
    assert_eq!(reply.content_type, "text/plain; charset=utf-8");
    assert_eq!(reply.body, "encode error");
    let reply = metrics_reply(Some("x 1\n".to_string()));
    assert_eq!(reply.status, 200);
    assert_eq!(reply.body, "x 1\n");
}

#[test]
fn metric_names_differ() {
    let metrics = catalogue();
    for (i, a) in metrics.iter().enumerate() {
        for b in &metrics[i + 1..] {
            assert_ne!(a.name(), b.name());
            assert_ne!(a, b);
        }
    }
}

#[test]
fn new_metrics_are_registered() {
    let mut metrics = Metrics::new();
    let body = metrics_handler(&metrics).body;
    let names: Vec<&str> = body
        .lines()
        .filter(|line| line.starts_with("# HELP "))
        .map(|line| line.split(' ').nth(2).unwrap())
        .collect();
    assert_eq!(
        names,
        [
            "tcp_monitor_server_session_active",
            "tcp_monitor_server_sessions",
            "tcp_monitor_server_heartbeats_received",
            "tcp_monitor_server_session_disconnects",
            "tcp_monitor_client_session_active",
            "tcp_monitor_client_sessions",
            "tcp_monitor_client_heartbeats_sent",
            "tcp_monitor_client_heartbeats_received",
            "tcp_monitor_client_heartbeats_missed",
            "tcp_monitor_client_heartbeats_consecutive_missed",
            "tcp_monitor_client_session_disconnects",
        ]
    );
    assert!(!body.contains('{'));
    metrics.init_disconnect_labels("a", "b");
    let line =
        "tcp_monitor_client_session_disconnects_total{node=\"a\",peer=\"b\",reason=\"timeout\"} 0\n";
    assert!(metrics_handler(&metrics).body.contains(line));
}

#[test]
fn scrape_follows_the_format() {
    let mut metrics = Metrics::new();
    let mut registry = Registry::default();
    metrics.register(Metric::SrvDisconnects, &mut registry);
    metrics.registry = registry;
    metrics.init_disconnect_labels("a", "b");
    let body = metrics_handler(&metrics).body;
    let mut lines: Vec<&str> = body.lines().collect();
    assert_eq!(
        lines[..2],
        [
            "# HELP tcp_monitor_server_session_disconnects Server session disconnects by peer and reason.",
            "# TYPE tcp_monitor_server_session_disconnects counter",
        ]
    );
    assert_eq!(lines[6..], ["# EOF"]);
    lines[2..6].sort();
    assert_eq!(
        lines[2..6],
        [
            "tcp_monitor_server_session_disconnects_total{node=\"a\",peer=\"b\",reason=\"connection_reset\"} 0",
            "tcp_monitor_server_session_disconnects_total{node=\"a\",peer=\"b\",reason=\"local_error\"} 0",
            "tcp_monitor_server_session_disconnects_total{node=\"a\",peer=\"b\",reason=\"remote_close\"} 0",
            "tcp_monitor_server_session_disconnects_total{node=\"a\",peer=\"b\",reason=\"timeout\"} 0",
        ]
    );
    assert!(body.ends_with("# EOF\n"));
}

#[test]
fn empty_scrape() {
    let mut metrics = Metrics::new();
    metrics.registry = Registry::default();
    assert_eq!(metrics_handler(&metrics).body, "# EOF\n");
}
