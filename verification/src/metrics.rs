//! What a node reports: the catalogue of its metrics, their labels, and the
//! counters and gauges that hold whole numbers.

use crate::disconnect::{law_reasons_told_apart, DisconnectReason};
use crate::exposition::{all_families, exposes, label_text, labels_text, Holdings};
use crate::families::{
    counter_handle, counts, empty_registry, gauge_handle, label_set, levels, registered, touched,
    with_entry, CounterFamily, Counts, GaugeFamily, Labels, Levels, Listing, Registered,
};
use prometheus_client::encoding::text::encode;
use prometheus_client::registry::Registry;
use vstd::multiset::Multiset;
use vstd::prelude::*;

verus! {

/// The two ends of a session.
#[derive(Clone, Debug, Hash, PartialEq, Eq)]
pub struct PeerLabel {
    pub node: String,
    pub peer: String,
}

/// The two ends of a session and why it ended.
#[derive(Clone, Debug, Hash, PartialEq, Eq)]
pub struct DisconnectLabel {
    pub node: String,
    pub peer: String,
    pub reason: String,
}

/// The labels of a session's metrics.
pub open spec fn peer_labels(node: Seq<char>, peer: Seq<char>) -> Labels {
    seq![("node"@, node), ("peer"@, peer)]
}

/// The labels of a disconnect counter.
pub open spec fn disconnect_labels(
    node: Seq<char>,
    peer: Seq<char>,
    reason: DisconnectReason,
) -> Labels {
    seq![("node"@, node), ("peer"@, peer), ("reason"@, reason.text())]
}

impl View for PeerLabel {
    type V = Labels;

    open spec fn view(&self) -> Labels {
        peer_labels(self.node@, self.peer@)
    }
}

impl View for DisconnectLabel {
    type V = Labels;

    open spec fn view(&self) -> Labels {
        seq![("node"@, self.node@), ("peer"@, self.peer@), ("reason"@, self.reason@)]
    }
}

impl PeerLabel {
    /// The labels for a session between a node and a peer.
    pub fn new(node: &str, peer: &str) -> (label: PeerLabel)
        ensures
            label.node@ == node@,
            label.peer@ == peer@,
    {
        PeerLabel { node: node.to_string(), peer: peer.to_string() }
    }

    /// The labels as pairs of name and value.
    pub fn pairs(&self) -> (pairs: Vec<(String, String)>)
        ensures
            label_set(pairs@) == self@,
            pairs@.len() == 2,
            pairs@[0].0@ == "node"@ && pairs@[0].1@ == self.node@,
            pairs@[1].0@ == "peer"@ && pairs@[1].1@ == self.peer@,
    {
        let mut pairs: Vec<(String, String)> = Vec::new();
        pairs.push(("node".to_string(), self.node.clone()));
        pairs.push(("peer".to_string(), self.peer.clone()));
        assert(label_set(pairs@) =~= self@);
        pairs
    }
}

impl DisconnectLabel {
    /// The labels for the end of a session between a node and a peer.
    pub fn new(node: &str, peer: &str, reason: DisconnectReason) -> (label: DisconnectLabel)
        ensures
            label@ == disconnect_labels(node@, peer@, reason),
            label.node@ == node@,
            label.peer@ == peer@,
            label.reason@ == reason.text(),
    {
        DisconnectLabel {
            node: node.to_string(),
            peer: peer.to_string(),
            reason: reason.as_str().to_string(),
        }
    }

    /// The labels as pairs of name and value.
    pub fn pairs(&self) -> (pairs: Vec<(String, String)>)
        ensures
            label_set(pairs@) == self@,
            pairs@.len() == 3,
            pairs@[0].0@ == "node"@ && pairs@[0].1@ == self.node@,
            pairs@[1].0@ == "peer"@ && pairs@[1].1@ == self.peer@,
            pairs@[2].0@ == "reason"@ && pairs@[2].1@ == self.reason@,
    {
        let mut pairs: Vec<(String, String)> = Vec::new();
        pairs.push(("node".to_string(), self.node.clone()));
        pairs.push(("peer".to_string(), self.peer.clone()));
        pairs.push(("reason".to_string(), self.reason.clone()));
        assert(label_set(pairs@) =~= self@);
        pairs
    }
}

/// The metrics of a node: `Srv` for inbound sessions, `Cli` for outbound ones.
#[derive(Clone, Copy, Debug, PartialEq, Eq, Structural)]
pub enum Metric {
    SrvSessionActive,
    SrvSessionStart,
    SrvSessionDuration,
    SrvSessionsTotal,
    SrvHeartbeatsRx,
    SrvLastHeartbeat,
    SrvDisconnects,
    CliSessionActive,
    CliSessionStart,
    CliSessionDuration,
    CliSessionsTotal,
    CliHeartbeatsSent,
    CliHeartbeatsRx,
    CliHeartbeatsMissed,
    CliConsecutiveMissed,
    CliRtt,
    CliLastHeartbeat,
    CliDisconnects,
}

/// All metrics: those of inbound sessions, then those of outbound ones.
pub open spec fn all_metrics() -> Seq<Metric> {
    seq![
        Metric::SrvSessionActive,
        Metric::SrvSessionStart,
        Metric::SrvSessionDuration,
        Metric::SrvSessionsTotal,
        Metric::SrvHeartbeatsRx,
        Metric::SrvLastHeartbeat,
        Metric::SrvDisconnects,
        Metric::CliSessionActive,
        Metric::CliSessionStart,
        Metric::CliSessionDuration,
        Metric::CliSessionsTotal,
        Metric::CliHeartbeatsSent,
        Metric::CliHeartbeatsRx,
        Metric::CliHeartbeatsMissed,
        Metric::CliConsecutiveMissed,
        Metric::CliRtt,
        Metric::CliLastHeartbeat,
        Metric::CliDisconnects,
    ]
}

/// All metrics: those of inbound sessions, then those of outbound ones.
pub fn catalogue() -> (metrics: Vec<Metric>)
    ensures
        metrics@ == all_metrics(),
{
    let metrics: Vec<Metric> = vec![
        Metric::SrvSessionActive,
        Metric::SrvSessionStart,
        Metric::SrvSessionDuration,
        Metric::SrvSessionsTotal,
        Metric::SrvHeartbeatsRx,
        Metric::SrvLastHeartbeat,
        Metric::SrvDisconnects,
        Metric::CliSessionActive,
        Metric::CliSessionStart,
        Metric::CliSessionDuration,
        Metric::CliSessionsTotal,
        Metric::CliHeartbeatsSent,
        Metric::CliHeartbeatsRx,
        Metric::CliHeartbeatsMissed,
        Metric::CliConsecutiveMissed,
        Metric::CliRtt,
        Metric::CliLastHeartbeat,
        Metric::CliDisconnects,
    ];
    assert(metrics@ =~= all_metrics());
    metrics
}

impl Metric {
    /// The name of the metric. A counter's name is shown with `_total` behind
    /// it.
    pub open spec fn spec_name(self) -> Seq<char> {
        match self {
            Metric::SrvSessionActive => "tcp_monitor_server_session_active"@,
            Metric::SrvSessionStart => "tcp_monitor_server_session_start_timestamp_seconds"@,
            Metric::SrvSessionDuration => "tcp_monitor_server_session_duration_seconds"@,
            Metric::SrvSessionsTotal => "tcp_monitor_server_sessions"@,
            Metric::SrvHeartbeatsRx => "tcp_monitor_server_heartbeats_received"@,
            Metric::SrvLastHeartbeat => "tcp_monitor_server_last_heartbeat_timestamp_seconds"@,
            Metric::SrvDisconnects => "tcp_monitor_server_session_disconnects"@,
            Metric::CliSessionActive => "tcp_monitor_client_session_active"@,
            Metric::CliSessionStart => "tcp_monitor_client_session_start_timestamp_seconds"@,
            Metric::CliSessionDuration => "tcp_monitor_client_session_duration_seconds"@,
            Metric::CliSessionsTotal => "tcp_monitor_client_sessions"@,
            Metric::CliHeartbeatsSent => "tcp_monitor_client_heartbeats_sent"@,
            Metric::CliHeartbeatsRx => "tcp_monitor_client_heartbeats_received"@,
            Metric::CliHeartbeatsMissed => "tcp_monitor_client_heartbeats_missed"@,
            Metric::CliConsecutiveMissed => "tcp_monitor_client_heartbeats_consecutive_missed"@,
            Metric::CliRtt => "tcp_monitor_client_heartbeat_rtt_seconds"@,
            Metric::CliLastHeartbeat => "tcp_monitor_client_last_heartbeat_timestamp_seconds"@,
            Metric::CliDisconnects => "tcp_monitor_client_session_disconnects"@,
        }
    }

    /// The help text of the metric.
    pub open spec fn spec_help(self) -> Seq<char> {
        match self {
            Metric::SrvSessionActive => "1 if a server session is currently active with this peer"@,
            Metric::SrvSessionStart => "Unix timestamp when the current/last server session was established"@,
            Metric::SrvSessionDuration => "Duration of the active or last completed server session"@,
            Metric::SrvSessionsTotal => "Total inbound sessions accepted since startup"@,
            Metric::SrvHeartbeatsRx => "Total heartbeat packets received from a peer"@,
            Metric::SrvLastHeartbeat => "Unix timestamp of the most recently received heartbeat"@,
            Metric::SrvDisconnects => "Server session disconnects by peer and reason"@,
            Metric::CliSessionActive => "1 if a client session is currently active to this peer"@,
            Metric::CliSessionStart => "Unix timestamp when the current/last client session was established"@,
            Metric::CliSessionDuration => "Duration of the active or last completed client session"@,
            Metric::CliSessionsTotal => "Total outbound sessions established since startup"@,
            Metric::CliHeartbeatsSent => "Total heartbeat packets sent to a peer"@,
            Metric::CliHeartbeatsRx => "Total heartbeat echoes received from a peer"@,
            Metric::CliHeartbeatsMissed => "Total heartbeat echoes not received within the timeout window"@,
            Metric::CliConsecutiveMissed => "Current run of consecutive unanswered heartbeats"@,
            Metric::CliRtt => "Round-trip time of the most recent heartbeat echo"@,
            Metric::CliLastHeartbeat => "Unix timestamp of the most recent successful heartbeat echo"@,
            Metric::CliDisconnects => "Client session disconnects by peer and reason"@,
        }
    }

    /// Whether the metric is a number of seconds with a fraction.
    pub open spec fn in_seconds(self) -> bool {
        match self {
            Metric::SrvSessionStart => true,
            Metric::SrvSessionDuration => true,
            Metric::SrvLastHeartbeat => true,
            Metric::CliSessionStart => true,
            Metric::CliSessionDuration => true,
            Metric::CliRtt => true,
            Metric::CliLastHeartbeat => true,
            _ => false,
        }
    }

    /// The name of the metric.
    pub fn name(self) -> (name: &'static str)
        ensures
            name@ == self.spec_name(),
    {
        match self {
            Metric::SrvSessionActive => "tcp_monitor_server_session_active",
            Metric::SrvSessionStart => "tcp_monitor_server_session_start_timestamp_seconds",
            Metric::SrvSessionDuration => "tcp_monitor_server_session_duration_seconds",
            Metric::SrvSessionsTotal => "tcp_monitor_server_sessions",
            Metric::SrvHeartbeatsRx => "tcp_monitor_server_heartbeats_received",
            Metric::SrvLastHeartbeat => "tcp_monitor_server_last_heartbeat_timestamp_seconds",
            Metric::SrvDisconnects => "tcp_monitor_server_session_disconnects",
            Metric::CliSessionActive => "tcp_monitor_client_session_active",
            Metric::CliSessionStart => "tcp_monitor_client_session_start_timestamp_seconds",
            Metric::CliSessionDuration => "tcp_monitor_client_session_duration_seconds",
            Metric::CliSessionsTotal => "tcp_monitor_client_sessions",
            Metric::CliHeartbeatsSent => "tcp_monitor_client_heartbeats_sent",
            Metric::CliHeartbeatsRx => "tcp_monitor_client_heartbeats_received",
            Metric::CliHeartbeatsMissed => "tcp_monitor_client_heartbeats_missed",
            Metric::CliConsecutiveMissed => "tcp_monitor_client_heartbeats_consecutive_missed",
            Metric::CliRtt => "tcp_monitor_client_heartbeat_rtt_seconds",
            Metric::CliLastHeartbeat => "tcp_monitor_client_last_heartbeat_timestamp_seconds",
            Metric::CliDisconnects => "tcp_monitor_client_session_disconnects",
        }
    }

    /// The help text of the metric.
    pub fn help(self) -> (help: &'static str)
        ensures
            help@ == self.spec_help(),
    {
        match self {
            Metric::SrvSessionActive => "1 if a server session is currently active with this peer",
            Metric::SrvSessionStart => "Unix timestamp when the current/last server session was established",
            Metric::SrvSessionDuration => "Duration of the active or last completed server session",
            Metric::SrvSessionsTotal => "Total inbound sessions accepted since startup",
            Metric::SrvHeartbeatsRx => "Total heartbeat packets received from a peer",
            Metric::SrvLastHeartbeat => "Unix timestamp of the most recently received heartbeat",
            Metric::SrvDisconnects => "Server session disconnects by peer and reason",
            Metric::CliSessionActive => "1 if a client session is currently active to this peer",
            Metric::CliSessionStart => "Unix timestamp when the current/last client session was established",
            Metric::CliSessionDuration => "Duration of the active or last completed client session",
            Metric::CliSessionsTotal => "Total outbound sessions established since startup",
            Metric::CliHeartbeatsSent => "Total heartbeat packets sent to a peer",
            Metric::CliHeartbeatsRx => "Total heartbeat echoes received from a peer",
            Metric::CliHeartbeatsMissed => "Total heartbeat echoes not received within the timeout window",
            Metric::CliConsecutiveMissed => "Current run of consecutive unanswered heartbeats",
            Metric::CliRtt => "Round-trip time of the most recent heartbeat echo",
            Metric::CliLastHeartbeat => "Unix timestamp of the most recent successful heartbeat echo",
            Metric::CliDisconnects => "Client session disconnects by peer and reason",
        }
    }
}

/// What tells the names of the metrics apart: their length and two of their
/// characters.
proof fn lemma_name_shape(metric: Metric)
    ensures
        (metric.spec_name().len(), metric.spec_name()[12], metric.spec_name()[19]) == match metric {
            Metric::SrvSessionActive => (33nat, 's', 's'),
            Metric::SrvSessionStart => (50nat, 's', 's'),
            Metric::SrvSessionDuration => (43nat, 's', 's'),
            Metric::SrvSessionsTotal => (27nat, 's', 's'),
            Metric::SrvHeartbeatsRx => (38nat, 's', 'h'),
            Metric::SrvLastHeartbeat => (51nat, 's', 'l'),
            Metric::SrvDisconnects => (38nat, 's', 's'),
            Metric::CliSessionActive => (33nat, 'c', 's'),
            Metric::CliSessionStart => (50nat, 'c', 's'),
            Metric::CliSessionDuration => (43nat, 'c', 's'),
            Metric::CliSessionsTotal => (27nat, 'c', 's'),
            Metric::CliHeartbeatsSent => (34nat, 'c', 'h'),
            Metric::CliHeartbeatsRx => (38nat, 'c', 'h'),
            Metric::CliHeartbeatsMissed => (36nat, 'c', 'h'),
            Metric::CliConsecutiveMissed => (48nat, 'c', 'h'),
            Metric::CliRtt => (40nat, 'c', 'h'),
            Metric::CliLastHeartbeat => (51nat, 'c', 'l'),
            Metric::CliDisconnects => (38nat, 'c', 's'),
        },
{
    match metric {
        Metric::SrvSessionActive => {
            reveal_strlit("tcp_monitor_server_session_active");
        },
        Metric::SrvSessionStart => {
            reveal_strlit("tcp_monitor_server_session_start_timestamp_seconds");
        },
        Metric::SrvSessionDuration => {
            reveal_strlit("tcp_monitor_server_session_duration_seconds");
        },
        Metric::SrvSessionsTotal => {
            reveal_strlit("tcp_monitor_server_sessions");
        },
        Metric::SrvHeartbeatsRx => {
            reveal_strlit("tcp_monitor_server_heartbeats_received");
        },
        Metric::SrvLastHeartbeat => {
            reveal_strlit("tcp_monitor_server_last_heartbeat_timestamp_seconds");
        },
        Metric::SrvDisconnects => {
            reveal_strlit("tcp_monitor_server_session_disconnects");
        },
        Metric::CliSessionActive => {
            reveal_strlit("tcp_monitor_client_session_active");
        },
        Metric::CliSessionStart => {
            reveal_strlit("tcp_monitor_client_session_start_timestamp_seconds");
        },
        Metric::CliSessionDuration => {
            reveal_strlit("tcp_monitor_client_session_duration_seconds");
        },
        Metric::CliSessionsTotal => {
            reveal_strlit("tcp_monitor_client_sessions");
        },
        Metric::CliHeartbeatsSent => {
            reveal_strlit("tcp_monitor_client_heartbeats_sent");
        },
        Metric::CliHeartbeatsRx => {
            reveal_strlit("tcp_monitor_client_heartbeats_received");
        },
        Metric::CliHeartbeatsMissed => {
            reveal_strlit("tcp_monitor_client_heartbeats_missed");
        },
        Metric::CliConsecutiveMissed => {
            reveal_strlit("tcp_monitor_client_heartbeats_consecutive_missed");
        },
        Metric::CliRtt => {
            reveal_strlit("tcp_monitor_client_heartbeat_rtt_seconds");
        },
        Metric::CliLastHeartbeat => {
            reveal_strlit("tcp_monitor_client_last_heartbeat_timestamp_seconds");
        },
        Metric::CliDisconnects => {
            reveal_strlit("tcp_monitor_client_session_disconnects");
        },
    }
}

/// No two metrics have the same name.
pub proof fn law_metric_names_differ(a: Metric, b: Metric)
    ensures
        a.spec_name() == b.spec_name() ==> a == b,
{
    lemma_name_shape(a);
    lemma_name_shape(b);
}

/// Every metric is in the catalogue, once.
pub proof fn law_catalogue_is_complete(metric: Metric)
    ensures
        all_metrics().contains(metric),
        all_metrics().no_duplicates(),
{
    assert(all_metrics()[0] == Metric::SrvSessionActive);
    assert(all_metrics()[1] == Metric::SrvSessionStart);
    assert(all_metrics()[2] == Metric::SrvSessionDuration);
    assert(all_metrics()[3] == Metric::SrvSessionsTotal);
    assert(all_metrics()[4] == Metric::SrvHeartbeatsRx);
    assert(all_metrics()[5] == Metric::SrvLastHeartbeat);
    assert(all_metrics()[6] == Metric::SrvDisconnects);
    assert(all_metrics()[7] == Metric::CliSessionActive);
    assert(all_metrics()[8] == Metric::CliSessionStart);
    assert(all_metrics()[9] == Metric::CliSessionDuration);
    assert(all_metrics()[10] == Metric::CliSessionsTotal);
    assert(all_metrics()[11] == Metric::CliHeartbeatsSent);
    assert(all_metrics()[12] == Metric::CliHeartbeatsRx);
    assert(all_metrics()[13] == Metric::CliHeartbeatsMissed);
    assert(all_metrics()[14] == Metric::CliConsecutiveMissed);
    assert(all_metrics()[15] == Metric::CliRtt);
    assert(all_metrics()[16] == Metric::CliLastHeartbeat);
    assert(all_metrics()[17] == Metric::CliDisconnects);
}

/// The metrics of a node that hold whole numbers. Those in seconds with a
/// fraction belong to the program around this library.
pub struct Metrics {
    pub srv_session_active: GaugeFamily,
    pub srv_sessions_total: CounterFamily,
    pub srv_heartbeats_rx: CounterFamily,
    pub srv_disconnects: CounterFamily,
    pub cli_session_active: GaugeFamily,
    pub cli_sessions_total: CounterFamily,
    pub cli_heartbeats_sent: CounterFamily,
    pub cli_heartbeats_rx: CounterFamily,
    pub cli_heartbeats_missed: CounterFamily,
    pub cli_consecutive_missed: GaugeFamily,
    pub cli_disconnects: CounterFamily,
    /// The inbound sessions that are open.
    pub srv_open: Vec<PeerLabel>,
    /// Where the families above are registered.
    pub registry: Registry,
}

/// The handles of the families, by which a registry knows them.
pub ghost struct Handles {
    pub srv_session_active: int,
    pub srv_sessions_total: int,
    pub srv_heartbeats_rx: int,
    pub srv_disconnects: int,
    pub cli_session_active: int,
    pub cli_sessions_total: int,
    pub cli_heartbeats_sent: int,
    pub cli_heartbeats_rx: int,
    pub cli_heartbeats_missed: int,
    pub cli_consecutive_missed: int,
    pub cli_disconnects: int,
}

impl Handles {
    /// The family behind a metric.
    pub open spec fn family(self, metric: Metric) -> Registered {
        match metric {
            Metric::SrvSessionActive => Registered::Gauges(self.srv_session_active),
            Metric::SrvSessionsTotal => Registered::Counters(self.srv_sessions_total),
            Metric::SrvHeartbeatsRx => Registered::Counters(self.srv_heartbeats_rx),
            Metric::SrvDisconnects => Registered::Counters(self.srv_disconnects),
            Metric::CliSessionActive => Registered::Gauges(self.cli_session_active),
            Metric::CliSessionsTotal => Registered::Counters(self.cli_sessions_total),
            Metric::CliHeartbeatsSent => Registered::Counters(self.cli_heartbeats_sent),
            Metric::CliHeartbeatsRx => Registered::Counters(self.cli_heartbeats_rx),
            Metric::CliHeartbeatsMissed => Registered::Counters(self.cli_heartbeats_missed),
            Metric::CliConsecutiveMissed => Registered::Gauges(self.cli_consecutive_missed),
            Metric::CliDisconnects => Registered::Counters(self.cli_disconnects),
            _ => Registered::Other,
        }
    }

    /// What a registry knows once the metrics were registered in it, one after
    /// the other: each that holds whole numbers.
    pub open spec fn listing(self, metrics: Seq<Metric>) -> Listing
        decreases metrics.len(),
    {
        if metrics.len() == 0 {
            Seq::empty()
        } else if metrics.last().in_seconds() {
            self.listing(metrics.drop_last())
        } else {
            self.listing(metrics.drop_last()).push(
                (
                    metrics.last().spec_name(),
                    metrics.last().spec_help() + "."@,
                    self.family(metrics.last()),
                ),
            )
        }
    }
}

/// What the metrics show.
#[verifier::ext_equal]
pub ghost struct Readings {
    pub srv_session_active: Levels,
    pub srv_sessions_total: Counts,
    pub srv_heartbeats_rx: Counts,
    pub srv_disconnects: Counts,
    pub cli_session_active: Levels,
    pub cli_sessions_total: Counts,
    pub cli_heartbeats_sent: Counts,
    pub cli_heartbeats_rx: Counts,
    pub cli_heartbeats_missed: Counts,
    pub cli_consecutive_missed: Levels,
    pub cli_disconnects: Counts,
    /// The inbound sessions that are open, by their labels.
    pub srv_open: Multiset<Labels>,
    pub handles: Handles,
    /// The metrics that a scrape shows.
    pub registered: Option<Listing>,
}

impl Readings {
    /// What the families hold, by their handles.
    pub open spec fn held(self) -> Holdings {
        Holdings {
            counters: seq![
                (self.handles.srv_sessions_total, self.srv_sessions_total),
                (self.handles.srv_heartbeats_rx, self.srv_heartbeats_rx),
                (self.handles.srv_disconnects, self.srv_disconnects),
                (self.handles.cli_sessions_total, self.cli_sessions_total),
                (self.handles.cli_heartbeats_sent, self.cli_heartbeats_sent),
                (self.handles.cli_heartbeats_rx, self.cli_heartbeats_rx),
                (self.handles.cli_heartbeats_missed, self.cli_heartbeats_missed),
                (self.handles.cli_disconnects, self.cli_disconnects),
            ],
            gauges: seq![
                (self.handles.srv_session_active, self.srv_session_active),
                (self.handles.cli_session_active, self.cli_session_active),
                (self.handles.cli_consecutive_missed, self.cli_consecutive_missed),
            ],
        }
    }

    /// Whether the text shows what is registered and what the families hold.
    pub open spec fn shown_by(self, text: Seq<char>) -> bool {
        match self.registered {
            Some(listing) => exposes(listing, self.held(), text),
            None => true,
        }
    }

    /// Whether nothing but families of this library is registered.
    pub open spec fn only_families(self) -> bool {
        match self.registered {
            Some(listing) => all_families(listing),
            None => false,
        }
    }
}

/// The sessions of a list, by their labels.
pub open spec fn open_sessions(labels: Seq<PeerLabel>) -> Multiset<Labels> {
    labels.map_values(|label: PeerLabel| label@).to_multiset()
}

proof fn lemma_no_open_sessions()
    ensures
        open_sessions(Seq::empty()) == Multiset::<Labels>::empty(),
{
    let labels = Seq::<PeerLabel>::empty().map_values(|label: PeerLabel| label@);
    labels.to_multiset_ensures();
    assert(labels.to_multiset().len() == 0);
}

/// The open sessions once one with the given labels has ended.
pub open spec fn without_session(open: Multiset<Labels>, labels: Labels) -> Multiset<Labels> {
    if open.count(labels) > 0 {
        open.remove(labels)
    } else {
        open
    }
}

impl View for Metrics {
    type V = Readings;

    open spec fn view(&self) -> Readings {
        Readings {
            srv_session_active: levels(self.srv_session_active),
            srv_sessions_total: counts(self.srv_sessions_total),
            srv_heartbeats_rx: counts(self.srv_heartbeats_rx),
            srv_disconnects: counts(self.srv_disconnects),
            cli_session_active: levels(self.cli_session_active),
            cli_sessions_total: counts(self.cli_sessions_total),
            cli_heartbeats_sent: counts(self.cli_heartbeats_sent),
            cli_heartbeats_rx: counts(self.cli_heartbeats_rx),
            cli_heartbeats_missed: counts(self.cli_heartbeats_missed),
            cli_consecutive_missed: levels(self.cli_consecutive_missed),
            cli_disconnects: counts(self.cli_disconnects),
            srv_open: open_sessions(self.srv_open@),
            handles: Handles {
                srv_session_active: gauge_handle(self.srv_session_active),
                srv_sessions_total: counter_handle(self.srv_sessions_total),
                srv_heartbeats_rx: counter_handle(self.srv_heartbeats_rx),
                srv_disconnects: counter_handle(self.srv_disconnects),
                cli_session_active: gauge_handle(self.cli_session_active),
                cli_sessions_total: counter_handle(self.cli_sessions_total),
                cli_heartbeats_sent: counter_handle(self.cli_heartbeats_sent),
                cli_heartbeats_rx: counter_handle(self.cli_heartbeats_rx),
                cli_heartbeats_missed: counter_handle(self.cli_heartbeats_missed),
                cli_consecutive_missed: gauge_handle(self.cli_consecutive_missed),
                cli_disconnects: counter_handle(self.cli_disconnects),
            },
            registered: registered(self.registry),
        }
    }
}

/// What metrics show before anything happened, when all that hold whole numbers
/// are registered.
pub open spec fn no_readings(handles: Handles) -> Readings {
    Readings {
        srv_session_active: Map::empty(),
        srv_sessions_total: Map::empty(),
        srv_heartbeats_rx: Map::empty(),
        srv_disconnects: Map::empty(),
        cli_session_active: Map::empty(),
        cli_sessions_total: Map::empty(),
        cli_heartbeats_sent: Map::empty(),
        cli_heartbeats_rx: Map::empty(),
        cli_heartbeats_missed: Map::empty(),
        cli_consecutive_missed: Map::empty(),
        cli_disconnects: Map::empty(),
        srv_open: Multiset::empty(),
        handles,
        registered: Some(handles.listing(all_metrics())),
    }
}

/// The reasons for which an inbound session ends.
pub open spec fn server_reasons() -> Seq<DisconnectReason> {
    seq![
        DisconnectReason::RemoteClose,
        DisconnectReason::ConnectionReset,
        DisconnectReason::Timeout,
        DisconnectReason::LocalError,
    ]
}

/// The reasons for which there is no outbound session, or no longer.
pub open spec fn client_reasons() -> Seq<DisconnectReason> {
    server_reasons().push(DisconnectReason::ConnectFailed)
}

/// The counters with one for each of the first `n` reasons.
pub open spec fn with_reasons(
    counts: Counts,
    node: Seq<char>,
    peer: Seq<char>,
    reasons: Seq<DisconnectReason>,
    n: nat,
) -> Counts
    decreases n,
{
    if n == 0 {
        counts
    } else {
        touched(
            with_reasons(counts, node, peer, reasons, (n - 1) as nat),
            disconnect_labels(node, peer, reasons[n - 1]),
        )
    }
}

/// The metrics with a disconnect counter for each reason.
pub open spec fn with_disconnect_labels(
    readings: Readings,
    node: Seq<char>,
    peer: Seq<char>,
) -> Readings {
    Readings {
        srv_disconnects: with_reasons(
            readings.srv_disconnects,
            node,
            peer,
            server_reasons(),
            server_reasons().len(),
        ),
        cli_disconnects: with_reasons(
            readings.cli_disconnects,
            node,
            peer,
            client_reasons(),
            client_reasons().len(),
        ),
        ..readings
    }
}

/// Makes a counter for each reason.
fn touch_reasons(
    family: &mut CounterFamily,
    node: &str,
    peer: &str,
    reasons: &Vec<DisconnectReason>,
)
    ensures
        counts(*final(family)) == with_reasons(
            counts(*old(family)),
            node@,
            peer@,
            reasons@,
            reasons@.len(),
        ),
        counter_handle(*final(family)) == counter_handle(*old(family)),
{
    let mut i: usize = 0;
    while i < reasons.len()
        invariant
            i <= reasons@.len(),
            counts(*family) == with_reasons(
                counts(*old(family)),
                node@,
                peer@,
                reasons@,
                i as nat,
            ),
            counter_handle(*family) == counter_handle(*old(family)),
        decreases reasons@.len() - i,
    {
        let label = DisconnectLabel::new(node, peer, reasons[i]);
        family.touch(&label.pairs());
        i += 1;
    }
}

impl Metrics {
    /// Metrics that show nothing yet, and are all registered: every metric of
    /// the catalogue that holds whole numbers, in the order of the catalogue,
    /// under its name and help text.
    pub fn new() -> (metrics: Metrics)
        ensures
            metrics@ == no_readings(metrics@.handles),
    {
        let mut metrics = Metrics {
            srv_session_active: GaugeFamily::new(),
            srv_sessions_total: CounterFamily::new(),
            srv_heartbeats_rx: CounterFamily::new(),
            srv_disconnects: CounterFamily::new(),
            cli_session_active: GaugeFamily::new(),
            cli_sessions_total: CounterFamily::new(),
            cli_heartbeats_sent: CounterFamily::new(),
            cli_heartbeats_rx: CounterFamily::new(),
            cli_heartbeats_missed: CounterFamily::new(),
            cli_consecutive_missed: GaugeFamily::new(),
            cli_disconnects: CounterFamily::new(),
            srv_open: Vec::new(),
            registry: empty_registry(),
        };
        let mut registry = empty_registry();
        let all = catalogue();
        let mut i: usize = 0;
        while i < all.len()
            invariant
                i <= all@.len(),
                registered(registry) == Some(metrics@.handles.listing(all@.take(i as int))),
            decreases all@.len() - i,
        {
            metrics.register(all[i], &mut registry);
            assert(all@.take(i + 1).drop_last() =~= all@.take(i as int));
            i += 1;
        }
        assert(all@.take(all@.len() as int) =~= all_metrics());
        metrics.registry = registry;
        proof {
            lemma_no_open_sessions();
        }
        metrics
    }

    /// Registers a metric under its name and help text. Nothing is done for
    /// one in seconds: its family is not held here.
    pub fn register(&self, metric: Metric, registry: &mut Registry) -> (done: bool)
        ensures
            done == !metric.in_seconds(),
            registered(*final(registry)) == if done {
                with_entry(
                    registered(*old(registry)),
                    metric.spec_name(),
                    metric.spec_help(),
                    self@.handles.family(metric),
                )
            } else {
                registered(*old(registry))
            },
    {
        let name = metric.name();
        let help = metric.help();
        match metric {
            Metric::SrvSessionActive => self.srv_session_active.register(registry, name, help),
            Metric::SrvSessionsTotal => self.srv_sessions_total.register(registry, name, help),
            Metric::SrvHeartbeatsRx => self.srv_heartbeats_rx.register(registry, name, help),
            Metric::SrvDisconnects => self.srv_disconnects.register(registry, name, help),
            Metric::CliSessionActive => self.cli_session_active.register(registry, name, help),
            Metric::CliSessionsTotal => self.cli_sessions_total.register(registry, name, help),
            Metric::CliHeartbeatsSent => self.cli_heartbeats_sent.register(registry, name, help),
            Metric::CliHeartbeatsRx => self.cli_heartbeats_rx.register(registry, name, help),
            Metric::CliHeartbeatsMissed => self.cli_heartbeats_missed.register(
                registry,
                name,
                help,
            ),
            Metric::CliConsecutiveMissed => self.cli_consecutive_missed.register(
                registry,
                name,
                help,
            ),
            Metric::CliDisconnects => self.cli_disconnects.register(registry, name, help),
            _ => return false,
        }
        true
    }

    /// Makes the disconnect counters for every reason, so that they are shown
    /// from the start and not only after the first disconnect.
    pub fn init_disconnect_labels(&mut self, node: &str, peer: &str)
        ensures
            final(self)@ == with_disconnect_labels(old(self)@, node@, peer@),
    {
        let server: Vec<DisconnectReason> = vec![
            DisconnectReason::RemoteClose,
            DisconnectReason::ConnectionReset,
            DisconnectReason::Timeout,
            DisconnectReason::LocalError,
        ];
        let client: Vec<DisconnectReason> = vec![
            DisconnectReason::RemoteClose,
            DisconnectReason::ConnectionReset,
            DisconnectReason::Timeout,
            DisconnectReason::LocalError,
            DisconnectReason::ConnectFailed,
        ];
        assert(server@ =~= server_reasons());
        assert(client@ =~= client_reasons());
        touch_reasons(&mut self.srv_disconnects, node, peer, &server);
        touch_reasons(&mut self.cli_disconnects, node, peer, &client);
    }
}

/// Notes that an inbound session was opened.
pub(crate) fn note_opened(open: &mut Vec<PeerLabel>, label: &PeerLabel)
    ensures
        open_sessions(final(open)@) == open_sessions(old(open)@).insert(label@),
{
    let ghost before = open@.map_values(|label: PeerLabel| label@);
    open.push(PeerLabel::new(label.node.as_str(), label.peer.as_str()));
    proof {
        before.to_multiset_ensures();
        assert(open@.map_values(|label: PeerLabel| label@) =~= before.push(label@));
    }
}

/// Where a session with the given labels stands in the list.
fn find_session(open: &Vec<PeerLabel>, label: &PeerLabel) -> (found: Option<usize>)
    ensures
        match found {
            Some(i) => i < open@.len() && open@[i as int]@ == label@,
            None => open_sessions(open@).count(label@) == 0,
        },
{
    let mut i: usize = 0;
    while i < open.len()
        invariant
            i <= open@.len(),
            forall|k: int| 0 <= k < i ==> (#[trigger] open@[k])@ != label@,
        decreases open@.len() - i,
    {
        if open[i].node == label.node && open[i].peer == label.peer {
            return Some(i);
        }
        proof {
            law_peer_labels_told_apart(
                open@[i as int].node@,
                open@[i as int].peer@,
                label.node@,
                label.peer@,
            );
        }
        i += 1;
    }
    proof {
        let labels = open@.map_values(|label: PeerLabel| label@);
        labels.to_multiset_ensures();
        if labels.contains(label@) {
            let k = choose|k: int| 0 <= k < labels.len() && labels[k] == label@;
            assert(open@[k]@ == label@);
        }
    }
    None
}

/// Notes that an inbound session has ended, and says whether another one with
/// the same labels is open.
pub(crate) fn note_closed(open: &mut Vec<PeerLabel>, label: &PeerLabel) -> (another: bool)
    ensures
        open_sessions(final(open)@) == without_session(open_sessions(old(open)@), label@),
        another == (open_sessions(final(open)@).count(label@) > 0),
{
    if let Some(i) = find_session(open, label) {
        let ghost before = open@.map_values(|label: PeerLabel| label@);
        proof {
            before.to_multiset_ensures();
            assert(before[i as int] == label@);
            assert(before.contains(label@));
        }
        open.remove(i);
        assert(open@.map_values(|label: PeerLabel| label@) =~= before.remove(i as int));
    }
    let another = find_session(open, label).is_some();
    proof {
        let after = open@.map_values(|label: PeerLabel| label@);
        after.to_multiset_ensures();
        if another {
            let k = choose|k: int| 0 <= k < open@.len() && open@[k]@ == label@;
            assert(after[k] == label@);
        }
    }
    another
}

/// Disconnect counters of different sessions, or for different reasons, are
/// different counters.
pub proof fn law_disconnect_labels_told_apart(
    node1: Seq<char>,
    peer1: Seq<char>,
    reason1: DisconnectReason,
    node2: Seq<char>,
    peer2: Seq<char>,
    reason2: DisconnectReason,
)
    ensures
        disconnect_labels(node1, peer1, reason1) == disconnect_labels(node2, peer2, reason2) ==> (
        node1 == node2 && peer1 == peer2 && reason1 == reason2),
{
    let a = disconnect_labels(node1, peer1, reason1);
    let b = disconnect_labels(node2, peer2, reason2);
    if a == b {
        assert(a[0] == b[0] && a[1] == b[1] && a[2] == b[2]);
        law_reasons_told_apart(reason1, reason2);
    }
}

/// Metrics of different sessions are different metrics.
pub proof fn law_peer_labels_told_apart(
    node1: Seq<char>,
    peer1: Seq<char>,
    node2: Seq<char>,
    peer2: Seq<char>,
)
    ensures
        peer_labels(node1, peer1) == peer_labels(node2, peer2) ==> node1 == node2 && peer1 == peer2,
{
    let a = peer_labels(node1, peer1);
    let b = peer_labels(node2, peer2);
    if a == b {
        assert(a[0] == b[0] && a[1] == b[1]);
    }
}

/// The counters for the given reasons are there, and no others are new; those
/// that were there stand where they stood, the new ones at zero.
proof fn lemma_with_reasons(
    counts: Counts,
    node: Seq<char>,
    peer: Seq<char>,
    reasons: Seq<DisconnectReason>,
    n: nat,
    labels: Labels,
)
    requires
        n <= reasons.len(),
    ensures
        ({
            let after = with_reasons(counts, node, peer, reasons, n);
            &&& after.contains_key(labels) <==> counts.contains_key(labels) || exists|i: int|
                0 <= i < n && labels == disconnect_labels(node, peer, #[trigger] reasons[i])
            &&& counts.contains_key(labels) ==> after[labels] == counts[labels]
            &&& after.contains_key(labels) && !counts.contains_key(labels) ==> after[labels] == 0
        }),
    decreases n,
{
    if n > 0 {
        lemma_with_reasons(counts, node, peer, reasons, (n - 1) as nat, labels);
        let after = with_reasons(counts, node, peer, reasons, n);
        if labels == disconnect_labels(node, peer, reasons[n - 1]) {
            assert(after.contains_key(labels));
        }
    }
}

/// After the disconnect counters of a session were made, there is one for
/// every reason: for the inbound side all but a failed connect, which only the
/// outbound side has. Counters that were there are as they were.
pub proof fn law_disconnect_counters_shown(
    readings: Readings,
    node: Seq<char>,
    peer: Seq<char>,
    reason: DisconnectReason,
)
    ensures
        ({
            let after = with_disconnect_labels(readings, node, peer);
            let labels = disconnect_labels(node, peer, reason);
            &&& after.cli_disconnects.contains_key(labels)
            &&& reason != DisconnectReason::ConnectFailed ==> after.srv_disconnects.contains_key(
                labels,
            )
            &&& reason == DisconnectReason::ConnectFailed ==> (after.srv_disconnects.contains_key(
                labels,
            ) <==> readings.srv_disconnects.contains_key(labels))
            &&& after.cli_disconnects[labels] == if readings.cli_disconnects.contains_key(labels) {
                readings.cli_disconnects[labels]
            } else {
                0
            }
            &&& after.srv_disconnects.contains_key(labels) ==> after.srv_disconnects[labels]
                == if readings.srv_disconnects.contains_key(labels) {
                readings.srv_disconnects[labels]
            } else {
                0
            }
        }),
{
    let labels = disconnect_labels(node, peer, reason);
    let server = server_reasons();
    let client = client_reasons();
    lemma_with_reasons(readings.srv_disconnects, node, peer, server, server.len(), labels);
    lemma_with_reasons(readings.cli_disconnects, node, peer, client, client.len(), labels);
    assert(client[0] == DisconnectReason::RemoteClose);
    assert(client[1] == DisconnectReason::ConnectionReset);
    assert(client[2] == DisconnectReason::Timeout);
    assert(client[3] == DisconnectReason::LocalError);
    assert(client[4] == DisconnectReason::ConnectFailed);
    assert(server[0] == DisconnectReason::RemoteClose);
    assert(server[1] == DisconnectReason::ConnectionReset);
    assert(server[2] == DisconnectReason::Timeout);
    assert(server[3] == DisconnectReason::LocalError);
    assert forall|i: int| 0 <= i < server.len() implies disconnect_labels(
        node,
        peer,
        #[trigger] server[i],
    ) != disconnect_labels(node, peer, DisconnectReason::ConnectFailed) by {
        law_disconnect_labels_told_apart(
            node,
            peer,
            server[i],
            node,
            peer,
            DisconnectReason::ConnectFailed,
        );
    }
}

/// Making the disconnect counters of a session a second time changes nothing.
pub proof fn law_disconnect_counters_made_once(readings: Readings, node: Seq<char>, peer: Seq<char>)
    ensures
        ({
            let once = with_disconnect_labels(readings, node, peer);
            with_disconnect_labels(once, node, peer) == once
        }),
{
    let once = with_disconnect_labels(readings, node, peer);
    let twice = with_disconnect_labels(once, node, peer);
    let server = server_reasons();
    let client = client_reasons();
    assert forall|labels: Labels|
        #![trigger twice.srv_disconnects.contains_key(labels)]
        #![trigger twice.cli_disconnects.contains_key(labels)]
        {
            &&& twice.srv_disconnects.contains_key(labels) <==> once.srv_disconnects.contains_key(
                labels,
            )
            &&& twice.cli_disconnects.contains_key(labels) <==> once.cli_disconnects.contains_key(
                labels,
            )
            &&& once.srv_disconnects.contains_key(labels) ==> twice.srv_disconnects[labels]
                == once.srv_disconnects[labels]
            &&& once.cli_disconnects.contains_key(labels) ==> twice.cli_disconnects[labels]
                == once.cli_disconnects[labels]
        } by {
        lemma_with_reasons(readings.srv_disconnects, node, peer, server, server.len(), labels);
        lemma_with_reasons(readings.cli_disconnects, node, peer, client, client.len(), labels);
        lemma_with_reasons(once.srv_disconnects, node, peer, server, server.len(), labels);
        lemma_with_reasons(once.cli_disconnects, node, peer, client, client.len(), labels);
    }
    assert(twice.srv_disconnects =~= once.srv_disconnects);
    assert(twice.cli_disconnects =~= once.cli_disconnects);
}

/// The answer to a scrape.
#[derive(Clone, Debug)]
pub struct MetricsReply {
    pub status: u16,
    pub content_type: &'static str,
    pub body: String,
}

/// The answer to a scrape, given the text that shows the metrics, or that there
/// was none.
pub fn metrics_reply(text: Option<String>) -> (reply: MetricsReply)
    ensures
        match text {
            Some(body) => reply.status == 200 && reply.content_type@
                == "text/plain; version=0.0.4; charset=utf-8"@ && reply.body == body,
            None => reply.status == 500 && reply.content_type@ == "text/plain; charset=utf-8"@
                && reply.body@ == "encode error"@,
        },
{
    match text {
        Some(body) => MetricsReply {
            status: 200,
            content_type: "text/plain; version=0.0.4; charset=utf-8",
            body,
        },
        None => MetricsReply {
            status: 500,
            content_type: "text/plain; charset=utf-8",
            body: "encode error".to_string(),
        },
    }
}

/// `encoding::text::encode` writes what is registered, and for each family of
/// the library what it holds; in which order the lines of a family come is left
/// open. It fails only where a registered metric fails to write itself, which
/// those families do not. Nobody else can change them meanwhile: that takes the
/// metrics for oneself.
#[verifier::external_body]
fn exposition(metrics: &Metrics) -> (text: Option<String>)
    ensures
        match text {
            Some(shown) => metrics@.shown_by(shown@),
            None => !metrics@.only_families(),
        },
{
    let mut text = String::new();
    match encode(&mut text, &metrics.registry) {
        Ok(()) => Some(text),
        Err(_) => None,
    }
}

/// Answers a scrape with what is registered and what the families hold. It
/// fails only where a metric from elsewhere is registered and fails to write
/// itself.
pub fn metrics_handler(metrics: &Metrics) -> (reply: MetricsReply)
    ensures
        reply.status == 200 || reply.status == 500,
        reply.status == 200 ==> reply.content_type@
            == "text/plain; version=0.0.4; charset=utf-8"@ && metrics@.shown_by(reply.body@),
        reply.status == 500 ==> reply.content_type@ == "text/plain; charset=utf-8"@
            && reply.body@ == "encode error"@ && !metrics@.only_families(),
{
    metrics_reply(exposition(metrics))
}

/// The labels of a session's metrics are two: `node` with the node's name, and
/// `peer` with the peer's.
pub proof fn law_session_labels(node: Seq<char>, peer: Seq<char>)
    ensures
        peer_labels(node, peer).len() == 2,
        peer_labels(node, peer)[0].0 == "node"@,
        peer_labels(node, peer)[0].1 == node,
        peer_labels(node, peer)[1].0 == "peer"@,
        peer_labels(node, peer)[1].1 == peer,
{
}

/// The labels of a disconnect counter are three: those of the session, and
/// `reason` with the reason.
pub proof fn law_disconnect_labels(node: Seq<char>, peer: Seq<char>, reason: DisconnectReason)
    ensures
        ({
            let labels = disconnect_labels(node, peer, reason);
            &&& labels.len() == 3
            &&& labels[0].0 == "node"@
            &&& labels[0].1 == node
            &&& labels[1].0 == "peer"@
            &&& labels[1].1 == peer
            &&& labels[2].0 == "reason"@
            &&& reason is RemoteClose ==> labels[2].1 == "remote_close"@
            &&& reason is ConnectionReset ==> labels[2].1 == "connection_reset"@
            &&& reason is Timeout ==> labels[2].1 == "timeout"@
            &&& reason is LocalError ==> labels[2].1 == "local_error"@
            &&& reason is ConnectFailed ==> labels[2].1 == "connect_failed"@
        }),
{
}

/// Label structs stand for the labels that their fields give.
pub proof fn law_labels_as_their_fields_say(session: PeerLabel, end: DisconnectLabel)
    ensures
        session@.len() == 2,
        session@[0] == ("node"@, session.node@),
        session@[1] == ("peer"@, session.peer@),
        end@.len() == 3,
        end@[0] == ("node"@, end.node@),
        end@[1] == ("peer"@, end.peer@),
        end@[2] == ("reason"@, end.reason@),
{
}

/// In a scrape, the metrics of a session are marked with the node's and the
/// peer's name, and a disconnect counter with the reason as well.
pub proof fn law_labels_in_a_scrape(node: Seq<char>, peer: Seq<char>, reason: DisconnectReason)
    ensures
        labels_text(peer_labels(node, peer)) == "node=\""@ + node + "\",peer=\""@ + peer + "\""@,
        labels_text(disconnect_labels(node, peer, reason)) == "node=\""@ + node + "\",peer=\""@
            + peer + "\",reason=\""@ + reason.text() + "\""@,
{
    reveal_strlit("node");
    reveal_strlit("peer");
    reveal_strlit("reason");
    reveal_strlit("=\"");
    reveal_strlit("\"");
    reveal_strlit(",");
    reveal_strlit("node=\"");
    reveal_strlit("\",peer=\"");
    reveal_strlit("\",reason=\"");
    reveal_with_fuel(labels_text, 3);
    let two = peer_labels(node, peer);
    let three = disconnect_labels(node, peer, reason);
    assert(two.drop_last() =~= seq![("node"@, node)]);
    assert(three.drop_last() =~= two);
    assert(labels_text(two) == label_text(("node"@, node)) + ","@ + label_text(("peer"@, peer)));
    assert(labels_text(two) =~= "node=\""@ + node + "\",peer=\""@ + peer + "\""@);
    assert(labels_text(three) =~= "node=\""@ + node + "\",peer=\""@ + peer + "\",reason=\""@
        + reason.text() + "\""@);
}

/// Before anything happened no metric shows a label set, and no session is open.
pub proof fn law_new_metrics_show_nothing(handles: Handles, labels: Labels)
    ensures
        ({
            let new = no_readings(handles);
            &&& !new.srv_session_active.contains_key(labels)
            &&& !new.srv_sessions_total.contains_key(labels)
            &&& !new.srv_heartbeats_rx.contains_key(labels)
            &&& !new.srv_disconnects.contains_key(labels)
            &&& !new.cli_session_active.contains_key(labels)
            &&& !new.cli_sessions_total.contains_key(labels)
            &&& !new.cli_heartbeats_sent.contains_key(labels)
            &&& !new.cli_heartbeats_rx.contains_key(labels)
            &&& !new.cli_heartbeats_missed.contains_key(labels)
            &&& !new.cli_consecutive_missed.contains_key(labels)
            &&& !new.cli_disconnects.contains_key(labels)
            &&& new.srv_open.count(labels) == 0
            &&& new.handles == handles
        }),
{
}

/// Making the disconnect counters of a session changes no other counter, and
/// nothing but disconnect counters.
pub proof fn law_disconnect_counters_made_alone(
    readings: Readings,
    node: Seq<char>,
    peer: Seq<char>,
    labels: Labels,
)
    ensures
        ({
            let after = with_disconnect_labels(readings, node, peer);
            &&& readings.srv_disconnects.contains_key(labels)
                ==> after.srv_disconnects.contains_key(labels) && after.srv_disconnects[labels]
                == readings.srv_disconnects[labels]
            &&& readings.cli_disconnects.contains_key(labels)
                ==> after.cli_disconnects.contains_key(labels) && after.cli_disconnects[labels]
                == readings.cli_disconnects[labels]
            &&& after.srv_disconnects.contains_key(labels)
                && !readings.srv_disconnects.contains_key(labels)
                ==> after.srv_disconnects[labels] == 0 && exists|reason: DisconnectReason|
                labels == #[trigger] disconnect_labels(node, peer, reason)
            &&& after.cli_disconnects.contains_key(labels)
                && !readings.cli_disconnects.contains_key(labels)
                ==> after.cli_disconnects[labels] == 0 && exists|reason: DisconnectReason|
                labels == #[trigger] disconnect_labels(node, peer, reason)
            &&& after.srv_session_active == readings.srv_session_active
            &&& after.srv_sessions_total == readings.srv_sessions_total
            &&& after.srv_heartbeats_rx == readings.srv_heartbeats_rx
            &&& after.cli_session_active == readings.cli_session_active
            &&& after.cli_sessions_total == readings.cli_sessions_total
            &&& after.cli_heartbeats_sent == readings.cli_heartbeats_sent
            &&& after.cli_heartbeats_rx == readings.cli_heartbeats_rx
            &&& after.cli_heartbeats_missed == readings.cli_heartbeats_missed
            &&& after.cli_consecutive_missed == readings.cli_consecutive_missed
            &&& after.srv_open == readings.srv_open
            &&& after.handles == readings.handles
            &&& after.registered == readings.registered
        }),
{
    let server = server_reasons();
    let client = client_reasons();
    lemma_with_reasons(readings.srv_disconnects, node, peer, server, server.len(), labels);
    lemma_with_reasons(readings.cli_disconnects, node, peer, client, client.len(), labels);
}

} // verus!
