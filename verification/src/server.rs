//! Inbound sessions: one heartbeat session over an accepted connection, the
//! probe port, and the addresses that a node listens on.

use crate::config::{Config, ServerConfig};
use crate::disconnect::{DisconnectReason, IoErrorKind};
use crate::families::bumped;
use crate::metrics::{
    disconnect_labels, note_closed, note_opened, peer_labels, with_disconnect_labels,
    without_session, DisconnectLabel, Metrics, PeerLabel, Readings,
};
use crate::protocol::{
    decode_packet, encode_packet, law_packet_written_back, HandshakeError, PACKET_SIZE,
};
use crate::text::{address, address_text, law_addresses_told_apart};
use vstd::prelude::*;

verus! {

/// Seconds within which a client has to announce its name.
pub const HANDSHAKE_TIMEOUT: u64 = 5;

/// The reason that a failed receive or echo gives for the end of an inbound session.
pub open spec fn server_reason(kind: IoErrorKind) -> DisconnectReason {
    match kind {
        IoErrorKind::ConnectionReset => DisconnectReason::ConnectionReset,
        IoErrorKind::UnexpectedEof => DisconnectReason::RemoteClose,
        _ => DisconnectReason::LocalError,
    }
}

fn failure_reason(kind: IoErrorKind) -> (reason: DisconnectReason)
    ensures
        reason == server_reason(kind),
{
    match kind {
        IoErrorKind::ConnectionReset => DisconnectReason::ConnectionReset,
        IoErrorKind::UnexpectedEof => DisconnectReason::RemoteClose,
        IoErrorKind::BrokenPipe | IoErrorKind::Other => DisconnectReason::LocalError,
    }
}

/// What an inbound session is doing.
#[derive(Clone, Copy, Debug, PartialEq, Eq, Structural)]
pub enum ServerStage {
    /// Waiting for a heartbeat.
    Receiving,
    /// Sending a heartbeat back.
    Echoing,
    /// Over.
    Ended,
}

/// What came of what an inbound session asked for.
#[derive(Clone, Copy, Debug)]
pub enum ServerEvent {
    /// This packet came.
    Received([u8; PACKET_SIZE]),
    /// No packet came in time.
    TimedOut,
    ReceiveFailed(IoErrorKind),
    Echoed,
    EchoFailed(IoErrorKind),
}

/// What an inbound session asks for next.
#[derive(Clone, Copy, Debug)]
pub enum ServerAction {
    /// Wait for a packet, for so many seconds at most.
    Receive(u64),
    /// Send this packet.
    Echo([u8; PACKET_SIZE]),
    /// The session is over.
    End(DisconnectReason),
}

/// What an inbound session asks for.
pub ghost enum ServerRequest {
    Receive(u64),
    Echo(Seq<u8>),
    End(DisconnectReason),
}

impl View for ServerAction {
    type V = ServerRequest;

    open spec fn view(&self) -> ServerRequest {
        match *self {
            ServerAction::Receive(seconds) => ServerRequest::Receive(seconds),
            ServerAction::Echo(packet) => ServerRequest::Echo(packet@),
            ServerAction::End(reason) => ServerRequest::End(reason),
        }
    }
}

/// An inbound heartbeat session.
pub struct ServerSession {
    label: PeerLabel,
    recv_timeout: u64,
    stage: ServerStage,
}

/// The state of an inbound session.
pub ghost struct ServerState {
    pub node: Seq<char>,
    pub peer: Seq<char>,
    /// Seconds of silence that end the session.
    pub recv_timeout: u64,
    pub stage: ServerStage,
}

impl ServerState {
    /// The state of a session with a peer that has just announced its name.
    pub open spec fn fresh(node: Seq<char>, peer: Seq<char>, recv_timeout: u64) -> ServerState {
        ServerState { node, peer, recv_timeout, stage: ServerStage::Receiving }
    }

    /// What the metrics show once the session is open: its disconnect counters
    /// are there, it is active and it is counted.
    pub open spec fn opened(self, before: Readings) -> Readings {
        let labels = peer_labels(self.node, self.peer);
        let shown = with_disconnect_labels(before, self.node, self.peer);
        Readings {
            srv_session_active: shown.srv_session_active.insert(labels, 1),
            srv_sessions_total: bumped(shown.srv_sessions_total, labels),
            srv_open: shown.srv_open.insert(labels),
            ..shown
        }
    }

    /// Whether the event answers what the session asked for.
    pub open spec fn expects(self, event: ServerEvent) -> bool {
        match event {
            ServerEvent::Received(_)
            | ServerEvent::TimedOut
            | ServerEvent::ReceiveFailed(_) => self.stage is Receiving,
            ServerEvent::Echoed | ServerEvent::EchoFailed(_) => self.stage is Echoing,
        }
    }

    /// For what reason the session ends with the event, if it does.
    pub open spec fn end(self, event: ServerEvent) -> Option<DisconnectReason> {
        match event {
            ServerEvent::Received(_) | ServerEvent::Echoed => None,
            ServerEvent::TimedOut => Some(DisconnectReason::Timeout),
            ServerEvent::ReceiveFailed(kind) | ServerEvent::EchoFailed(kind) => Some(
                server_reason(kind),
            ),
        }
    }

    /// The state after the event.
    pub open spec fn after(self, event: ServerEvent) -> ServerState {
        ServerState {
            stage: if self.end(event) is Some {
                ServerStage::Ended
            } else if event is Received {
                ServerStage::Echoing
            } else {
                ServerStage::Receiving
            },
            ..self
        }
    }

    /// What the session asks for after the event: a packet that came is sent
    /// back as it came.
    pub open spec fn request(self, event: ServerEvent) -> ServerRequest {
        match self.end(event) {
            Some(reason) => ServerRequest::End(reason),
            None => match event {
                ServerEvent::Received(packet) => ServerRequest::Echo(packet@),
                _ => ServerRequest::Receive(self.recv_timeout),
            },
        }
    }

    /// What the metrics show once the session has ended. The peer stays active
    /// as long as another session with it is open.
    pub open spec fn ended(self, reason: DisconnectReason, before: Readings) -> Readings {
        let labels = peer_labels(self.node, self.peer);
        let others = without_session(before.srv_open, labels);
        Readings {
            srv_session_active: before.srv_session_active.insert(
                labels,
                if others.count(labels) > 0 {
                    1
                } else {
                    0
                },
            ),
            srv_disconnects: bumped(
                before.srv_disconnects,
                disconnect_labels(self.node, self.peer, reason),
            ),
            srv_open: others,
            ..before
        }
    }

    /// What the metrics show after the event.
    pub open spec fn readings(self, event: ServerEvent, before: Readings) -> Readings {
        let labels = peer_labels(self.node, self.peer);
        match self.end(event) {
            Some(reason) => self.ended(reason, before),
            None => if event is Received {
                Readings { srv_heartbeats_rx: bumped(before.srv_heartbeats_rx, labels), ..before }
            } else {
                before
            },
        }
    }
}

impl View for ServerSession {
    type V = ServerState;

    closed spec fn view(&self) -> ServerState {
        ServerState {
            node: self.label.node@,
            peer: self.label.peer@,
            recv_timeout: self.recv_timeout,
            stage: self.stage,
        }
    }
}

impl ServerSession {
    /// Opens a session with the peer that announced its name. A connection on
    /// which none was announced is to be closed: it is no session, and no
    /// metric shows it.
    pub fn open(
        node: &str,
        handshake: Result<String, HandshakeError>,
        recv_timeout: u64,
        metrics: &mut Metrics,
    ) -> (session: Option<ServerSession>)
        ensures
            match handshake {
                Ok(peer) => {
                    &&& session matches Some(opened)
                    &&& opened@ == ServerState::fresh(node@, peer@, recv_timeout)
                    &&& final(metrics)@ == opened@.opened(old(metrics)@)
                },
                Err(_) => session is None && final(metrics)@ == old(metrics)@,
            },
    {
        match handshake {
            Ok(peer) => {
                metrics.init_disconnect_labels(node, peer.as_str());
                let label = PeerLabel { node: node.to_string(), peer };
                let pairs = label.pairs();
                metrics.srv_session_active.set(&pairs, 1);
                metrics.srv_sessions_total.inc(&pairs);
                note_opened(&mut metrics.srv_open, &label);
                Some(ServerSession { label, recv_timeout, stage: ServerStage::Receiving })
            },
            Err(_) => None,
        }
    }

    /// What an open session asks for first.
    pub fn first(&self) -> (action: ServerAction)
        ensures
            action@ == ServerRequest::Receive(self@.recv_timeout),
    {
        ServerAction::Receive(self.recv_timeout)
    }

    /// The name that the peer announced.
    pub fn peer(&self) -> (name: &str)
        ensures
            name@ == self@.peer,
    {
        self.label.peer.as_str()
    }

    /// Whether the event answers what the session asked for.
    pub fn expects(&self, event: &ServerEvent) -> (yes: bool)
        ensures
            yes == self@.expects(*event),
    {
        match event {
            ServerEvent::Received(_)
            | ServerEvent::TimedOut
            | ServerEvent::ReceiveFailed(_) => self.stage == ServerStage::Receiving,
            ServerEvent::Echoed | ServerEvent::EchoFailed(_) => self.stage == ServerStage::Echoing,
        }
    }

    /// Takes an event into account and says what to do next.
    pub fn step(&mut self, event: ServerEvent, metrics: &mut Metrics) -> (action: ServerAction)
        requires
            old(self)@.expects(event),
        ensures
            final(self)@ == old(self)@.after(event),
            action@ == old(self)@.request(event),
            final(metrics)@ == old(self)@.readings(event, old(metrics)@),
    {
        match event {
            ServerEvent::Received(packet) => {
                let heartbeat = decode_packet(&packet);
                metrics.srv_heartbeats_rx.inc(&self.label.pairs());
                self.stage = ServerStage::Echoing;
                proof {
                    law_packet_written_back(packet@);
                }
                ServerAction::Echo(encode_packet(heartbeat.seq, heartbeat.timestamp))
            },
            ServerEvent::TimedOut => self.finish(DisconnectReason::Timeout, metrics),
            ServerEvent::ReceiveFailed(kind) | ServerEvent::EchoFailed(kind) => self.finish(
                failure_reason(kind),
                metrics,
            ),
            ServerEvent::Echoed => {
                self.stage = ServerStage::Receiving;
                ServerAction::Receive(self.recv_timeout)
            },
        }
    }

    /// Ends the session.
    fn finish(&mut self, reason: DisconnectReason, metrics: &mut Metrics) -> (action: ServerAction)
        ensures
            *final(self) == (ServerSession { stage: ServerStage::Ended, ..*old(self) }),
            action@ == ServerRequest::End(reason),
            final(metrics)@ == old(self)@.ended(reason, old(metrics)@),
    {
        let level: i64 = if note_closed(&mut metrics.srv_open, &self.label) {
            1
        } else {
            0
        };
        metrics.srv_session_active.set(&self.label.pairs(), level);
        let label = DisconnectLabel::new(
            self.label.node.as_str(),
            self.label.peer.as_str(),
            reason,
        );
        metrics.srv_disconnects.inc(&label.pairs());
        self.stage = ServerStage::Ended;
        ServerAction::End(reason)
    }
}

/// What a connection to the probe port is greeted with.
pub fn probe_banner() -> (banner: &'static str)
    ensures
        banner@ == "TCP-MONITOR OK\r\n"@,
{
    "TCP-MONITOR OK\r\n"
}

/// What came of what a probe connection asked for.
#[derive(Clone, Copy, Debug, PartialEq, Eq, Structural)]
pub enum ProbeEvent {
    Accepted,
    BannerSent,
    BannerFailed,
    /// So many bytes were read; none means that the peer closed.
    Read(usize),
    ReadFailed,
}

/// What a probe connection asks for next.
#[derive(Clone, Copy, Debug, PartialEq, Eq, Structural)]
pub enum ProbeAction {
    SendBanner,
    /// Read and forget what the peer sends.
    Drain,
    Close,
}

/// What to do with a probe connection: it is greeted, whatever comes of that,
/// and held open until the peer closes it or it fails.
pub fn probe_step(event: ProbeEvent) -> (action: ProbeAction)
    ensures
        action is SendBanner <==> event is Accepted,
        action is Close <==> event == ProbeEvent::Read(0) || event is ReadFailed,
{
    match event {
        ProbeEvent::Accepted => ProbeAction::SendBanner,
        ProbeEvent::BannerSent | ProbeEvent::BannerFailed => ProbeAction::Drain,
        ProbeEvent::Read(n) => if n == 0 {
            ProbeAction::Close
        } else {
            ProbeAction::Drain
        },
        ProbeEvent::ReadFailed => ProbeAction::Close,
    }
}

/// Where a node listens, each as `host:port`.
#[derive(Clone, Debug)]
pub struct Addresses {
    pub heartbeat: String,
    pub probe: String,
    pub metrics: String,
}

/// Where a node listens: for heartbeats and probes where the configuration
/// says, for scrapes on every interface.
pub fn listen_addresses(config: &ServerConfig) -> (addresses: Addresses)
    ensures
        addresses.heartbeat@ == address(config.bind@, config.port),
        addresses.probe@ == address(config.bind@, config.probe_port),
        addresses.metrics@ == address("0.0.0.0"@, config.metrics_port),
{
    Addresses {
        heartbeat: address_text(config.bind.as_str(), config.port),
        probe: address_text(config.bind.as_str(), config.probe_port),
        metrics: address_text("0.0.0.0", config.metrics_port),
    }
}

/// A node whose configuration keeps the rules listens at three different
/// addresses.
pub proof fn law_addresses_differ(config: Config)
    requires
        config.valid(),
    ensures
        ({
            let server = config.server;
            let heartbeat = address(server.bind@, server.port);
            let probe = address(server.bind@, server.probe_port);
            let metrics = address("0.0.0.0"@, server.metrics_port);
            heartbeat != probe && heartbeat != metrics && probe != metrics
        }),
{
    let server = config.server;
    law_addresses_told_apart(server.bind@, server.port, server.bind@, server.probe_port);
    law_addresses_told_apart(server.bind@, server.port, "0.0.0.0"@, server.metrics_port);
    law_addresses_told_apart(server.bind@, server.probe_port, "0.0.0.0"@, server.metrics_port);
}

} // verus!
